//! The error taxonomy of the conversion library.
//!
//! `InvalidArgument` covers the pre-flight guards (identical paths, empty
//! directory arguments, an input that is already WebP); `DecodeError` and
//! `EncodeError` are item-local codec failures; `IoError` is a filesystem
//! failure reported by the caller that performs the file operations.

use vstd::prelude::*;

verus! {

#[derive(Debug)]
pub enum ConvError {
    InvalidArgument(String),
    DecodeError(String),
    EncodeError(String),
    IoError(String),
}

impl ConvError {
    /// The human-readable description carried by the error.
    pub open spec fn spec_message(&self) -> Seq<char> {
        match self {
            ConvError::InvalidArgument(s) => s@,
            ConvError::DecodeError(s) => s@,
            ConvError::EncodeError(s) => s@,
            ConvError::IoError(s) => s@,
        }
    }

    pub fn message(&self) -> (r: String)
        ensures
            r@ == self.spec_message(),
    {
        match self {
            ConvError::InvalidArgument(s) => s.clone(),
            ConvError::DecodeError(s) => s.clone(),
            ConvError::EncodeError(s) => s.clone(),
            ConvError::IoError(s) => s.clone(),
        }
    }

    pub fn is_invalid_argument(&self) -> (r: bool)
        ensures
            r == (self is InvalidArgument),
    {
        match self {
            ConvError::InvalidArgument(_) => true,
            _ => false,
        }
    }

    pub fn is_decode_error(&self) -> (r: bool)
        ensures
            r == (self is DecodeError),
    {
        match self {
            ConvError::DecodeError(_) => true,
            _ => false,
        }
    }

    pub fn is_encode_error(&self) -> (r: bool)
        ensures
            r == (self is EncodeError),
    {
        match self {
            ConvError::EncodeError(_) => true,
            _ => false,
        }
    }

    pub fn is_io_error(&self) -> (r: bool)
        ensures
            r == (self is IoError),
    {
        match self {
            ConvError::IoError(_) => true,
            _ => false,
        }
    }
}

} // verus!
