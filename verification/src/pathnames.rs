//! Path and file-name classification.
//!
//! The library models a path as its sequence of characters.  The file name
//! is everything after the last `/`; a path that ends in a separator has an
//! empty file name.  The extension is the part of the file name after its
//! last `.`, provided that dot is not the first character of the name, as
//! for hidden files such as `.bashrc`.  Extension matching is ASCII
//! case-insensitive, as the recognized extensions are all plain ASCII.

use vstd::prelude::*;
use vstd::string::StrSliceExecFns;

verus! {

/// The code point of `c` with an ASCII upper-case letter folded to lower case.
pub open spec fn lower_code(c: char) -> int {
    if 'A' <= c && c <= 'Z' {
        c as int + 32
    } else {
        c as int
    }
}

/// ASCII case-insensitive equality of two character sequences.
pub open spec fn eq_ignore_ascii_case(a: Seq<char>, b: Seq<char>) -> bool {
    a.len() == b.len() && forall|i: int| 0 <= i < a.len() ==> lower_code(a[i]) == lower_code(b[i])
}

/// The index of the last occurrence of `c` in `s`, if any.
pub open spec fn last_index_of(s: Seq<char>, c: char) -> Option<int>
    decreases s.len(),
{
    if s.len() == 0 {
        None
    } else if s[s.len() - 1] == c {
        Some(s.len() - 1)
    } else {
        last_index_of(s.drop_last(), c)
    }
}

/// The index at which the file name of `p` begins: just after the last
/// separator, or the start of the path when it has none.
pub open spec fn name_start(p: Seq<char>) -> int {
    match last_index_of(p, '/') {
        Some(i) => i + 1,
        None => 0,
    }
}

/// The file name of `p`: everything after the last separator.
pub open spec fn file_name_of(p: Seq<char>) -> Seq<char> {
    p.subrange(name_start(p), p.len() as int)
}

/// The index just after the dot that introduces the extension of `p`,
/// or `None` when the file name has no extension.
pub open spec fn ext_start(p: Seq<char>) -> Option<int> {
    match last_index_of(p, '.') {
        Some(d) => if d > name_start(p) {
            Some(d + 1)
        } else {
            None
        },
        None => None,
    }
}

/// The extension of `p`: the part of the file name after its last dot,
/// unless that dot is the first character of the name.
pub open spec fn extension_of(p: Seq<char>) -> Option<Seq<char>> {
    match ext_start(p) {
        Some(e) => Some(p.subrange(e, p.len() as int)),
        None => None,
    }
}

/// The file name of `p` without its extension and without the dot.
pub open spec fn stem_of(p: Seq<char>) -> Seq<char> {
    match ext_start(p) {
        Some(e) => p.subrange(name_start(p), e - 1),
        None => file_name_of(p),
    }
}

/// The extensions eligible for conversion, compared without regard to
/// ASCII case.
pub open spec fn is_supported_extension(e: Seq<char>) -> bool {
    ||| eq_ignore_ascii_case(e, seq!['p', 'n', 'g'])
    ||| eq_ignore_ascii_case(e, seq!['j', 'p', 'g'])
    ||| eq_ignore_ascii_case(e, seq!['j', 'p', 'e', 'g'])
    ||| eq_ignore_ascii_case(e, seq!['b', 'm', 'p'])
    ||| eq_ignore_ascii_case(e, seq!['t', 'i', 'f', 'f'])
    ||| eq_ignore_ascii_case(e, seq!['g', 'i', 'f'])
}

/// Whether `p` names a file eligible as conversion input.
pub open spec fn is_candidate_path(p: Seq<char>) -> bool {
    match extension_of(p) {
        Some(e) => is_supported_extension(e),
        None => false,
    }
}

/// Whether `p` names a file that is already WebP.
pub open spec fn is_webp_path(p: Seq<char>) -> bool {
    match extension_of(p) {
        Some(e) => eq_ignore_ascii_case(e, seq!['w', 'e', 'b', 'p']),
        None => false,
    }
}

/// Character-by-character string equality.
pub fn str_eq(a: &str, b: &str) -> (r: bool)
    ensures
        r == (a@ == b@),
{
    let alen: usize = a.unicode_len();
    let blen: usize = b.unicode_len();
    if alen != blen {
        proof {
            assert(a@.len() != b@.len());
        }
        return false;
    }
    let mut i: usize = 0;
    while i < alen
        invariant
            i <= alen,
            alen == a@.len(),
            alen == b@.len(),
            forall|j: int| 0 <= j < i ==> a@[j] == b@[j],
        decreases alen - i,
    {
        if a.get_char(i) != b.get_char(i) {
            return false;
        }
        i += 1;
    }
    proof {
        assert(a@ =~= b@);
    }
    true
}

/// The index of the last occurrence of `c` in `s`, scanning from the end.
pub fn last_index_in_str(s: &str, c: char) -> (r: Option<usize>)
    ensures
        match r {
            Some(i) => i < s@.len() && last_index_of(s@, c) == Some(i as int),
            None => last_index_of(s@, c) is None,
        },
{
    let n: usize = s.unicode_len();
    let mut i: usize = n;
    proof {
        assert(s@.take(n as int) =~= s@);
    }
    while i > 0
        invariant
            i <= n,
            n == s@.len(),
            last_index_of(s@, c) == last_index_of(s@.take(i as int), c),
        decreases i,
    {
        let ch: char = s.get_char(i - 1);
        proof {
            assert(s@.take(i as int).len() == i);
            assert(s@.take(i as int)[i - 1] == s@[i - 1]);
            assert(s@.take(i as int).drop_last() =~= s@.take(i - 1));
        }
        if ch == c {
            return Some(i - 1);
        }
        i -= 1;
    }
    proof {
        assert(s@.take(0).len() == 0);
    }
    None
}

/// The index at which the file name of `path` begins.
pub fn name_start_index(path: &str) -> (r: usize)
    ensures
        r as int == name_start(path@),
        r <= path@.len(),
{
    let n: usize = path.unicode_len();
    proof {
        lemma_last_index_properties(path@, '/');
    }
    match last_index_in_str(path, '/') {
        Some(i) => i + 1,
        None => 0,
    }
}

/// The index just after the extension dot of `path`, if the file name
/// has an extension.
pub fn extension_start_index(path: &str) -> (r: Option<usize>)
    ensures
        match r {
            Some(e) => {
                &&& ext_start(path@) == Some(e as int)
                &&& name_start(path@) < e <= path@.len()
            },
            None => ext_start(path@) is None,
        },
{
    let n: usize = path.unicode_len();
    let ns: usize = name_start_index(path);
    proof {
        lemma_last_index_properties(path@, '.');
    }
    match last_index_in_str(path, '.') {
        Some(d) => {
            if d > ns {
                Some(d + 1)
            } else {
                None
            }
        },
        None => None,
    }
}

/// The folded code of `c`, as an executable value.
pub fn lower_code_of(c: char) -> (r: u32)
    ensures
        r as int == lower_code(c),
{
    let v: u32 = c as u32;
    if 65 <= v && v <= 90 {
        v + 32
    } else {
        v
    }
}

/// Whether `path` has one of the recognized input extensions,
/// compared without regard to ASCII case.
pub fn has_supported_extension(path: &str) -> (r: bool)
    ensures
        r == is_candidate_path(path@),
{
    let n: usize = path.unicode_len();
    match extension_start_index(path) {
        None => false,
        Some(st) => {
            let len: usize = n - st;
            if len == 3 {
                let c0: u32 = lower_code_of(path.get_char(st));
                let c1: u32 = lower_code_of(path.get_char(st + 1));
                let c2: u32 = lower_code_of(path.get_char(st + 2));
                proof {
                    assert(extension_of(path@) == Some(path@.subrange(st as int, n as int)));
                    assert(path@.subrange(st as int, n as int).len() == 3);
                }
                ||| (c0 == 'p' as u32 && c1 == 'n' as u32 && c2 == 'g' as u32)
                ||| (c0 == 'j' as u32 && c1 == 'p' as u32 && c2 == 'g' as u32)
                ||| (c0 == 'b' as u32 && c1 == 'm' as u32 && c2 == 'p' as u32)
                ||| (c0 == 'g' as u32 && c1 == 'i' as u32 && c2 == 'f' as u32)
            } else if len == 4 {
                let c0: u32 = lower_code_of(path.get_char(st));
                let c1: u32 = lower_code_of(path.get_char(st + 1));
                let c2: u32 = lower_code_of(path.get_char(st + 2));
                let c3: u32 = lower_code_of(path.get_char(st + 3));
                proof {
                    assert(extension_of(path@) == Some(path@.subrange(st as int, n as int)));
                    assert(path@.subrange(st as int, n as int).len() == 4);
                }
                ||| (c0 == 'j' as u32 && c1 == 'p' as u32 && c2 == 'e' as u32 && c3 == 'g' as u32)
                ||| (c0 == 't' as u32 && c1 == 'i' as u32 && c2 == 'f' as u32 && c3 == 'f' as u32)
            } else {
                false
            }
        },
    }
}

/// Whether `path` names a file that is already WebP.
pub fn is_webp_file(path: &str) -> (r: bool)
    ensures
        r == is_webp_path(path@),
{
    let n: usize = path.unicode_len();
    match extension_start_index(path) {
        None => false,
        Some(st) => {
            let len: usize = n - st;
            if len == 4 {
                let c0: u32 = lower_code_of(path.get_char(st));
                let c1: u32 = lower_code_of(path.get_char(st + 1));
                let c2: u32 = lower_code_of(path.get_char(st + 2));
                let c3: u32 = lower_code_of(path.get_char(st + 3));
                proof {
                    assert(extension_of(path@) == Some(path@.subrange(st as int, n as int)));
                    assert(path@.subrange(st as int, n as int).len() == 4);
                }
                c0 == 'w' as u32 && c1 == 'e' as u32 && c2 == 'b' as u32 && c3 == 'p' as u32
            } else {
                false
            }
        },
    }
}

/// The stem used for the output file name: the input's file name without
/// its extension, or `image` when the input has an empty file name.
pub open spec fn output_stem(p: Seq<char>) -> Seq<char> {
    if file_name_of(p).len() == 0 {
        seq!['i', 'm', 'a', 'g', 'e']
    } else {
        stem_of(p)
    }
}

/// The output path for one conversion: `{output_dir}/{stem}.webp`.
pub open spec fn output_path_spec(output_dir: Seq<char>, input_path: Seq<char>) -> Seq<char> {
    output_dir + seq!['/'] + output_stem(input_path) + seq!['.', 'w', 'e', 'b', 'p']
}

/// Builds the output path for one conversion.
pub fn webp_output_path(output_dir: &str, input_path: &str) -> (r: String)
    ensures
        r@ == output_path_spec(output_dir@, input_path@),
{
    let n: usize = input_path.unicode_len();
    let ns: usize = name_start_index(input_path);
    let stem_end: usize = match extension_start_index(input_path) {
        Some(e) => e - 1,
        None => n,
    };
    let mut r = String::from_str(output_dir);
    r.append("/");
    proof {
        reveal_strlit("/");
        assert("/"@ =~= seq!['/']);
    }
    if ns == n {
        r.append("image");
        proof {
            reveal_strlit("image");
            assert("image"@ =~= seq!['i', 'm', 'a', 'g', 'e']);
            assert(file_name_of(input_path@).len() == 0);
        }
    } else {
        let stem = input_path.substring_char(ns, stem_end);
        r.append(stem);
        proof {
            assert(file_name_of(input_path@).len() > 0);
            assert(stem@ =~= output_stem(input_path@));
        }
    }
    r.append(".webp");
    proof {
        reveal_strlit(".webp");
        assert(".webp"@ =~= seq!['.', 'w', 'e', 'b', 'p']);
    }
    r
}

/// A directory path and a file name joined with a separator.
pub open spec fn joined_path_spec(dir: Seq<char>, name: Seq<char>) -> Seq<char> {
    dir + seq!['/'] + name
}

/// Joins a directory path and a file name.
pub fn join_path(dir: &str, name: &str) -> (r: String)
    ensures
        r@ == joined_path_spec(dir@, name@),
{
    let mut r = String::from_str(dir);
    r.append("/");
    proof {
        reveal_strlit("/");
        assert("/"@ =~= seq!['/']);
    }
    r.append(name);
    r
}

/// The components of `p` split on the separator, in order, empty
/// components kept: `a//b` has components `a`, ``, `b`.
pub open spec fn raw_components(p: Seq<char>) -> Seq<Seq<char>>
    decreases p.len(),
{
    if p.len() == 0 {
        seq![Seq::<char>::empty()]
    } else if p.last() == '/' {
        raw_components(p.drop_last()).push(Seq::<char>::empty())
    } else {
        let cs = raw_components(p.drop_last());
        cs.update(cs.len() - 1, cs.last().push(p.last()))
    }
}

/// A component that survives normalization: non-empty and not `.`.
pub open spec fn keep_component(c: Seq<char>) -> bool {
    c.len() > 0 && c != seq!['.']
}

/// The components that survive normalization, in order.
pub open spec fn normalized_of(cs: Seq<Seq<char>>) -> Seq<Seq<char>> {
    cs.filter(|c: Seq<char>| keep_component(c))
}

/// The normalized components of `p`: repeated separators, `.` components
/// and a trailing separator all vanish.
pub open spec fn clean_components(p: Seq<char>) -> Seq<Seq<char>> {
    normalized_of(raw_components(p))
}

/// Whether `p` is absolute: it begins with the separator.
pub open spec fn is_absolute(p: Seq<char>) -> bool {
    p.len() > 0 && p[0] == '/'
}

/// Whether two paths name the same file once normalized: same kind
/// (absolute or relative) and the same normalized components.
pub open spec fn same_path(a: Seq<char>, b: Seq<char>) -> bool {
    is_absolute(a) == is_absolute(b) && clean_components(a) == clean_components(b)
}

/// A path always has at least one raw component.
proof fn lemma_raw_components_nonempty(p: Seq<char>)
    ensures
        raw_components(p).len() >= 1,
    decreases p.len(),
{
    if p.len() > 0 {
        lemma_raw_components_nonempty(p.drop_last());
    }
}

/// The views of a vector of path components.
pub open spec fn component_views(v: Seq<String>) -> Seq<Seq<char>> {
    v.map_values(|s: String| s@)
}

/// The normalized components of `path`, as strings.
pub fn clean_components_of(path: &str) -> (r: Vec<String>)
    ensures
        component_views(r@) == clean_components(path@),
{
    let n: usize = path.unicode_len();
    let mut kept: Vec<String> = Vec::new();
    let mut start: usize = 0;
    let mut i: usize = 0;
    proof {
        reveal(Seq::filter);
        assert(path@.take(0) =~= Seq::<char>::empty());
        assert(raw_components(path@.take(0)).drop_last() =~= Seq::<Seq<char>>::empty());
        assert(component_views(kept@) =~= normalized_of(
            raw_components(path@.take(0)).drop_last(),
        ));
        assert(raw_components(path@.take(0)).last() =~= path@.subrange(0, 0));
    }
    while i < n
        invariant
            start <= i <= n,
            n == path@.len(),
            component_views(kept@) == normalized_of(
                raw_components(path@.take(i as int)).drop_last(),
            ),
            raw_components(path@.take(i as int)).last() == path@.subrange(
                start as int,
                i as int,
            ),
        decreases n - i,
    {
        let ghost cs = raw_components(path@.take(i as int));
        proof {
            lemma_raw_components_nonempty(path@.take(i as int));
            assert(path@.take(i + 1).drop_last() =~= path@.take(i as int));
            assert(path@.take(i + 1).last() == path@[i as int]);
        }
        let c: char = path.get_char(i);
        if c == '/' {
            let ghost comp = path@.subrange(start as int, i as int);
            proof {
                reveal(Seq::filter);
                assert(raw_components(path@.take(i + 1)) =~= cs.push(Seq::<char>::empty()));
                assert(raw_components(path@.take(i + 1)).drop_last() =~= cs);
                assert(cs.drop_last().push(comp) =~= cs);
                assert(normalized_of(cs) == if keep_component(comp) {
                    normalized_of(cs.drop_last()).push(comp)
                } else {
                    normalized_of(cs.drop_last())
                });
            }
            let clen: usize = i - start;
            if clen > 0 && !(clen == 1 && path.get_char(start) == '.') {
                let sub = path.substring_char(start, i);
                kept.push(String::from_str(sub));
                proof {
                    assert(comp.len() == 1 ==> comp =~= seq![comp[0]]);
                    assert(keep_component(comp));
                    assert(component_views(kept@) =~= normalized_of(cs.drop_last()).push(comp));
                }
            } else {
                proof {
                    if clen == 1 && path@[start as int] == '.' {
                        assert(comp =~= seq!['.']);
                    }
                    assert(!keep_component(comp));
                }
            }
            start = i + 1;
            proof {
                assert(raw_components(path@.take(i + 1)).last() =~= path@.subrange(
                    i + 1,
                    i + 1,
                ));
            }
        } else {
            proof {
                assert(raw_components(path@.take(i + 1)) =~= cs.update(
                    cs.len() - 1,
                    cs.last().push(path@[i as int]),
                ));
                assert(raw_components(path@.take(i + 1)).drop_last() =~= cs.drop_last());
                assert(cs.last().push(path@[i as int]) =~= path@.subrange(
                    start as int,
                    i + 1,
                ));
            }
        }
        i += 1;
    }
    let ghost cs = raw_components(path@);
    let ghost comp = path@.subrange(start as int, n as int);
    proof {
        reveal(Seq::filter);
        assert(path@.take(n as int) =~= path@);
        lemma_raw_components_nonempty(path@);
        assert(cs.drop_last().push(comp) =~= cs);
        assert(normalized_of(cs) == if keep_component(comp) {
            normalized_of(cs.drop_last()).push(comp)
        } else {
            normalized_of(cs.drop_last())
        });
    }
    let clen: usize = n - start;
    if clen > 0 && !(clen == 1 && path.get_char(start) == '.') {
        let sub = path.substring_char(start, n);
        kept.push(String::from_str(sub));
        proof {
            assert(comp.len() == 1 ==> comp =~= seq![comp[0]]);
            assert(keep_component(comp));
            assert(component_views(kept@) =~= normalized_of(cs.drop_last()).push(comp));
        }
    } else {
        proof {
            if clen == 1 && path@[start as int] == '.' {
                assert(comp =~= seq!['.']);
            }
            assert(!keep_component(comp));
        }
    }
    kept
}

/// Whether two paths name the same file once normalized.
pub fn paths_equivalent(a: &str, b: &str) -> (r: bool)
    ensures
        r == same_path(a@, b@),
{
    let an: usize = a.unicode_len();
    let bn: usize = b.unicode_len();
    let a_abs: bool = an > 0 && a.get_char(0) == '/';
    let b_abs: bool = bn > 0 && b.get_char(0) == '/';
    if a_abs != b_abs {
        return false;
    }
    let ca = clean_components_of(a);
    let cb = clean_components_of(b);
    if ca.len() != cb.len() {
        proof {
            assert(component_views(ca@).len() == ca@.len());
            assert(component_views(cb@).len() == cb@.len());
        }
        return false;
    }
    let mut j: usize = 0;
    while j < ca.len()
        invariant
            j <= ca@.len(),
            ca@.len() == cb@.len(),
            component_views(ca@) == clean_components(a@),
            component_views(cb@) == clean_components(b@),
            is_absolute(a@) == is_absolute(b@),
            forall|k: int| 0 <= k < j ==> component_views(ca@)[k] == component_views(cb@)[k],
        decreases ca@.len() - j,
    {
        if !str_eq(ca[j].as_str(), cb[j].as_str()) {
            proof {
                assert(component_views(ca@)[j as int] != component_views(cb@)[j as int]);
            }
            return false;
        }
        j += 1;
    }
    proof {
        assert(component_views(ca@) =~= component_views(cb@));
    }
    true
}

/// Where the last occurrence of `c` lies, nothing after it is `c`; with
/// no occurrence, no position holds `c`.
pub proof fn lemma_last_index_properties(s: Seq<char>, c: char)
    ensures
        match last_index_of(s, c) {
            Some(i) => 0 <= i < s.len() && s[i] == c && (forall|j: int|
                i < j < s.len() ==> s[j] != c),
            None => forall|j: int| 0 <= j < s.len() ==> s[j] != c,
        },
    decreases s.len(),
{
    if s.len() > 0 && s[s.len() - 1] != c {
        lemma_last_index_properties(s.drop_last(), c);
        assert(forall|j: int| 0 <= j < s.len() - 1 ==> s.drop_last()[j] == s[j]);
    }
}

/// A position of `c` with nothing but other characters after it is the
/// last occurrence.
pub proof fn lemma_last_index_determined(s: Seq<char>, c: char, i: int)
    requires
        0 <= i < s.len(),
        s[i] == c,
        forall|j: int| i < j < s.len() ==> s[j] != c,
    ensures
        last_index_of(s, c) == Some(i),
    decreases s.len(),
{
    if i < s.len() - 1 {
        assert(s[s.len() - 1] != c);
        lemma_last_index_determined(s.drop_last(), c, i);
    }
}

/// The last raw component of a path is its file name.
pub proof fn lemma_last_raw_component(p: Seq<char>)
    ensures
        raw_components(p).last() == file_name_of(p),
    decreases p.len(),
{
    if p.len() == 0 {
        assert(file_name_of(p) =~= Seq::<char>::empty());
    } else if p.last() == '/' {
        lemma_last_index_determined(p, '/', p.len() - 1);
        assert(file_name_of(p) =~= Seq::<char>::empty());
    } else {
        lemma_last_raw_component(p.drop_last());
        lemma_last_index_properties(p.drop_last(), '/');
        lemma_raw_components_nonempty(p.drop_last());
        assert(file_name_of(p.drop_last()).push(p.last()) =~= file_name_of(p));
    }
}

/// A last component that normalization keeps is also the last
/// normalized component.
pub proof fn lemma_clean_last(p: Seq<char>)
    requires
        keep_component(raw_components(p).last()),
    ensures
        clean_components(p).len() >= 1,
        clean_components(p).last() == raw_components(p).last(),
{
    reveal(Seq::filter);
    lemma_raw_components_nonempty(p);
    let cs = raw_components(p);
    assert(cs.drop_last().push(cs.last()) =~= cs);
    assert(normalized_of(cs) == normalized_of(cs.drop_last()).push(cs.last()));
}

/// With an extension present, the file name splits into the stem, the
/// dot, and the extension.
pub proof fn lemma_name_decomposition(p: Seq<char>)
    requires
        ext_start(p) is Some,
    ensures
        file_name_of(p) == stem_of(p) + seq!['.'] + extension_of(p).unwrap(),
{
    lemma_last_index_properties(p, '.');
    lemma_last_index_properties(p, '/');
    let e = ext_start(p).unwrap();
    let d = last_index_of(p, '.').unwrap();
    assert(e == d + 1);
    assert(d > name_start(p));
    assert(0 <= name_start(p) <= p.len());
    assert(d < p.len());
    assert(p[d] == '.');
    assert(stem_of(p) == p.subrange(name_start(p), d));
    assert(extension_of(p).unwrap() == p.subrange(e, p.len() as int));
    assert(file_name_of(p) =~= stem_of(p) + seq!['.'] + p.subrange(e, p.len() as int));
}

} // verus!


