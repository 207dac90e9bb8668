//! A plain-text model of the path operations discovery needs.
//!
//! Paths are character strings with `/` as the separator. The parent of a
//! path is everything before its last separator (empty when there is none),
//! its file name is everything after, and a file name's stem is everything
//! before its last dot, except that a dot in the leading position does not
//! count (so a dotfile's stem is the whole name).

use vstd::prelude::*;

use crate::chars::{seq_ends_with, seq_starts_with, str_ends_with, str_starts_with};

verus! {

/// `s` lies under the directory `p`: `p` is a prefix of `s` and the next
/// character, if there is one, is a separator.
pub open spec fn path_starts_with_dir(s: Seq<char>, p: Seq<char>) -> bool {
    seq_starts_with(s, p) && (s.len() == p.len() || s[p.len() as int] == '/')
}

/// `s` ends with the path segments `p`: `p` is a suffix of `s` and the
/// character before it, if there is one, is a separator.
pub open spec fn path_ends_with_dir(s: Seq<char>, p: Seq<char>) -> bool {
    seq_ends_with(s, p) && (s.len() == p.len() || s[s.len() - p.len() - 1] == '/')
}

/// Whether `s` lies under the directory `p`.
pub fn path_under_dir(s: &str, p: &str) -> (r: bool)
    ensures
        r == path_starts_with_dir(s@, p@),
{
    if !str_starts_with(s, p) {
        return false;
    }
    let n = s.unicode_len();
    let m = p.unicode_len();
    if n == m {
        true
    } else {
        s.get_char(m) == '/'
    }
}

/// Whether `s` ends with the path segments `p`.
pub fn path_ends_with_segments(s: &str, p: &str) -> (r: bool)
    ensures
        r == path_ends_with_dir(s@, p@),
{
    if !str_ends_with(s, p) {
        return false;
    }
    let n = s.unicode_len();
    let m = p.unicode_len();
    if n == m {
        true
    } else {
        s.get_char(n - m - 1) == '/'
    }
}

/// Index of the last occurrence of `c` in `s` strictly before position `i`,
/// or -1 if there is none.
pub open spec fn last_index_from(s: Seq<char>, c: char, i: int) -> int
    decreases i,
{
    if i <= 0 {
        -1
    } else if s[i - 1] == c {
        i - 1
    } else {
        last_index_from(s, c, i - 1)
    }
}

/// Index of the last occurrence of `c` in `s`, or -1 if there is none.
pub open spec fn last_index_of(s: Seq<char>, c: char) -> int {
    last_index_from(s, c, s.len() as int)
}

/// The characters before the last separator; empty when there is no separator.
pub open spec fn parent_of(s: Seq<char>) -> Seq<char> {
    if last_index_of(s, '/') >= 0 {
        s.subrange(0, last_index_of(s, '/'))
    } else {
        Seq::empty()
    }
}

/// The characters after the last separator; the whole string when there is
/// no separator.
pub open spec fn file_name_of(s: Seq<char>) -> Seq<char> {
    s.subrange(last_index_of(s, '/') + 1, s.len() as int)
}

/// The stem of a file name: the characters before the last dot, except that
/// a dot at the very start does not begin an extension.
pub open spec fn stem_of(name: Seq<char>) -> Seq<char> {
    if last_index_of(name, '.') > 0 {
        name.subrange(0, last_index_of(name, '.'))
    } else {
        name
    }
}

/// Position of the last occurrence of `c` in `s`, if any.
pub fn find_last(s: &str, c: char) -> (r: Option<usize>)
    ensures
        match r {
            Some(k) => last_index_of(s@, c) == k as int && k < s@.len(),
            None => last_index_of(s@, c) == -1,
        },
{
    let n = s.unicode_len();
    let mut i: usize = n;
    while i > 0
        invariant
            i <= n,
            n == s@.len(),
            last_index_from(s@, c, n as int) == last_index_from(s@, c, i as int),
        decreases i,
    {
        if s.get_char(i - 1) == c {
            return Some(i - 1);
        }
        i -= 1;
    }
    None
}

/// The parent of `s`: the characters before its last separator.
pub fn path_parent(s: &str) -> (r: String)
    ensures
        r@ == parent_of(s@),
{
    match find_last(s, '/') {
        Some(k) => String::from_str(s.substring_char(0, k)),
        None => String::new(),
    }
}

/// The file name of `s`: the characters after its last separator.
pub fn path_file_name(s: &str) -> (r: String)
    ensures
        r@ == file_name_of(s@),
{
    let n = s.unicode_len();
    match find_last(s, '/') {
        Some(k) => String::from_str(s.substring_char(k + 1, n)),
        None => String::from_str(s),
    }
}

/// The stem of the file name `name`: what stands before its last dot, a
/// leading dot excepted.
pub fn file_stem(name: &str) -> (r: String)
    ensures
        r@ == stem_of(name@),
{
    match find_last(name, '.') {
        Some(k) if k > 0 => String::from_str(name.substring_char(0, k)),
        _ => String::from_str(name),
    }
}

} // verus!
