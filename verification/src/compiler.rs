//! Parsing of the main library's compiler-flags output.
//!
//! The text is split on whitespace (plain splitting; linker flags need the
//! shell tokenizer instead). Each `-I` token names an include directory,
//! except that an include under the recognized macOS SDK prefix ending in the
//! recognized system-header suffix is rewritten: its grandparent becomes the
//! value of a sysroot flag, appended to the extra compiler flags, because a
//! plain `-I` on system headers breaks compilation on newer macOS.

use vstd::prelude::*;

use crate::chars::{seq_starts_with, str_starts_with, str_suffix_from};
use crate::pathmodel::{
    parent_of, path_ends_with_dir, path_ends_with_segments, path_parent, path_starts_with_dir,
    path_under_dir,
};

verus! {

/// The characters treated as whitespace when compiler flags are split:
/// ASCII space, tab, line feed, vertical tab, form feed, carriage return.
pub open spec fn is_space(c: char) -> bool {
    c == ' ' || c == '\t' || c == '\n' || c == '\u{b}' || c == '\u{c}' || c == '\r'
}

/// Length of the run of non-whitespace characters of `s` starting at `i`.
pub open spec fn nonspace_len_from(s: Seq<char>, i: int) -> int
    decreases s.len() - i,
{
    if i < 0 || i >= s.len() || is_space(s[i]) {
        0
    } else {
        1 + nonspace_len_from(s, i + 1)
    }
}

pub proof fn lemma_nonspace_len_from(s: Seq<char>, i: int)
    requires
        0 <= i <= s.len(),
    ensures
        0 <= nonspace_len_from(s, i),
        i + nonspace_len_from(s, i) <= s.len(),
        i < s.len() && !is_space(s[i]) ==> nonspace_len_from(s, i) >= 1,
        forall|j: int| i <= j < i + nonspace_len_from(s, i) ==> !is_space(s[j]),
        i + nonspace_len_from(s, i) < s.len() ==> is_space(s[i + nonspace_len_from(s, i)]),
    decreases s.len() - i,
{
    if !(i >= s.len() || is_space(s[i])) {
        lemma_nonspace_len_from(s, i + 1);
    }
}

/// The run length is pinned by its two boundary facts.
pub proof fn lemma_nonspace_len_unique(s: Seq<char>, i: int, m: int)
    requires
        0 <= i <= m <= s.len(),
        forall|k: int| i <= k < m ==> !is_space(s[k]),
        m == s.len() || is_space(s[m]),
    ensures
        nonspace_len_from(s, i) == m - i,
    decreases m - i,
{
    if i < m {
        lemma_nonspace_len_unique(s, i + 1, m);
    }
}

/// The whitespace-separated tokens of `s` from position `i` on.
pub open spec fn split_ws_from(s: Seq<char>, i: int) -> Seq<Seq<char>>
    decreases s.len() - i,
    via split_ws_from_decreases
{
    if i < 0 || i >= s.len() {
        Seq::empty()
    } else if is_space(s[i]) {
        split_ws_from(s, i + 1)
    } else {
        seq![s.subrange(i, i + nonspace_len_from(s, i))] + split_ws_from(
            s,
            i + nonspace_len_from(s, i),
        )
    }
}

#[via_fn]
proof fn split_ws_from_decreases(s: Seq<char>, i: int) {
    if !(i < 0 || i >= s.len()) && !is_space(s[i]) {
        lemma_nonspace_len_from(s, i);
    }
}

/// The whitespace-separated tokens of `s`.
pub open spec fn split_ws(s: Seq<char>) -> Seq<Seq<char>> {
    split_ws_from(s, 0)
}

/// Whether `c` counts as whitespace for compiler-flag splitting.
pub fn is_space_char(c: char) -> (r: bool)
    ensures
        r == is_space(c),
{
    c == ' ' || c == '\t' || c == '\n' || c == '\u{b}' || c == '\u{c}' || c == '\r'
}

/// Split `s` into its whitespace-separated tokens.
pub fn whitespace_split(s: &str) -> (r: Vec<String>)
    ensures
        r.deep_view() == split_ws(s@),
{
    let n = s.unicode_len();
    let mut toks: Vec<String> = Vec::new();
    let mut i: usize = 0;
    while i < n
        invariant
            i <= n,
            n == s@.len(),
            split_ws(s@) == toks.deep_view() + split_ws_from(s@, i as int),
        decreases n - i,
    {
        if is_space_char(s.get_char(i)) {
            i += 1;
        } else {
            let start = i;
            let mut j = i + 1;
            while j < n
                invariant
                    start < j <= n,
                    n == s@.len(),
                    forall|k: int| start <= k < j ==> !is_space(s@[k]),
                ensures
                    start < j <= n,
                    forall|k: int| start <= k < j ==> !is_space(s@[k]),
                    j == n || is_space(s@[j as int]),
                decreases n - j,
            {
                if is_space_char(s.get_char(j)) {
                    break;
                }
                j += 1;
            }
            proof {
                lemma_nonspace_len_unique(s@, start as int, j as int);
                assert(split_ws_from(s@, start as int) == seq![
                    s@.subrange(start as int, j as int),
                ] + split_ws_from(s@, j as int));
            }
            toks.push(String::from_str(s.substring_char(start, j)));
            proof {
                assert(toks.deep_view() + split_ws_from(s@, j as int) =~= split_ws(s@));
            }
            i = j;
        }
    }
    proof {
        assert(toks.deep_view() + split_ws_from(s@, i as int) =~= toks.deep_view());
    }
    toks
}

/// The recognized macOS SDK prefix.
pub open spec fn sdk_prefix() -> Seq<char> {
    "/Library/Developer/CommandLineTools/SDKs"@
}

/// The recognized system-header suffix segments.
pub open spec fn sdk_suffix() -> Seq<char> {
    "usr/include"@
}

/// The token opens with the include-path marker.
pub open spec fn is_include_token(t: Seq<char>) -> bool {
    seq_starts_with(t, "-I"@)
}

/// The include path names the problematic system-header directory: it lies
/// under the macOS SDK prefix and ends with the system-header segments.
pub open spec fn is_sdk_include(p: Seq<char>) -> bool {
    path_starts_with_dir(p, sdk_prefix()) && path_ends_with_dir(p, sdk_suffix())
}

/// The include directories one compiler-flags token contributes.
pub open spec fn token_includes(t: Seq<char>) -> Seq<Seq<char>> {
    if is_include_token(t) && !is_sdk_include(t.skip(2)) {
        seq![t.skip(2)]
    } else {
        Seq::empty()
    }
}

/// The extra compiler flags one compiler-flags token contributes: for a
/// rewritten system-header include, the sysroot flag and then its value, the
/// include path's grandparent.
pub open spec fn token_extra_cflags(t: Seq<char>) -> Seq<Seq<char>> {
    if is_include_token(t) && is_sdk_include(t.skip(2)) {
        seq!["-isysroot"@, parent_of(parent_of(t.skip(2)))]
    } else {
        Seq::empty()
    }
}

/// All include directories a compiler-flags token list contributes, in
/// first-seen order, duplicates retained.
pub open spec fn cflags_includes(ts: Seq<Seq<char>>) -> Seq<Seq<char>>
    decreases ts.len(),
{
    if ts.len() == 0 {
        Seq::empty()
    } else {
        cflags_includes(ts.drop_last()) + token_includes(ts.last())
    }
}

/// All extra compiler flags a compiler-flags token list contributes, in
/// order, flag and value adjacent.
pub open spec fn cflags_extra(ts: Seq<Seq<char>>) -> Seq<Seq<char>>
    decreases ts.len(),
{
    if ts.len() == 0 {
        Seq::empty()
    } else {
        cflags_extra(ts.drop_last()) + token_extra_cflags(ts.last())
    }
}

/// Every include-path token outside the SDK rewrite puts its path in the
/// include list verbatim, order preserved and duplicates retained; no other
/// token contributes to that list.
pub proof fn lemma_includes_are_plain_include_tokens(ts: Seq<Seq<char>>)
    ensures
        cflags_includes(ts) == ts.filter(
            |t: Seq<char>| is_include_token(t) && !is_sdk_include(t.skip(2)),
        ).map_values(|t: Seq<char>| t.skip(2)),
    decreases ts.len(),
{
    reveal(Seq::filter);
    let pred = |t: Seq<char>| is_include_token(t) && !is_sdk_include(t.skip(2));
    let strip = |t: Seq<char>| t.skip(2);
    if ts.len() == 0 {
        assert(ts.filter(pred) =~= Seq::<Seq<char>>::empty());
        assert(cflags_includes(ts) =~= ts.filter(pred).map_values(strip));
    } else {
        lemma_includes_are_plain_include_tokens(ts.drop_last());
        assert(cflags_includes(ts) =~= ts.filter(pred).map_values(strip));
    }
}

/// An include-path token under the SDK rewrite contributes exactly two extra
/// compiler flag tokens — the sysroot flag, then the include path's
/// grandparent — and nothing to the include list.
pub proof fn lemma_sdk_include_rewrite(t: Seq<char>)
    requires
        is_include_token(t),
        is_sdk_include(t.skip(2)),
    ensures
        token_extra_cflags(t) == seq!["-isysroot"@, parent_of(parent_of(t.skip(2)))],
        token_includes(t) == Seq::<Seq<char>>::empty(),
{
}

/// Turn already-split compiler-flags tokens into include directories and
/// extra compiler flags.
pub fn parse_cflags_tokens(tokens: &Vec<String>) -> (r: (Vec<String>, Vec<String>))
    ensures
        r.0.deep_view() == cflags_includes(tokens.deep_view()),
        r.1.deep_view() == cflags_extra(tokens.deep_view()),
{
    let ghost ts = tokens.deep_view();
    let mut includes: Vec<String> = Vec::new();
    let mut extra: Vec<String> = Vec::new();
    let mut i: usize = 0;
    while i < tokens.len()
        invariant
            i <= tokens.len(),
            ts == tokens.deep_view(),
            includes.deep_view() == cflags_includes(ts.take(i as int)),
            extra.deep_view() == cflags_extra(ts.take(i as int)),
        decreases tokens.len() - i,
    {
        let t = &tokens[i];
        proof {
            assert(ts[i as int] == t@);
            assert(ts.take(i as int + 1).drop_last() =~= ts.take(i as int));
            assert(ts.take(i as int + 1).last() == ts[i as int]);
        }
        if str_starts_with(t.as_str(), "-I") {
            proof {
                reveal_strlit("-I");
            }
            let rest = str_suffix_from(t.as_str(), 2);
            if path_under_dir(rest.as_str(), "/Library/Developer/CommandLineTools/SDKs")
                && path_ends_with_segments(rest.as_str(), "usr/include") {
                extra.push(String::from_str("-isysroot"));
                extra.push(path_parent(path_parent(rest.as_str()).as_str()));
            } else {
                includes.push(rest);
            }
        }
        proof {
            assert(includes.deep_view() =~= cflags_includes(ts.take(i as int + 1)));
            assert(extra.deep_view() =~= cflags_extra(ts.take(i as int + 1)));
        }
        i += 1;
    }
    proof {
        assert(ts.take(tokens.len() as int) =~= ts);
    }
    (includes, extra)
}

/// Parse the main library's compiler-flags text: split it on whitespace, then
/// collect include directories and extra compiler flags, rewriting the
/// problematic macOS system-header include into a sysroot flag.
pub fn parse_cflags_output(output: &str) -> (r: (Vec<String>, Vec<String>))
    ensures
        r.0.deep_view() == cflags_includes(split_ws(output@)),
        r.1.deep_view() == cflags_extra(split_ws(output@)),
{
    let tokens = whitespace_split(output);
    parse_cflags_tokens(&tokens)
}

} // verus!
