//! Parsing of the main library's linker-flags output.
//!
//! The text is shell-tokenized (the package description quotes some entries),
//! then each token is classified: `-L` records a library search directory,
//! `-l` links a named library at once, any other flag is ignored, and a bare
//! token is read as a path to a library file — if its file stem carries the
//! `lib` prefix, its parent directory is added to the search path and the
//! stripped stem is linked.

use vstd::prelude::*;

use crate::chars::{seq_starts_with, str_starts_with, str_suffix_from};
use crate::directives::{lib_v, search_v, Directive, DirectiveV};
use crate::pathmodel::{file_name_of, file_stem, parent_of, path_file_name, path_parent, stem_of};

verus! {

/// What the POSIX-shell tokenizer yields on a given text; the token list is
/// a function of the text alone.
pub uninterp spec fn shell_tokens(s: Seq<char>) -> Seq<Seq<char>>;

/// Relies on shlex::Shlex: splits a text into words using POSIX shell
/// quoting rules, a pure function of the input text.
#[verifier::external_body]
fn shell_split(s: &str) -> (r: Vec<String>)
    ensures
        r.deep_view() == shell_tokens(s@),
{
    shlex::Shlex::new(s).collect()
}

/// The token opens with the flag marker.
pub open spec fn is_flag_token(t: Seq<char>) -> bool {
    seq_starts_with(t, "-"@)
}

/// The token opens with the search-directory marker.
pub open spec fn is_search_dir_token(t: Seq<char>) -> bool {
    seq_starts_with(t, "-L"@)
}

/// The token opens with the link-name marker (and is not a search-directory
/// token, which is tested first).
pub open spec fn is_link_name_token(t: Seq<char>) -> bool {
    !is_search_dir_token(t) && seq_starts_with(t, "-l"@)
}

/// The token is a bare path whose file stem carries the platform library
/// prefix.
pub open spec fn is_bare_lib_token(t: Seq<char>) -> bool {
    &&& !is_flag_token(t)
    &&& file_name_of(t).len() > 0
    &&& seq_starts_with(stem_of(file_name_of(t)), "lib"@)
}

/// The directives one linker-flags token gives rise to, in emission order.
pub open spec fn token_directives(t: Seq<char>) -> Seq<DirectiveV> {
    if is_flag_token(t) {
        if is_search_dir_token(t) {
            Seq::empty()
        } else if is_link_name_token(t) {
            seq![lib_v(t.skip(2))]
        } else {
            Seq::empty()
        }
    } else if is_bare_lib_token(t) {
        seq![search_v(parent_of(t)), lib_v(stem_of(file_name_of(t)).skip(3))]
    } else {
        Seq::empty()
    }
}

/// The library search directories one linker-flags token records.
pub open spec fn token_lib_dirs(t: Seq<char>) -> Seq<Seq<char>> {
    if is_flag_token(t) && is_search_dir_token(t) {
        seq![t.skip(2)]
    } else {
        Seq::empty()
    }
}

/// All directives a linker-flags token list gives rise to, in order.
pub open spec fn libs_directives(ts: Seq<Seq<char>>) -> Seq<DirectiveV>
    decreases ts.len(),
{
    if ts.len() == 0 {
        Seq::empty()
    } else {
        libs_directives(ts.drop_last()) + token_directives(ts.last())
    }
}

/// All library search directories a linker-flags token list records, in order.
pub open spec fn libs_lib_dirs(ts: Seq<Seq<char>>) -> Seq<Seq<char>>
    decreases ts.len(),
{
    if ts.len() == 0 {
        Seq::empty()
    } else {
        libs_lib_dirs(ts.drop_last()) + token_lib_dirs(ts.last())
    }
}

/// A search-directory token opens with the flag marker too.
pub proof fn lemma_search_dir_is_flag(t: Seq<char>)
    ensures
        is_search_dir_token(t) ==> is_flag_token(t),
{
    reveal_strlit("-");
    reveal_strlit("-L");
    if is_search_dir_token(t) {
        assert(t.subrange(0, 1) =~= "-"@);
    }
}

/// Every search-directory token records exactly one library search directory
/// — the token with its marker stripped — and the recorded list keeps the
/// tokens' order; no other token records one.
pub proof fn lemma_lib_dirs_are_search_tokens(ts: Seq<Seq<char>>)
    ensures
        libs_lib_dirs(ts) == ts.filter(|t: Seq<char>| is_search_dir_token(t)).map_values(
            |t: Seq<char>| t.skip(2),
        ),
    decreases ts.len(),
{
    reveal(Seq::filter);
    let pred = |t: Seq<char>| is_search_dir_token(t);
    let strip = |t: Seq<char>| t.skip(2);
    if ts.len() == 0 {
        assert(ts.filter(pred) =~= Seq::<Seq<char>>::empty());
        assert(libs_lib_dirs(ts) =~= ts.filter(pred).map_values(strip));
    } else {
        lemma_lib_dirs_are_search_tokens(ts.drop_last());
        lemma_search_dir_is_flag(ts.last());
        assert(ts.filter(pred) == if pred(ts.last()) {
            ts.drop_last().filter(pred).push(ts.last())
        } else {
            ts.drop_last().filter(pred)
        });
        assert(libs_lib_dirs(ts) =~= ts.filter(pred).map_values(strip));
    }
}

/// A bare path token whose file stem carries the library prefix yields
/// exactly one search-directory directive for its parent and exactly one
/// link-library directive for the stripped stem, in that order; any other
/// bare token yields nothing.
pub proof fn lemma_bare_token_directives(t: Seq<char>)
    requires
        !is_flag_token(t),
    ensures
        is_bare_lib_token(t) ==> token_directives(t) == seq![
            search_v(parent_of(t)),
            lib_v(stem_of(file_name_of(t)).skip(3)),
        ],
        !is_bare_lib_token(t) ==> token_directives(t) == Seq::<DirectiveV>::empty(),
{
}

/// The directive stream is exactly the per-token directives, token by token,
/// in token order.
pub proof fn lemma_libs_directives_per_token(ts: Seq<Seq<char>>)
    ensures
        libs_directives(ts) == ts.map_values(|t: Seq<char>| token_directives(t)).flatten(),
    decreases ts.len(),
{
    let f = |t: Seq<char>| token_directives(t);
    let m = ts.map_values(f);
    m.lemma_flatten_and_flatten_alt_are_equivalent();
    if ts.len() == 0 {
        assert(m =~= Seq::<Seq<DirectiveV>>::empty());
        assert(libs_directives(ts) =~= m.flatten());
    } else {
        lemma_libs_directives_per_token(ts.drop_last());
        assert(ts.drop_last().map_values(f) =~= m.drop_last());
        m.drop_last().lemma_flatten_and_flatten_alt_are_equivalent();
        assert(m.flatten_alt() == m.drop_last().flatten_alt() + m.last());
        assert(libs_directives(ts) =~= m.flatten());
    }
}

/// Turn an already-tokenized linker-flags output into its directives and its
/// recorded library search directories.
pub fn parse_libs_tokens(tokens: &Vec<String>) -> (r: (Vec<Directive>, Vec<String>))
    ensures
        r.0.deep_view() == libs_directives(tokens.deep_view()),
        r.1.deep_view() == libs_lib_dirs(tokens.deep_view()),
{
    let ghost ts = tokens.deep_view();
    let mut dirs: Vec<Directive> = Vec::new();
    let mut lib_dirs: Vec<String> = Vec::new();
    let mut i: usize = 0;
    while i < tokens.len()
        invariant
            i <= tokens.len(),
            ts == tokens.deep_view(),
            dirs.deep_view() == libs_directives(ts.take(i as int)),
            lib_dirs.deep_view() == libs_lib_dirs(ts.take(i as int)),
        decreases tokens.len() - i,
    {
        let t = &tokens[i];
        proof {
            assert(ts[i as int] == t@);
            assert(ts.take(i as int + 1).drop_last() =~= ts.take(i as int));
            assert(ts.take(i as int + 1).last() == ts[i as int]);
        }
        if str_starts_with(t.as_str(), "-") {
            if str_starts_with(t.as_str(), "-L") {
                proof {
                    reveal_strlit("-L");
                }
                lib_dirs.push(str_suffix_from(t.as_str(), 2));
            } else if str_starts_with(t.as_str(), "-l") {
                proof {
                    reveal_strlit("-l");
                }
                dirs.push(Directive::lib(str_suffix_from(t.as_str(), 2)));
            }
        } else {
            let name = path_file_name(t.as_str());
            if name.unicode_len() > 0 {
                let stem = file_stem(name.as_str());
                if str_starts_with(stem.as_str(), "lib") {
                    proof {
                        reveal_strlit("lib");
                    }
                    dirs.push(Directive::search(path_parent(t.as_str())));
                    dirs.push(Directive::lib(str_suffix_from(stem.as_str(), 3)));
                }
            }
        }
        proof {
            assert(dirs.deep_view() =~= libs_directives(ts.take(i as int + 1)));
            assert(lib_dirs.deep_view() =~= libs_lib_dirs(ts.take(i as int + 1)));
        }
        i += 1;
    }
    proof {
        assert(ts.take(tokens.len() as int) =~= ts);
    }
    (dirs, lib_dirs)
}

/// Parse the main library's linker-flags text: shell-tokenize it, then turn
/// the tokens into directives and recorded search directories.
pub fn parse_libs_output(output: &str) -> (r: (Vec<Directive>, Vec<String>))
    ensures
        r.0.deep_view() == libs_directives(shell_tokens(output@)),
        r.1.deep_view() == libs_lib_dirs(shell_tokens(output@)),
{
    let tokens = shell_split(output);
    parse_libs_tokens(&tokens)
}

} // verus!
