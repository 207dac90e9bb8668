//! Locating the platform-variant dependency.
//!
//! The package description omits a link flag for `boost_context`, and the
//! installed filename varies by platform: `libboost_context.a` on some
//! systems, `libboost_context-mt.a` on others. Discovery walks the recorded
//! library search directories in order, emits a search-directory directive
//! for each, and — until a match is found — checks the two candidate
//! filenames in fixed preference order, linking the first variant found.

use std::path::Path;

use vstd::prelude::*;

use crate::directives::{lib_v, search_v, Directive, DirectiveV};

verus! {

/// Which of the two candidate filenames a directory holds.
#[derive(Clone, Copy, PartialEq, Eq, Structural, Debug)]
pub struct DirProbe {
    /// `libboost_context.a` is present.
    pub has_plain: bool,
    /// `libboost_context-mt.a` is present.
    pub has_mt: bool,
}

/// The two naming variants of the dependency, in preference order.
#[derive(Clone, Copy, PartialEq, Eq, Structural, Debug)]
pub enum BoostVariant {
    /// `boost_context`, checked first.
    Plain,
    /// `boost_context-mt`, checked second.
    Mt,
}

/// The library name a variant is linked under.
pub open spec fn variant_name(v: BoostVariant) -> Seq<char> {
    match v {
        BoostVariant::Plain => "boost_context"@,
        BoostVariant::Mt => "boost_context-mt"@,
    }
}

/// The variant one directory yields, preferring the first-named variant.
pub open spec fn pick_variant(p: DirProbe) -> Option<BoostVariant> {
    if p.has_plain {
        Some(BoostVariant::Plain)
    } else if p.has_mt {
        Some(BoostVariant::Mt)
    } else {
        None
    }
}

/// The first directory from position `i` on that yields a variant, with that
/// variant; `None` when no directory does.
pub open spec fn first_hit_from(probes: Seq<DirProbe>, i: int) -> Option<(int, BoostVariant)>
    decreases probes.len() - i,
{
    if i < 0 || i >= probes.len() {
        None
    } else {
        match pick_variant(probes[i]) {
            Some(v) => Some((i, v)),
            None => first_hit_from(probes, i + 1),
        }
    }
}

/// The first directory that yields a variant, with that variant.
pub open spec fn first_hit(probes: Seq<DirProbe>) -> Option<(int, BoostVariant)> {
    first_hit_from(probes, 0)
}

/// The directives the variant search emits over the recorded directories
/// `dirs`: one search directive per directory, in recording order, with a
/// link directive for the selected variant right after the directory that
/// yielded it.
pub open spec fn boost_directives(
    dirs: Seq<Seq<char>>,
    sel: Option<(int, BoostVariant)>,
) -> Seq<DirectiveV>
    decreases dirs.len(),
{
    if dirs.len() == 0 {
        Seq::empty()
    } else {
        boost_directives(dirs.drop_last(), sel) + seq![search_v(dirs.last())] + (match sel {
            Some((i, v)) => {
                if i == dirs.len() - 1 {
                    seq![lib_v(variant_name(v))]
                } else {
                    Seq::empty()
                }
            },
            None => Seq::empty(),
        })
    }
}

/// The variant search checks directories in the exact order they were
/// recorded: a hit at `i` means every earlier directory yielded nothing, and
/// within directory `i` the first-named variant is preferred over the second;
/// no hit means no directory held either filename.
pub proof fn lemma_first_hit_order(probes: Seq<DirProbe>)
    ensures
        match first_hit(probes) {
            Some((i, v)) => {
                &&& 0 <= i < probes.len()
                &&& pick_variant(probes[i]) == Some(v)
                &&& forall|j: int| 0 <= j < i ==> pick_variant(probes[j]) is None
                &&& (probes[i].has_plain ==> v == BoostVariant::Plain)
                &&& (v == BoostVariant::Mt ==> !probes[i].has_plain && probes[i].has_mt)
            },
            None => forall|j: int|
                0 <= j < probes.len() ==> !probes[j].has_plain && !probes[j].has_mt,
        },
{
    lemma_first_hit_from_order(probes, 0);
}

proof fn lemma_first_hit_from_order(probes: Seq<DirProbe>, i: int)
    requires
        0 <= i <= probes.len(),
    ensures
        match first_hit_from(probes, i) {
            Some((k, v)) => {
                &&& i <= k < probes.len()
                &&& pick_variant(probes[k]) == Some(v)
                &&& forall|j: int| i <= j < k ==> pick_variant(probes[j]) is None
                &&& (probes[k].has_plain ==> v == BoostVariant::Plain)
                &&& (v == BoostVariant::Mt ==> !probes[k].has_plain && probes[k].has_mt)
            },
            None => forall|j: int|
                i <= j < probes.len() ==> !probes[j].has_plain && !probes[j].has_mt,
        },
    decreases probes.len() - i,
{
    if i < probes.len() && pick_variant(probes[i]) is None {
        lemma_first_hit_from_order(probes, i + 1);
    }
}

/// The variant search never fails while some recorded directory holds one of
/// the two filenames: it comes up empty exactly when none does.
pub proof fn lemma_variant_not_found(probes: Seq<DirProbe>)
    ensures
        first_hit(probes) is None <==> (forall|j: int|
            0 <= j < probes.len() ==> !probes[j].has_plain && !probes[j].has_mt),
{
    lemma_first_hit_order(probes);
}

/// With no selection past the directories' end, the search emits exactly one
/// search directive per directory, in recording order, and nothing else.
pub proof fn lemma_boost_all_search(dirs: Seq<Seq<char>>, sel: Option<(int, BoostVariant)>)
    requires
        match sel {
            Some((i, _)) => i >= dirs.len(),
            None => true,
        },
    ensures
        boost_directives(dirs, sel) == dirs.map_values(|d: Seq<char>| search_v(d)),
    decreases dirs.len(),
{
    if dirs.len() > 0 {
        lemma_boost_all_search(dirs.drop_last(), sel);
        assert(boost_directives(dirs, sel) =~= dirs.map_values(|d: Seq<char>| search_v(d)));
    } else {
        assert(boost_directives(dirs, sel) =~= dirs.map_values(|d: Seq<char>| search_v(d)));
    }
}

/// When directory `i` yields variant `v`, the emitted stream is: one search
/// directive per directory up to and including `i`, then — immediately after
/// the directory that yielded it — the link directive for `v`, then one
/// search directive per remaining directory. In particular the search
/// directive for the directory the variant lives in stands before its link
/// directive.
pub proof fn lemma_boost_link_placement(dirs: Seq<Seq<char>>, i: int, v: BoostVariant)
    requires
        0 <= i < dirs.len(),
    ensures
        boost_directives(dirs, Some((i, v))) == dirs.take(i + 1).map_values(
            |d: Seq<char>| search_v(d),
        ) + seq![lib_v(variant_name(v))] + dirs.skip(i + 1).map_values(
            |d: Seq<char>| search_v(d),
        ),
    decreases dirs.len(),
{
    let f = |d: Seq<char>| search_v(d);
    if i == dirs.len() - 1 {
        lemma_boost_all_search(dirs.drop_last(), Some((i, v)));
        assert(dirs.take(i + 1) =~= dirs);
        assert(boost_directives(dirs, Some((i, v))) =~= dirs.take(i + 1).map_values(f) + seq![
            lib_v(variant_name(v)),
        ] + dirs.skip(i + 1).map_values(f));
    } else {
        lemma_boost_link_placement(dirs.drop_last(), i, v);
        assert(dirs.drop_last().take(i + 1) =~= dirs.take(i + 1));
        assert(dirs.drop_last().skip(i + 1) =~= dirs.skip(i + 1).drop_last());
        assert(boost_directives(dirs, Some((i, v))) =~= dirs.take(i + 1).map_values(f) + seq![
            lib_v(variant_name(v)),
        ] + dirs.skip(i + 1).map_values(f));
    }
}

/// Whatever was selected, the emitted stream's search directives are exactly
/// the recorded directories, each once, in recording order.
pub proof fn lemma_boost_searches(dirs: Seq<Seq<char>>, sel: Option<(int, BoostVariant)>)
    ensures
        boost_directives(dirs, sel).filter(|d: DirectiveV| d.kind is LinkSearch).map_values(
            |d: DirectiveV| d.text,
        ) == dirs,
    decreases dirs.len(),
{
    reveal(Seq::filter);
    let pred = |d: DirectiveV| d.kind is LinkSearch;
    let f = |d: DirectiveV| d.text;
    if dirs.len() == 0 {
        assert(boost_directives(dirs, sel).filter(pred).map_values(f) =~= dirs);
    } else {
        lemma_boost_searches(dirs.drop_last(), sel);
        let pre = boost_directives(dirs.drop_last(), sel);
        let mid = seq![search_v(dirs.last())];
        let tail: Seq<DirectiveV> = match sel {
            Some((i, v)) => {
                if i == dirs.len() - 1 {
                    seq![lib_v(variant_name(v))]
                } else {
                    Seq::empty()
                }
            },
            None => Seq::empty(),
        };
        assert(boost_directives(dirs, sel) == pre + mid + tail);
        Seq::filter_distributes_over_add(pre + mid, tail, pred);
        Seq::filter_distributes_over_add(pre, mid, pred);
        assert(mid.drop_last() =~= Seq::<DirectiveV>::empty());
        assert(mid.filter(pred) =~= mid);
        if tail.len() > 0 {
            assert(tail.drop_last() =~= Seq::<DirectiveV>::empty());
        }
        assert(tail.filter(pred) =~= Seq::<DirectiveV>::empty());
        assert(boost_directives(dirs, sel).filter(pred) =~= pre.filter(pred) + mid);
        assert(boost_directives(dirs, sel).filter(pred).map_values(f) =~= pre.filter(pred)
            .map_values(f) + mid.map_values(f));
        assert(pre.filter(pred).map_values(f) + mid.map_values(f) =~= dirs);
    }
}

/// A run of search directives holds no link directive.
proof fn lemma_search_map_filter(ds: Seq<Seq<char>>)
    ensures
        ds.map_values(|d: Seq<char>| search_v(d)).filter(|d: DirectiveV| d.kind is LinkLib)
            == Seq::<DirectiveV>::empty(),
    decreases ds.len(),
{
    reveal(Seq::filter);
    let g = |d: Seq<char>| search_v(d);
    let pred = |d: DirectiveV| d.kind is LinkLib;
    let m = ds.map_values(g);
    if ds.len() == 0 {
        assert(m.filter(pred) =~= Seq::<DirectiveV>::empty());
    } else {
        lemma_search_map_filter(ds.drop_last());
        assert(m.drop_last() =~= ds.drop_last().map_values(g));
        assert(m.last() == search_v(ds.last()));
        assert(m.filter(pred) =~= Seq::<DirectiveV>::empty());
    }
}

/// Whatever was selected, the emitted stream links exactly the selected
/// variant — and nothing when none was selected.
pub proof fn lemma_boost_libs(dirs: Seq<Seq<char>>, sel: Option<(int, BoostVariant)>)
    requires
        match sel {
            Some((i, _)) => 0 <= i < dirs.len(),
            None => true,
        },
    ensures
        boost_directives(dirs, sel).filter(|d: DirectiveV| d.kind is LinkLib).map_values(
            |d: DirectiveV| d.text,
        ) == (match sel {
            Some((_, v)) => seq![variant_name(v)],
            None => Seq::<Seq<char>>::empty(),
        }),
{
    reveal(Seq::filter);
    let pred = |d: DirectiveV| d.kind is LinkLib;
    let f = |d: DirectiveV| d.text;
    let g = |d: Seq<char>| search_v(d);
    match sel {
        Some((i, v)) => {
            lemma_boost_link_placement(dirs, i, v);
            let a = dirs.take(i + 1).map_values(g);
            let l = seq![lib_v(variant_name(v))];
            let b = dirs.skip(i + 1).map_values(g);
            Seq::filter_distributes_over_add(a + l, b, pred);
            Seq::filter_distributes_over_add(a, l, pred);
            lemma_search_map_filter(dirs.take(i + 1));
            lemma_search_map_filter(dirs.skip(i + 1));
            assert(l.drop_last() =~= Seq::<DirectiveV>::empty());
            assert(l.filter(pred) =~= l);
            assert(boost_directives(dirs, sel).filter(pred) =~= l);
            assert(l.map_values(f) =~= seq![variant_name(v)]);
        },
        None => {
            lemma_boost_libs_none_selected(dirs, sel);
            assert(boost_directives(dirs, sel).filter(pred).map_values(f) =~= Seq::<
                Seq<char>,
            >::empty());
        },
    }
}

/// A selection at or past the directories' end links nothing.
proof fn lemma_boost_libs_none_selected(dirs: Seq<Seq<char>>, sel: Option<(int, BoostVariant)>)
    requires
        match sel {
            Some((i, _)) => i >= dirs.len(),
            None => true,
        },
    ensures
        boost_directives(dirs, sel).filter(|d: DirectiveV| d.kind is LinkLib) == Seq::<
            DirectiveV,
        >::empty(),
    decreases dirs.len(),
{
    reveal(Seq::filter);
    let pred = |d: DirectiveV| d.kind is LinkLib;
    if dirs.len() == 0 {
        assert(boost_directives(dirs, sel).filter(pred) =~= Seq::<DirectiveV>::empty());
    } else {
        lemma_boost_libs_none_selected(dirs.drop_last(), sel);
        let pre = boost_directives(dirs.drop_last(), sel);
        assert(boost_directives(dirs, sel) =~= pre + seq![search_v(dirs.last())]);
        Seq::filter_distributes_over_add(pre, seq![search_v(dirs.last())], pred);
        assert(seq![search_v(dirs.last())].drop_last() =~= Seq::<DirectiveV>::empty());
        assert(seq![search_v(dirs.last())].filter(pred) =~= Seq::<DirectiveV>::empty());
        assert(boost_directives(dirs, sel).filter(pred) =~= Seq::<DirectiveV>::empty());
    }
}

/// The name a variant is linked under.
pub fn boost_variant_name(v: BoostVariant) -> (r: String)
    ensures
        r@ == variant_name(v),
{
    match v {
        BoostVariant::Plain => String::from_str("boost_context"),
        BoostVariant::Mt => String::from_str("boost_context-mt"),
    }
}

/// The first directory whose probe yields a variant, in recording order,
/// preferring the first-named variant within each directory.
pub fn select_boost_context(probes: &Vec<DirProbe>) -> (r: Option<(usize, BoostVariant)>)
    ensures
        match r {
            Some((i, v)) => first_hit(probes@) == Some((i as int, v)),
            None => first_hit(probes@) is None,
        },
{
    let mut i: usize = 0;
    while i < probes.len()
        invariant
            i <= probes.len(),
            first_hit(probes@) == first_hit_from(probes@, i as int),
        decreases probes.len() - i,
    {
        let p = probes[i];
        if p.has_plain {
            return Some((i, BoostVariant::Plain));
        }
        if p.has_mt {
            return Some((i, BoostVariant::Mt));
        }
        i += 1;
    }
    None
}

/// Relies on std::path::Path::exists: whether the exact path names an
/// existing filesystem entry. The answer depends on the host's disk, so
/// nothing is promised of it.
#[verifier::external_body]
fn path_exists(p: &str) -> bool {
    Path::new(p).exists()
}

/// The candidate path `dir/file`.
fn join_file(dir: &str, file: &str) -> (r: String)
    ensures
        r@ == dir@ + "/"@ + file@,
{
    let mut r = String::from_str(dir);
    r.append("/");
    r.append(file);
    r
}

/// Probe one directory for the two candidate filenames, in preference order;
/// the second is only consulted when the first is absent.
fn probe_dir(dir: &str) -> (r: DirProbe)
    ensures
        r.has_mt ==> !r.has_plain,
{
    let has_plain = path_exists(join_file(dir, "libboost_context.a").as_str());
    let has_mt = if has_plain {
        false
    } else {
        path_exists(join_file(dir, "libboost_context-mt.a").as_str())
    };
    DirProbe { has_plain, has_mt }
}

/// The directives and outcome the variant search produces over directories
/// `dirs` and probe results `probes`.
pub open spec fn boost_outcome_ok(
    dirs: Seq<Seq<char>>,
    probes: Seq<DirProbe>,
    emitted: Seq<DirectiveV>,
    found: Option<BoostVariant>,
) -> bool {
    &&& probes.len() == dirs.len()
    &&& emitted == boost_directives(dirs, first_hit(probes))
    &&& (match (found, first_hit(probes)) {
        (Some(v), Some((_, sv))) => v == sv,
        (None, None) => true,
        _ => false,
    })
}

/// Lay out the variant search's directives for recorded directories and
/// their probe results: every directory is emitted as a search directive
/// exactly once, in order, and the selected variant — the first hit, in
/// recording order, preferring the first-named variant — is linked right
/// after the directory that yielded it.
pub fn boost_plan(lib_dirs: &Vec<String>, probes: &Vec<DirProbe>) -> (r: (
    Vec<Directive>,
    Option<BoostVariant>,
))
    requires
        probes@.len() == lib_dirs@.len(),
    ensures
        boost_outcome_ok(lib_dirs.deep_view(), probes@, r.0.deep_view(), r.1),
{
    let ghost ds = lib_dirs.deep_view();
    proof {
        lemma_first_hit_order(probes@);
    }
    let sel = select_boost_context(probes);
    let mut emitted: Vec<Directive> = Vec::new();
    let mut j: usize = 0;
    while j < lib_dirs.len()
        invariant
            j <= lib_dirs.len(),
            ds == lib_dirs.deep_view(),
            probes@.len() == lib_dirs@.len(),
            match sel {
                Some((i, v)) => first_hit(probes@) == Some((i as int, v)) && i < lib_dirs@.len(),
                None => first_hit(probes@) is None,
            },
            emitted.deep_view() == boost_directives(ds.take(j as int), first_hit(probes@)),
        decreases lib_dirs.len() - j,
    {
        proof {
            assert(ds[j as int] == lib_dirs@[j as int]@);
            assert(ds.take(j as int + 1).drop_last() =~= ds.take(j as int));
            assert(ds.take(j as int + 1).last() == ds[j as int]);
        }
        emitted.push(Directive::search(lib_dirs[j].clone()));
        if let Some((i, v)) = sel {
            if i == j {
                emitted.push(Directive::lib(boost_variant_name(v)));
            }
        }
        proof {
            assert(emitted.deep_view() =~= boost_directives(ds.take(j as int + 1), first_hit(probes@)));
        }
        j += 1;
    }
    proof {
        assert(ds.take(lib_dirs.len() as int) =~= ds);
    }
    let found = match sel {
        Some((_, v)) => Some(v),
        None => None,
    };
    (emitted, found)
}

/// Walk the recorded library search directories: emit each as a search
/// directive, in order, and probe for the variant dependency until it is
/// found, checking `libboost_context.a` before `libboost_context-mt.a` in
/// each directory; directories after a find are no longer probed. Whatever
/// the disk held, the outcome is the planned layout over some probe results.
pub fn find_boost_context(lib_dirs: &Vec<String>) -> (r: (Vec<Directive>, Option<BoostVariant>))
    ensures
        exists|probes: Seq<DirProbe>|
            boost_outcome_ok(lib_dirs.deep_view(), probes, r.0.deep_view(), r.1),
        r.0.deep_view().filter(|d: DirectiveV| d.kind is LinkSearch).map_values(
            |d: DirectiveV| d.text,
        ) == lib_dirs.deep_view(),
        r.0.deep_view().filter(|d: DirectiveV| d.kind is LinkLib).map_values(
            |d: DirectiveV| d.text,
        ) == (match r.1 {
            Some(v) => seq![variant_name(v)],
            None => Seq::<Seq<char>>::empty(),
        }),
{
    let mut probes: Vec<DirProbe> = Vec::new();
    let mut found = false;
    let mut i: usize = 0;
    while i < lib_dirs.len()
        invariant
            i <= lib_dirs.len(),
            probes@.len() == i,
            found == (first_hit(probes@) is Some),
        decreases lib_dirs.len() - i,
    {
        let p = if found {
            DirProbe { has_plain: false, has_mt: false }
        } else {
            probe_dir(lib_dirs[i].as_str())
        };
        if p.has_plain || p.has_mt {
            found = true;
        }
        proof {
            lemma_first_hit_push(probes@, p);
        }
        probes.push(p);
        i += 1;
    }
    let r = boost_plan(lib_dirs, &probes);
    proof {
        assert(boost_outcome_ok(lib_dirs.deep_view(), probes@, r.0.deep_view(), r.1));
        lemma_first_hit_order(probes@);
        lemma_boost_searches(lib_dirs.deep_view(), first_hit(probes@));
        lemma_boost_libs(lib_dirs.deep_view(), first_hit(probes@));
    }
    r
}

/// Appending one probe leaves an existing first hit in place; otherwise the
/// new probe decides.
proof fn lemma_first_hit_push(s: Seq<DirProbe>, p: DirProbe)
    ensures
        first_hit(s.push(p)) == (match first_hit(s) {
            Some(x) => Some(x),
            None => match pick_variant(p) {
                Some(v) => Some((s.len() as int, v)),
                None => None,
            },
        }),
{
    lemma_first_hit_from_push(s, p, 0);
}

proof fn lemma_first_hit_from_push(s: Seq<DirProbe>, p: DirProbe, i: int)
    requires
        0 <= i <= s.len(),
    ensures
        first_hit_from(s.push(p), i) == (match first_hit_from(s, i) {
            Some(x) => Some(x),
            None => match pick_variant(p) {
                Some(v) => Some((s.len() as int, v)),
                None => None,
            },
        }),
    decreases s.len() - i,
{
    assert(s.push(p)[s.len() as int] == p);
    if i < s.len() {
        assert(s.push(p)[i] == s[i]);
        if pick_variant(s[i]) is None {
            lemma_first_hit_from_push(s, p, i + 1);
        }
    }
}

} // verus!
