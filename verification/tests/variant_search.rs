//! The variant-dependency search over explicit probe results.

use find_folly::boost::{boost_plan, select_boost_context};
use find_folly::{BoostVariant, DirProbe, Directive, DirectiveKind};

fn search(text: &str) -> Directive {
    Directive { kind: DirectiveKind::LinkSearch, text: text.to_string() }
}

fn lib(text: &str) -> Directive {
    Directive { kind: DirectiveKind::LinkLib, text: text.to_string() }
}

fn probe(has_plain: bool, has_mt: bool) -> DirProbe {
    DirProbe { has_plain, has_mt }
}

#[test]
fn second_directory_with_mt_variant_only() {
    let dirs = vec!["/first".to_string(), "/second".to_string()];
    let probes = vec![probe(false, false), probe(false, true)];
    assert_eq!(select_boost_context(&probes), Some((1, BoostVariant::Mt)));
    let (directives, found) = boost_plan(&dirs, &probes);
    assert_eq!(found, Some(BoostVariant::Mt));
    assert_eq!(directives, vec![search("/first"), search("/second"), lib("boost_context-mt")]);
}

#[test]
fn neither_variant_anywhere_fails() {
    let dirs = vec!["/first".to_string(), "/second".to_string()];
    let probes = vec![probe(false, false), probe(false, false)];
    assert_eq!(select_boost_context(&probes), None);
    let (directives, found) = boost_plan(&dirs, &probes);
    assert_eq!(found, None);
    assert_eq!(directives, vec![search("/first"), search("/second")]);
}

#[test]
fn plain_variant_is_preferred_within_a_directory() {
    let probes = vec![probe(true, true)];
    assert_eq!(select_boost_context(&probes), Some((0, BoostVariant::Plain)));
}

#[test]
fn directories_are_checked_in_recorded_order() {
    let probes = vec![probe(false, true), probe(true, false)];
    assert_eq!(select_boost_context(&probes), Some((0, BoostVariant::Mt)));
}

#[test]
fn search_directives_cover_later_directories_after_a_find() {
    let dirs = vec!["/a".to_string(), "/b".to_string(), "/c".to_string()];
    let probes = vec![probe(false, false), probe(true, false), probe(false, false)];
    let (directives, found) = boost_plan(&dirs, &probes);
    assert_eq!(found, Some(BoostVariant::Plain));
    assert_eq!(
        directives,
        vec![search("/a"), search("/b"), lib("boost_context"), search("/c")]
    );
}
