//! The tokenizing and path-model helpers, on their own.

use find_folly::chars::{str_ends_with, str_starts_with, str_suffix_from};
use find_folly::compiler::whitespace_split;
use find_folly::errors::probe_aux_deps;
use find_folly::pathmodel::{
    file_stem, find_last, path_ends_with_segments, path_file_name, path_parent, path_under_dir,
};
use find_folly::FollyError;

#[test]
fn whitespace_split_trims_and_splits_runs() {
    assert_eq!(
        whitespace_split("  a\tb\nc  "),
        vec!["a".to_string(), "b".to_string(), "c".to_string()]
    );
    assert_eq!(whitespace_split(""), Vec::<String>::new());
    assert_eq!(whitespace_split(" \r\n\t"), Vec::<String>::new());
    assert_eq!(whitespace_split("one"), vec!["one".to_string()]);
}

#[test]
fn path_parts() {
    assert_eq!(path_parent("/opt/folly/lib/libx.a"), "/opt/folly/lib".to_string());
    assert_eq!(path_parent("liby.a"), "".to_string());
    assert_eq!(path_file_name("/opt/folly/lib/libx.a"), "libx.a".to_string());
    assert_eq!(path_file_name("liby.a"), "liby.a".to_string());
    assert_eq!(file_stem("libfoo.tar.gz"), "libfoo.tar".to_string());
    assert_eq!(file_stem("libfoo"), "libfoo".to_string());
    assert_eq!(file_stem(".hidden"), ".hidden".to_string());
}

#[test]
fn prefix_and_suffix_checks() {
    assert!(str_starts_with("-L/opt", "-L"));
    assert!(!str_starts_with("-l", "-L"));
    assert!(str_ends_with("a/usr/include", "usr/include"));
    assert!(!str_ends_with("usr/includ", "usr/include"));
    assert_eq!(str_suffix_from("-L/opt", 2), "/opt".to_string());
    assert_eq!(find_last("a/b/c", '/'), Some(3));
    assert_eq!(find_last("abc", '/'), None);
}

#[test]
fn segment_boundaries_matter() {
    assert!(path_under_dir("/sdk/root/x", "/sdk/root"));
    assert!(path_under_dir("/sdk/root", "/sdk/root"));
    assert!(!path_under_dir("/sdk/rootx", "/sdk/root"));
    assert!(path_ends_with_segments("/a/usr/include", "usr/include"));
    assert!(path_ends_with_segments("usr/include", "usr/include"));
    assert!(!path_ends_with_segments("/a/xusr/include", "usr/include"));
}

#[test]
fn auxiliary_probe_failures_are_tagged() {
    // Whether the host resolves `fmt` and `gflags` is its own affair; a
    // failure must name one of the two auxiliary dependencies.
    match probe_aux_deps() {
        Ok(()) => {}
        Err(e @ (FollyError::FmtDependency(_) | FollyError::GflagsDependency(_))) => {
            let m = e.message();
            assert!(m == "`fmt` dependency couldn't be located" || m == "`gflags` dependency couldn't be located");
        }
        Err(_) => panic!("auxiliary probe reported a foreign error"),
    }
}
