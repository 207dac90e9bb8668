//! End-to-end discovery scenarios over canned query-mechanism output.

use find_folly::{
    find_boost_context, parse_cflags_output, parse_libs_output, BoostVariant, Directive,
    DirectiveKind, Folly, FollyError,
};

fn search(text: &str) -> Directive {
    Directive { kind: DirectiveKind::LinkSearch, text: text.to_string() }
}

fn lib(text: &str) -> Directive {
    Directive { kind: DirectiveKind::LinkLib, text: text.to_string() }
}

#[test]
fn linker_output_end_to_end() {
    let output = "-L/opt/folly/lib -lfolly -lglog /opt/folly/lib/libdouble-conversion.a";
    let (directives, lib_dirs) = parse_libs_output(output);
    assert_eq!(lib_dirs, vec!["/opt/folly/lib".to_string()]);
    assert_eq!(
        directives,
        vec![
            lib("folly"),
            lib("glog"),
            search("/opt/folly/lib"),
            lib("double-conversion"),
        ]
    );
    let folly_links = directives.iter().filter(|d| *d == &lib("folly")).count();
    let glog_links = directives.iter().filter(|d| *d == &lib("glog")).count();
    let dc_links = directives.iter().filter(|d| *d == &lib("double-conversion")).count();
    assert_eq!((folly_links, glog_links, dc_links), (1, 1, 1));
}

#[test]
fn linker_output_search_dirs_in_order_with_duplicates() {
    let output = "-L/b -lx -L/a -L/b";
    let (_, lib_dirs) = parse_libs_output(output);
    assert_eq!(lib_dirs, vec!["/b".to_string(), "/a".to_string(), "/b".to_string()]);
}

#[test]
fn linker_output_honors_shell_quoting() {
    let output = "-L'/opt/my folly/lib' '/some dir/libfoo.a'";
    let (directives, lib_dirs) = parse_libs_output(output);
    assert_eq!(lib_dirs, vec!["/opt/my folly/lib".to_string()]);
    assert_eq!(directives, vec![search("/some dir"), lib("foo")]);
}

#[test]
fn linker_output_ignores_other_flags_and_foreign_paths() {
    let output = "-pthread -Wl,-z /opt/lib/notalib.a plain";
    let (directives, lib_dirs) = parse_libs_output(output);
    assert!(lib_dirs.is_empty());
    assert!(directives.is_empty());
}

#[test]
fn linker_output_strips_any_extension_from_stem() {
    let output = "x/liby.so";
    let (directives, lib_dirs) = parse_libs_output(output);
    assert!(lib_dirs.is_empty());
    assert_eq!(directives, vec![search("x"), lib("y")]);
}

#[test]
fn compiler_output_end_to_end() {
    let output = "-I/usr/local/include -I/Library/Developer/CommandLineTools/SDKs/MacOSX.sdk/usr/include";
    let (include_paths, other_cflags) = parse_cflags_output(output);
    assert_eq!(include_paths, vec!["/usr/local/include".to_string()]);
    assert_eq!(
        other_cflags,
        vec![
            "-isysroot".to_string(),
            "/Library/Developer/CommandLineTools/SDKs/MacOSX.sdk".to_string(),
        ]
    );
}

#[test]
fn compiler_output_keeps_duplicates_in_order() {
    let output = "-I/a -O2 -I/a \t -I/b\n-DNDEBUG";
    let (include_paths, other_cflags) = parse_cflags_output(output);
    assert_eq!(
        include_paths,
        vec!["/a".to_string(), "/a".to_string(), "/b".to_string()]
    );
    assert!(other_cflags.is_empty());
}

#[test]
fn compiler_output_rewrites_only_exact_sdk_includes() {
    // The suffix has to match whole path segments.
    let (includes, extras) =
        parse_cflags_output("-I/Library/Developer/CommandLineTools/SDKs/MacOSX.sdk/usr/lib");
    assert_eq!(
        includes,
        vec!["/Library/Developer/CommandLineTools/SDKs/MacOSX.sdk/usr/lib".to_string()]
    );
    assert!(extras.is_empty());

    // The prefix has to end at a path-segment boundary.
    let (includes, extras) =
        parse_cflags_output("-I/Library/Developer/CommandLineTools/SDKsX/usr/include");
    assert_eq!(
        includes,
        vec!["/Library/Developer/CommandLineTools/SDKsX/usr/include".to_string()]
    );
    assert!(extras.is_empty());
}

#[test]
fn boost_context_not_found_in_missing_dirs() {
    let dirs = vec![
        "/this/does/not/exist/anywhere-a".to_string(),
        "/this/does/not/exist/anywhere-b".to_string(),
    ];
    let (directives, found) = find_boost_context(&dirs);
    assert!(found.is_none());
    assert_eq!(
        directives,
        vec![search("/this/does/not/exist/anywhere-a"), search("/this/does/not/exist/anywhere-b")]
    );
}

#[test]
fn boost_variant_names() {
    assert!(BoostVariant::Plain != BoostVariant::Mt);
    assert_eq!(
        find_folly::boost::boost_variant_name(BoostVariant::Plain),
        "boost_context".to_string()
    );
    assert_eq!(
        find_folly::boost::boost_variant_name(BoostVariant::Mt),
        "boost_context-mt".to_string()
    );
}

#[test]
fn folly_new_is_empty() {
    let folly = Folly::new();
    assert!(folly.lib_dirs.is_empty());
    assert!(folly.include_paths.is_empty());
    assert!(folly.other_cflags.is_empty());
}

#[test]
fn error_messages() {
    let boost = FollyError::BoostContext;
    assert_eq!(
        boost.message(),
        "could not find `boost_context`; make sure either `libboost_context.a` or \
         `libboost_context-mt.a` is located in the same directory as Folly"
            .to_string()
    );
    // A lookup that cannot succeed on any host gives a pkg-config error to tag.
    let missing = pkg_config::Config::new()
        .statik(true)
        .probe("no-such-package-at-all-xyz")
        .unwrap_err();
    let fmt_err = FollyError::FmtDependency(missing);
    assert_eq!(fmt_err.message(), "`fmt` dependency couldn't be located".to_string());

    let missing = pkg_config::Config::new()
        .statik(true)
        .probe("no-such-package-at-all-xyz")
        .unwrap_err();
    let gflags_err = FollyError::GflagsDependency(missing);
    assert_eq!(gflags_err.message(), "`gflags` dependency couldn't be located".to_string());

    let launch = std::io::Error::new(std::io::ErrorKind::NotFound, "no query tool");
    let main_err = FollyError::MainPackage(launch);
    assert_eq!(main_err.message(), "main `folly` package couldn't be located".to_string());
}
