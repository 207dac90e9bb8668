//! Build-time discovery of the Folly C++ library.
//!
//! Folly ships a package description whose linker and compiler flag output is
//! incomplete and inconsistently encoded across platforms. This crate parses
//! that output, normalizes the problematic entries, and reports the search
//! directories, include directories, and extra compiler flags a build script
//! needs in order to compile and link against Folly.

use vstd::prelude::*;

pub mod boost;
pub mod chars;
pub mod compiler;
pub mod directives;
pub mod errors;
pub mod linker;
pub mod pathmodel;

pub use boost::{find_boost_context, BoostVariant, DirProbe};
pub use compiler::parse_cflags_output;
pub use directives::{Directive, DirectiveKind};
pub use errors::{probe_aux_deps, FollyError};
pub use linker::parse_libs_output;

verus! {

/// Information about the Folly library, gathered by a discovery run.
///
/// `lib_dirs` lists the library search directories in discovery order
/// (duplicates permitted), `include_paths` the include directories in
/// first-seen order, and `other_cflags` extra compiler flag tokens
/// (flag/value pairs stand as adjacent entries).
pub struct Folly {
    pub lib_dirs: Vec<String>,
    pub include_paths: Vec<String>,
    pub other_cflags: Vec<String>,
}

impl Folly {
    /// An empty result, to be filled in as discovery proceeds.
    pub fn new() -> (r: Self)
        ensures
            r.lib_dirs@ =~= Seq::<String>::empty(),
            r.include_paths@ =~= Seq::<String>::empty(),
            r.other_cflags@ =~= Seq::<String>::empty(),
    {
        Self { lib_dirs: Vec::new(), include_paths: Vec::new(), other_cflags: Vec::new() }
    }
}

} // verus!
