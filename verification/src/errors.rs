//! The ways discovery can fail, and resolution of the two auxiliary
//! dependencies that the main package description omits.
//!
//! Every failure is terminal: discovery aborts at the failing stage and the
//! caller receives a single error tagged with that stage.

use vstd::prelude::*;

verus! {

#[verifier::external_type_specification]
#[verifier::external_body]
pub struct ExPkgConfigError(pkg_config::Error);

#[verifier::external_type_specification]
#[verifier::external_body]
pub struct ExIoError(std::io::Error);

/// Why discovery failed.
pub enum FollyError {
    /// The `fmt` auxiliary dependency could not be resolved.
    FmtDependency(pkg_config::Error),
    /// The `gflags` auxiliary dependency could not be resolved.
    GflagsDependency(pkg_config::Error),
    /// The query subprocess for the main package could not be launched.
    MainPackage(std::io::Error),
    /// Neither filename variant of `boost_context` was found in any recorded
    /// search directory.
    BoostContext,
}

impl FollyError {
    /// The description of this error.
    pub open spec fn spec_message(&self) -> Seq<char> {
        match self {
            FollyError::FmtDependency(_) => "`fmt` dependency couldn't be located"@,
            FollyError::GflagsDependency(_) => "`gflags` dependency couldn't be located"@,
            FollyError::MainPackage(_) => "main `folly` package couldn't be located"@,
            FollyError::BoostContext => "could not find `boost_context`; make sure either `libboost_context.a` or `libboost_context-mt.a` is located in the same directory as Folly"@,
        }
    }

    /// A description of the error, for the caller to print.
    pub fn message(&self) -> (r: String)
        ensures
            r@ == self.spec_message(),
    {
        match self {
            FollyError::FmtDependency(_) => String::from_str(
                "`fmt` dependency couldn't be located",
            ),
            FollyError::GflagsDependency(_) => String::from_str(
                "`gflags` dependency couldn't be located",
            ),
            FollyError::MainPackage(_) => String::from_str(
                "main `folly` package couldn't be located",
            ),
            FollyError::BoostContext => String::from_str(
                "could not find `boost_context`; make sure either `libboost_context.a` or `libboost_context-mt.a` is located in the same directory as Folly",
            ),
        }
    }
}

/// Relies on pkg_config::Config::probe with static linkage requested: it runs
/// the system query tool for the named dependency and, on success, emits that
/// tool's linker directives itself. The outcome depends on the host, so
/// nothing is promised of it.
#[verifier::external_body]
fn probe_static(name: &str) -> Result<(), pkg_config::Error> {
    match pkg_config::Config::new().statik(true).probe(name) {
        Ok(_) => Ok(()),
        Err(e) => Err(e),
    }
}

/// Resolve the two auxiliary dependencies the main package description
/// omits, in static-link mode; the query mechanism emits their linker
/// directives itself when it succeeds. Any failure is fatal and is tagged
/// with the dependency that failed.
pub fn probe_aux_deps() -> (r: Result<(), FollyError>)
    ensures
        r matches Err(e) ==> (e is FmtDependency || e is GflagsDependency),
{
    match probe_static("fmt") {
        Ok(_) => (),
        Err(e) => {
            return Err(FollyError::FmtDependency(e));
        },
    }
    match probe_static("gflags") {
        Ok(_) => (),
        Err(e) => {
            return Err(FollyError::GflagsDependency(e));
        },
    }
    Ok(())
}

} // verus!
