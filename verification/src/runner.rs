//! The test-run configuration: which packages to test, against which
//! targets, and which kind of run to perform.

use vstd::prelude::*;

verus! {

/// A crate to test: its package name and the checks to run for it.
#[derive(Clone, Debug)]
pub struct Crate {
    /// Crate name to test.
    pub name: String,
    /// Checks to run.
    pub checks: Vec<Check>,
}

/// One check to run for a crate: how the package must be built and tested.
#[derive(Clone, Debug)]
pub struct Check {
    /// The target triple to test.
    pub target_triple: String,
    /// Host environment to set up.
    pub host_env: Option<String>,
    /// Features to enable.
    pub features: Option<Vec<String>>,
    /// Turn off default features.
    pub no_default_features: bool,
    /// Whether this check should be ignored in the general CI case.
    pub niche: bool,
}

/// Test type to run.
#[derive(Clone, Copy, Debug, PartialEq, Eq, Structural)]
pub enum Test {
    /// Run style tests to make sure everything is properly formatted and
    /// linted.
    Style,
    /// Run functionality tests to make sure unit tests pass.
    Functionality,
    /// Run full tests on the current host machine.
    Host,
}

/// The views of a sequence of strings.
pub open spec fn str_views(s: Seq<String>) -> Seq<Seq<char>> {
    s.map_values(|x: String| x@)
}

/// Mathematical model of a [`Check`].
pub struct CheckModel {
    pub target_triple: Seq<char>,
    pub host_env: Option<Seq<char>>,
    pub features: Option<Seq<Seq<char>>>,
    pub no_default_features: bool,
    pub niche: bool,
}

/// Mathematical model of a [`Crate`].
pub struct CrateModel {
    pub name: Seq<char>,
    pub checks: Seq<CheckModel>,
}

impl View for Check {
    type V = CheckModel;

    open spec fn view(&self) -> CheckModel {
        CheckModel {
            target_triple: self.target_triple@,
            host_env: match self.host_env {
                Option::Some(ref h) => Some(h@),
                Option::None => Option::None,
            },
            features: match self.features {
                Option::Some(ref f) => Some(str_views(f@)),
                Option::None => Option::None,
            },
            no_default_features: self.no_default_features,
            niche: self.niche,
        }
    }
}

impl View for Crate {
    type V = CrateModel;

    open spec fn view(&self) -> CrateModel {
        CrateModel {
            name: self.name@,
            checks: self.checks@.map_values(|c: Check| c@),
        }
    }
}

} // verus!
