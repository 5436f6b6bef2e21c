use vstd::prelude::*;

verus! {

/// An abstract capability request made by a build step.
///
/// Features carry no payload; they are pure keys into the distribution
/// registry of `crate::registry`.
#[derive(Clone, Copy, PartialEq, Eq, Structural, Debug)]
pub enum Package {
    BuildEssential,
    Python2,
    Python2Dev,
    Python3,
    Python3Dev,
    PipPy2,
    PipPy3,
    NodeJs,
    NodeJsDev,
    Npm,
    Git,
    Mercurial,
}

} // verus!
