use vstd::prelude::*;
use crate::names::NameSet;

verus! {

/// Alpine-specific sub-state of the build context.
///
/// `base_setup` moves from `false` to `true` exactly once, on the first
/// fully successful bootstrap, and never reverts.
#[derive(Debug)]
pub struct AlpineInfo {
    pub version: String,
    pub base_setup: bool,
}

/// The target distribution of the build, a closed set of mutually exclusive
/// shapes.  `Unknown` is rejected up front by every distribution-specific
/// operation.
#[derive(Debug)]
pub enum Distribution {
    Unknown,
    Alpine(AlpineInfo),
}

/// A fatal error of this subsystem.  An unsupported feature is not an error:
/// the reconciler reports it through its return list.
#[derive(Clone, Copy, PartialEq, Eq, Structural, Debug)]
pub enum BuildError {
    /// The context's active distribution does not match the one the
    /// operation expects.
    IncompatibleDistribution,
}

/// The shared mutable state of one image build, threaded by exclusive
/// mutable reference through every build step.
pub struct BuildContext {
    pub distribution: Distribution,
    /// Names installed to persist in the final image.
    pub packages: NameSet,
    /// Names installed only to support the build; removed at finalization.
    pub build_deps: NameSet,
}

impl BuildContext {
    pub open spec fn wf(&self) -> bool {
        self.packages.wf() && self.build_deps.wf()
    }

    /// A fresh context with empty package sets.
    pub fn new(distribution: Distribution) -> (ctx: BuildContext)
        ensures
            ctx.distribution == distribution,
            ctx.packages@ == Set::<Seq<char>>::empty(),
            ctx.build_deps@ == Set::<Seq<char>>::empty(),
            ctx.wf(),
    {
        BuildContext { distribution, packages: NameSet::new(), build_deps: NameSet::new() }
    }
}

} // verus!

