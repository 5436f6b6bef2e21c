use vstd::prelude::*;
use crate::names::name_views;
use crate::packages::Package;

verus! {

/// Build-only package names a feature needs on Alpine.
///
/// `None` means the distribution has no mapping for the feature: it is
/// unsupported, full stop.  `Some(empty)` means the feature needs no
/// additional build-only package beyond the base image.
pub open spec fn spec_build_deps(pkg: Package) -> Option<Seq<Seq<char>>> {
    match pkg {
        Package::BuildEssential => Some(seq!["build-base"@]),
        Package::Python2 => Some(Seq::empty()),
        Package::Python2Dev => Some(seq!["python-dev"@]),
        Package::Python3 => None,
        Package::Python3Dev => None,
        Package::PipPy2 => None,
        Package::PipPy3 => None,
        Package::NodeJs => Some(Seq::empty()),
        Package::NodeJsDev => Some(seq!["nodejs-dev"@]),
        Package::Npm => Some(Seq::empty()),
        Package::Git => Some(seq!["git"@]),
        Package::Mercurial => Some(seq!["hg"@]),
    }
}

/// Persisted (system) package names a feature needs on Alpine; `None` and
/// `Some(empty)` read as in [`spec_build_deps`].
pub open spec fn spec_system_deps(pkg: Package) -> Option<Seq<Seq<char>>> {
    match pkg {
        Package::BuildEssential => Some(Seq::empty()),
        Package::Python2 => Some(seq!["python"@]),
        Package::Python2Dev => Some(Seq::empty()),
        Package::Python3 => None,
        Package::Python3Dev => None,
        Package::PipPy2 => None,
        Package::PipPy3 => None,
        Package::NodeJs => Some(seq!["nodejs"@]),
        Package::NodeJsDev => Some(Seq::empty()),
        Package::Npm => Some(seq!["nodejs"@]),
        Package::Git => Some(Seq::empty()),
        Package::Mercurial => Some(Seq::empty()),
    }
}

/// A feature has a build-only mapping exactly when it has a persisted
/// mapping: the table marks a feature unsupported on both sides or neither.
pub proof fn lemma_supported_both_sides(pkg: Package)
    ensures
        spec_build_deps(pkg) is Some <==> spec_system_deps(pkg) is Some,
{
}

fn no_names() -> (v: Vec<String>)
    ensures
        name_views(v@) == Seq::<Seq<char>>::empty(),
{
    let v: Vec<String> = Vec::new();
    proof {
        assert(name_views(v@) =~= Seq::<Seq<char>>::empty());
    }
    v
}

fn one_name(n: &str) -> (v: Vec<String>)
    ensures
        name_views(v@) == seq![n@],
{
    let mut v: Vec<String> = Vec::new();
    v.push(n.to_owned());
    proof {
        assert(name_views(v@) =~= seq![n@]);
    }
    v
}

/// The build-only side of the registry, as an executable lookup.
pub fn build_deps(pkg: Package) -> (r: Option<Vec<String>>)
    ensures
        match r {
            Some(v) => spec_build_deps(pkg) == Some(name_views(v@)),
            None => spec_build_deps(pkg) is None,
        },
{
    match pkg {
        Package::BuildEssential => Some(one_name("build-base")),
        Package::Python2 => Some(no_names()),
        Package::Python2Dev => Some(one_name("python-dev")),
        Package::Python3 => None,
        Package::Python3Dev => None,
        Package::PipPy2 => None,
        Package::PipPy3 => None,
        Package::NodeJs => Some(no_names()),
        Package::NodeJsDev => Some(one_name("nodejs-dev")),
        Package::Npm => Some(no_names()),
        Package::Git => Some(one_name("git")),
        Package::Mercurial => Some(one_name("hg")),
    }
}

/// The persisted side of the registry, as an executable lookup.
pub fn system_deps(pkg: Package) -> (r: Option<Vec<String>>)
    ensures
        match r {
            Some(v) => spec_system_deps(pkg) == Some(name_views(v@)),
            None => spec_system_deps(pkg) is None,
        },
{
    match pkg {
        Package::BuildEssential => Some(no_names()),
        Package::Python2 => Some(one_name("python")),
        Package::Python2Dev => Some(no_names()),
        Package::Python3 => None,
        Package::Python3Dev => None,
        Package::PipPy2 => None,
        Package::PipPy3 => None,
        Package::NodeJs => Some(one_name("nodejs")),
        Package::NodeJsDev => Some(no_names()),
        Package::Npm => Some(one_name("nodejs")),
        Package::Git => Some(no_names()),
        Package::Mercurial => Some(no_names()),
    }
}

} // verus!
