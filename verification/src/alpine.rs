use vstd::prelude::*;
use crate::context::{AlpineInfo, BuildContext, BuildError, Distribution};
use crate::names::{clone_names, lemma_name_views_push, name_views};
use crate::packages::Package;
use crate::reconcile::{
    apply_feature, apply_features, initial_state, stage_build_name, stage_build_names,
    stage_system_name, stage_system_names, ReconcileState,
};
use crate::registry::{build_deps, spec_build_deps, spec_system_deps, system_deps};

verus! {

/// The Alpine release used when a recipe names none.
pub const LATEST_VERSION: &'static str = "v3.1";

/// The two batched operations of the installer.
#[derive(Clone, Copy, PartialEq, Eq, Structural, Debug)]
pub enum ApkOp {
    Add,
    Del,
}

/// One batched invocation of the installer against the target root, as a
/// plain value: running the subprocess is the caller's part.
pub struct ApkCommand {
    pub op: ApkOp,
    pub packages: Vec<String>,
}

/// What `setup_base` decides on a given context: `Ok(true)` when the
/// one-time bootstrap must run, `Ok(false)` when it already ran, an error
/// when the context is not an Alpine context.
pub open spec fn spec_setup_action(ctx: BuildContext) -> Result<bool, BuildError> {
    match ctx.distribution {
        Distribution::Alpine(info) => Ok(!info.base_setup),
        _ => Err(BuildError::IncompatibleDistribution),
    }
}

/// The context after a successful bootstrap: `base_setup` set, everything
/// else untouched.
pub open spec fn with_base_setup(ctx: BuildContext) -> BuildContext {
    match ctx.distribution {
        Distribution::Alpine(info) => (BuildContext {
            distribution: Distribution::Alpine(AlpineInfo { base_setup: true, ..info }),
            ..ctx
        }),
        _ => ctx,
    }
}

/// Decides the idempotent first-time bootstrap of the minimal root
/// filesystem.  On `Ok(true)` the caller performs the bootstrap I/O
/// (installer capability, configuration directory, mirror file, one
/// installer invocation) and, only on full success, records it with
/// [`mark_base_setup`]; on `Ok(false)` nothing remains to be done.
#[allow(unused_variables)]
pub fn setup_base(ctx: &BuildContext, version: &String) -> (r: Result<bool, BuildError>)
    ensures
        r == spec_setup_action(*ctx),
{
    match &ctx.distribution {
        Distribution::Alpine(info) => Ok(!info.base_setup),
        _ => Err(BuildError::IncompatibleDistribution),
    }
}

/// Records that the bootstrap sequence fully succeeded.  The flag moves to
/// `true` and never reverts; the package sets are untouched.
pub fn mark_base_setup(ctx: &mut BuildContext)
    requires
        old(ctx).distribution is Alpine,
    ensures
        *final(ctx) == with_base_setup(*old(ctx)),
{
    match &mut ctx.distribution {
        Distribution::Alpine(info) => info.base_setup = true,
        _ => {},
    }
}

/// Idempotence of the base bootstrap: once a successful bootstrap is
/// recorded, the flag stands, recording again changes nothing, and a second
/// `setup_base` decides that no further bootstrap invocation is needed.
pub proof fn lemma_setup_base_idempotent(ctx: BuildContext)
    requires
        ctx.distribution is Alpine,
    ensures
        with_base_setup(ctx).distribution is Alpine,
        spec_setup_action(with_base_setup(ctx)) == Ok::<bool, BuildError>(false),
        with_base_setup(with_base_setup(ctx)) == with_base_setup(ctx),
{
}

/// The single batched "add" invocation for the given names.
pub fn install(pkgs: &Vec<String>) -> (c: ApkCommand)
    ensures
        c.op == ApkOp::Add,
        c.packages@ == pkgs@,
{
    ApkCommand { op: ApkOp::Add, packages: clone_names(pkgs) }
}

/// The single batched "del" invocation for the given names.
pub fn remove(pkgs: &Vec<String>) -> (c: ApkCommand)
    ensures
        c.op == ApkOp::Del,
        c.packages@ == pkgs@,
{
    ApkCommand { op: ApkOp::Del, packages: clone_names(pkgs) }
}

/// Finalization: the command that removes exactly the snapshot of the
/// build-only set at call time, independent of prior call ordering.
/// Dumping the installed-package manifest afterwards is subprocess work and
/// stays with the caller.
pub fn finish(ctx: &BuildContext) -> (c: ApkCommand)
    requires
        ctx.wf(),
    ensures
        c.op == ApkOp::Del,
        name_views(c.packages@).to_set() == ctx.build_deps@,
        name_views(c.packages@).no_duplicates(),
{
    let snapshot = ctx.build_deps.to_vec();
    remove(&snapshot)
}

fn push_name(batch: &mut Vec<String>, n: &String)
    ensures
        name_views(final(batch)@) == name_views(old(batch)@).push(n@),
{
    let c = String::clone(n);
    proof {
        lemma_name_views_push(old(batch)@, c);
    }
    batch.push(c);
}

/// The dependency reconciler.  For each feature in order, its build-only
/// names are staged unless already present on either side, then its
/// persisted names are promoted out of the build-only set and staged unless
/// already persisted; a feature without a mapping on either side is
/// reported unsupported instead.  The context's sets are updated in place
/// and at most one install command comes back: `Some` exactly when the
/// batch is non-empty, carrying the staged names in discovery order.
pub fn ensure_packages(ctx: &mut BuildContext, features: &[Package]) -> (r: (
    Option<ApkCommand>,
    Vec<Package>,
))
    requires
        old(ctx).wf(),
    ensures
        final(ctx).wf(),
        final(ctx).distribution == old(ctx).distribution,
        ({
            let end = apply_features(
                initial_state(old(ctx).packages@, old(ctx).build_deps@),
                features@,
            );
            &&& final(ctx).packages@ == end.persisted
            &&& final(ctx).build_deps@ == end.build_only
            &&& r.1@ == end.unsupported
            &&& end.batch.no_duplicates()
            &&& match r.0 {
                Option::Some(c) => c.op == ApkOp::Add && name_views(c.packages@) == end.batch
                    && end.batch.len() > 0,
                Option::None => end.batch.len() == 0,
            }
        }),
{
    proof {
        crate::reconcile::lemma_batch_no_duplicates(
            old(ctx).packages@,
            old(ctx).build_deps@,
            features@,
        );
    }
    let ghost s0 = initial_state(old(ctx).packages@, old(ctx).build_deps@);
    let mut to_install: Vec<String> = Vec::new();
    let mut unsupp: Vec<Package> = Vec::new();
    let mut fi: usize = 0;
    proof {
        assert(features@.subrange(0, 0) =~= Seq::<Package>::empty());
    }
    while fi < features.len()
        invariant
            fi <= features.len(),
            ctx.wf(),
            ctx.distribution == old(ctx).distribution,
            s0 == initial_state(old(ctx).packages@, old(ctx).build_deps@),
            ({
                let s = apply_features(s0, features@.subrange(0, fi as int));
                &&& ctx.packages@ == s.persisted
                &&& ctx.build_deps@ == s.build_only
                &&& name_views(to_install@) == s.batch
                &&& unsupp@ == s.unsupported
            }),
        decreases features.len() - fi,
    {
        let ghost s_entry = apply_features(s0, features@.subrange(0, fi as int));
        let f = features[fi];
        match build_deps(f) {
            Option::Some(bl) => {
                let ghost bviews = name_views(bl@);
                proof {
                    assert(bviews.subrange(0, 0) =~= Seq::<Seq<char>>::empty());
                }
                let mut ni: usize = 0;
                while ni < bl.len()
                    invariant
                        ni <= bl.len(),
                        bviews == name_views(bl@),
                        ctx.wf(),
                        ctx.distribution == old(ctx).distribution,
                        ({
                            let s = stage_build_names(s_entry, bviews.subrange(0, ni as int));
                            &&& ctx.packages@ == s.persisted
                            &&& ctx.build_deps@ == s.build_only
                            &&& name_views(to_install@) == s.batch
                            &&& unsupp@ == s.unsupported
                        }),
                    decreases bl.len() - ni,
                {
                    let ghost s_cur = stage_build_names(s_entry, bviews.subrange(0, ni as int));
                    let n = &bl[ni];
                    proof {
                        assert(bviews[ni as int] == n@);
                    }
                    if !ctx.packages.contains(n) {
                        if ctx.build_deps.insert(String::clone(n)) {
                            push_name(&mut to_install, n);
                        }
                    }
                    proof {
                        let stepped = stage_build_name(s_cur, bviews[ni as int]);
                        assert(ctx.build_deps@ =~= stepped.build_only);
                        assert(name_views(to_install@) =~= stepped.batch);
                        assert(bviews.subrange(0, ni as int + 1).drop_last() =~= bviews.subrange(
                            0,
                            ni as int,
                        ));
                        assert(bviews.subrange(0, ni as int + 1).last() == bviews[ni as int]);
                    }
                    ni += 1;
                }
                proof {
                    assert(bviews.subrange(0, bl@.len() as int) =~= bviews);
                }
                let ghost s_mid = stage_build_names(s_entry, bviews);
                match system_deps(f) {
                    Option::Some(sl) => {
                        let ghost sviews = name_views(sl@);
                        proof {
                            assert(sviews.subrange(0, 0) =~= Seq::<Seq<char>>::empty());
                        }
                        let mut si: usize = 0;
                        while si < sl.len()
                            invariant
                                si <= sl.len(),
                                sviews == name_views(sl@),
                                ctx.wf(),
                                ctx.distribution == old(ctx).distribution,
                                ({
                                    let s = stage_system_names(
                                        s_mid,
                                        sviews.subrange(0, si as int),
                                    );
                                    &&& ctx.packages@ == s.persisted
                                    &&& ctx.build_deps@ == s.build_only
                                    &&& name_views(to_install@) == s.batch
                                    &&& unsupp@ == s.unsupported
                                }),
                            decreases sl.len() - si,
                        {
                            let ghost s_cur = stage_system_names(
                                s_mid,
                                sviews.subrange(0, si as int),
                            );
                            let n = &sl[si];
                            proof {
                                assert(sviews[si as int] == n@);
                            }
                            ctx.build_deps.remove(n);
                            if ctx.packages.insert(String::clone(n)) {
                                push_name(&mut to_install, n);
                            }
                            proof {
                                let stepped = stage_system_name(s_cur, sviews[si as int]);
                                assert(ctx.packages@ =~= stepped.persisted);
                                assert(name_views(to_install@) =~= stepped.batch);
                                assert(sviews.subrange(0, si as int + 1).drop_last()
                                    =~= sviews.subrange(0, si as int));
                                assert(sviews.subrange(0, si as int + 1).last() == sviews[si as int]);
                            }
                            si += 1;
                        }
                        proof {
                            assert(sviews.subrange(0, sl@.len() as int) =~= sviews);
                            assert(apply_feature(s_entry, f) == stage_system_names(s_mid, sviews));
                        }
                    },
                    Option::None => {
                        unsupp.push(f);
                        proof {
                            assert(apply_feature(s_entry, f) == (ReconcileState {
                                unsupported: s_mid.unsupported.push(f),
                                ..s_mid
                            }));
                        }
                    },
                }
            },
            Option::None => {
                unsupp.push(f);
                proof {
                    assert(apply_feature(s_entry, f) == (ReconcileState {
                        unsupported: s_entry.unsupported.push(f),
                        ..s_entry
                    }));
                }
            },
        }
        proof {
            assert(features@.subrange(0, fi as int + 1).drop_last() =~= features@.subrange(
                0,
                fi as int,
            ));
            assert(features@.subrange(0, fi as int + 1).last() == features@[fi as int]);
        }
        fi += 1;
    }
    proof {
        assert(features@.subrange(0, features@.len() as int) =~= features@);
    }
    if to_install.len() > 0 {
        (Some(install(&to_install)), unsupp)
    } else {
        (None, unsupp)
    }
}

} // verus!
