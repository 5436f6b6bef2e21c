use alpine_build::alpine::{
    ensure_packages, finish, install, mark_base_setup, remove, setup_base, ApkCommand, ApkOp,
    LATEST_VERSION,
};
use alpine_build::context::{AlpineInfo, BuildContext, BuildError, Distribution};
use alpine_build::names::NameSet;
use alpine_build::packages::Package;
use alpine_build::registry::{build_deps, system_deps};

fn alpine_ctx() -> BuildContext {
    BuildContext::new(Distribution::Alpine(AlpineInfo {
        version: LATEST_VERSION.to_string(),
        base_setup: false,
    }))
}

fn names_of(cmd: &ApkCommand) -> Vec<String> {
    cmd.packages.clone()
}

fn sorted_names(cmd: &ApkCommand) -> Vec<String> {
    let mut v = cmd.packages.clone();
    v.sort();
    v
}

#[test]
fn setup_base_rejects_unknown_distribution() {
    let ctx = BuildContext::new(Distribution::Unknown);
    let r = setup_base(&ctx, &LATEST_VERSION.to_string());
    assert_eq!(r, Err(BuildError::IncompatibleDistribution));
}

#[test]
fn setup_base_idempotent() {
    let mut ctx = alpine_ctx();
    // First call: the bootstrap must run once.
    assert_eq!(setup_base(&ctx, &LATEST_VERSION.to_string()), Ok(true));
    mark_base_setup(&mut ctx);
    // Second call: no further bootstrap invocation.
    assert_eq!(setup_base(&ctx, &LATEST_VERSION.to_string()), Ok(false));
    mark_base_setup(&mut ctx);
    assert_eq!(setup_base(&ctx, &LATEST_VERSION.to_string()), Ok(false));
    match ctx.distribution {
        Distribution::Alpine(info) => assert!(info.base_setup),
        _ => unreachable!(),
    }
}

#[test]
fn scenario_build_essential_and_python_dev() {
    let mut ctx = alpine_ctx();
    let (cmd, unsupported) =
        ensure_packages(&mut ctx, &[Package::BuildEssential, Package::Python2Dev]);
    assert!(unsupported.is_empty());
    let cmd = cmd.expect("a non-empty batch installs once");
    assert_eq!(cmd.op, ApkOp::Add);
    assert_eq!(names_of(&cmd), vec!["build-base".to_string(), "python-dev".to_string()]);
    assert!(ctx.build_deps.contains(&"build-base".to_string()));
    assert!(ctx.build_deps.contains(&"python-dev".to_string()));
    assert_eq!(ctx.build_deps.len(), 2);
    assert_eq!(ctx.packages.len(), 0);
}

#[test]
fn scenario_unsupported_feature() {
    let mut ctx = alpine_ctx();
    let (cmd, unsupported) = ensure_packages(&mut ctx, &[Package::Python3]);
    assert_eq!(unsupported, vec![Package::Python3]);
    assert!(cmd.is_none());
    assert_eq!(ctx.build_deps.len(), 0);
    assert_eq!(ctx.packages.len(), 0);
}

#[test]
fn scenario_no_promotion_across_different_names() {
    let mut ctx = alpine_ctx();
    let (first, unsupported) = ensure_packages(&mut ctx, &[Package::NodeJsDev]);
    assert!(unsupported.is_empty());
    assert_eq!(names_of(&first.unwrap()), vec!["nodejs-dev".to_string()]);
    assert!(ctx.build_deps.contains(&"nodejs-dev".to_string()));
    assert_eq!(ctx.build_deps.len(), 1);

    let (second, unsupported) = ensure_packages(&mut ctx, &[Package::Npm]);
    assert!(unsupported.is_empty());
    assert_eq!(names_of(&second.unwrap()), vec!["nodejs".to_string()]);
    assert!(ctx.packages.contains(&"nodejs".to_string()));
    assert_eq!(ctx.packages.len(), 1);
    // "nodejs-dev" and "nodejs" differ: no promotion happened.
    assert!(ctx.build_deps.contains(&"nodejs-dev".to_string()));
    assert_eq!(ctx.build_deps.len(), 1);
}

#[test]
fn promotion_moves_name_between_sets() {
    let mut ctx = alpine_ctx();
    assert!(ctx.build_deps.insert("python".to_string()));
    let (cmd, unsupported) = ensure_packages(&mut ctx, &[Package::Python2]);
    assert!(unsupported.is_empty());
    assert_eq!(names_of(&cmd.unwrap()), vec!["python".to_string()]);
    assert!(ctx.packages.contains(&"python".to_string()));
    assert!(!ctx.build_deps.contains(&"python".to_string()));
    assert_eq!(ctx.build_deps.len(), 0);
}

#[test]
fn repeated_feature_installs_once() {
    let mut ctx = alpine_ctx();
    let (cmd, unsupported) = ensure_packages(&mut ctx, &[Package::Git, Package::Git]);
    assert!(unsupported.is_empty());
    assert_eq!(names_of(&cmd.unwrap()), vec!["git".to_string()]);
    assert_eq!(ctx.build_deps.len(), 1);
}

#[test]
fn shared_system_name_installs_once() {
    let mut ctx = alpine_ctx();
    // NodeJs and Npm both persist "nodejs"; it is batched a single time.
    let (cmd, unsupported) = ensure_packages(&mut ctx, &[Package::NodeJs, Package::Npm]);
    assert!(unsupported.is_empty());
    assert_eq!(names_of(&cmd.unwrap()), vec!["nodejs".to_string()]);
    assert_eq!(ctx.packages.len(), 1);
    assert_eq!(ctx.build_deps.len(), 0);
}

#[test]
fn unsupported_feature_between_supported_ones() {
    let mut ctx = alpine_ctx();
    let (cmd, unsupported) = ensure_packages(
        &mut ctx,
        &[Package::BuildEssential, Package::PipPy2, Package::Mercurial],
    );
    assert_eq!(unsupported, vec![Package::PipPy2]);
    assert_eq!(
        names_of(&cmd.unwrap()),
        vec!["build-base".to_string(), "hg".to_string()]
    );
}

#[test]
fn unsupported_feature_reported_each_time() {
    let mut ctx = alpine_ctx();
    let (cmd, unsupported) = ensure_packages(&mut ctx, &[Package::Python3Dev, Package::Python3Dev]);
    assert!(cmd.is_none());
    assert_eq!(unsupported, vec![Package::Python3Dev, Package::Python3Dev]);
}

#[test]
fn empty_feature_list_is_a_no_op() {
    let mut ctx = alpine_ctx();
    let (cmd, unsupported) = ensure_packages(&mut ctx, &[]);
    assert!(cmd.is_none());
    assert!(unsupported.is_empty());
}

#[test]
fn finish_removes_the_build_only_snapshot() {
    let mut ctx = alpine_ctx();
    let _ = ensure_packages(&mut ctx, &[Package::BuildEssential, Package::Python2Dev]);
    let cmd = finish(&ctx);
    assert_eq!(cmd.op, ApkOp::Del);
    assert_eq!(
        sorted_names(&cmd),
        vec!["build-base".to_string(), "python-dev".to_string()]
    );
    // The snapshot is independent of prior call ordering: requesting more
    // persisted-only work first changes nothing of it.
    let mut other = alpine_ctx();
    let _ = ensure_packages(&mut other, &[Package::Python2]);
    let _ = ensure_packages(&mut other, &[Package::Python2Dev, Package::BuildEssential]);
    let other_cmd = finish(&other);
    assert_eq!(sorted_names(&other_cmd), sorted_names(&cmd));
}

#[test]
fn install_and_remove_batch_the_given_names() {
    let pkgs = vec!["a".to_string(), "b".to_string()];
    let add = install(&pkgs);
    assert_eq!(add.op, ApkOp::Add);
    assert_eq!(add.packages, pkgs);
    let del = remove(&pkgs);
    assert_eq!(del.op, ApkOp::Del);
    assert_eq!(del.packages, pkgs);
}

#[test]
fn registry_lookups() {
    assert_eq!(build_deps(Package::BuildEssential), Some(vec!["build-base".to_string()]));
    assert_eq!(build_deps(Package::Python2), Some(vec![]));
    assert_eq!(build_deps(Package::Python2Dev), Some(vec!["python-dev".to_string()]));
    assert_eq!(build_deps(Package::Python3), None);
    assert_eq!(build_deps(Package::PipPy3), None);
    assert_eq!(build_deps(Package::Mercurial), Some(vec!["hg".to_string()]));
    assert_eq!(system_deps(Package::Python2), Some(vec!["python".to_string()]));
    assert_eq!(system_deps(Package::Npm), Some(vec!["nodejs".to_string()]));
    assert_eq!(system_deps(Package::Git), Some(vec![]));
    assert_eq!(system_deps(Package::Python3Dev), None);
}

#[test]
fn name_set_insert_contains_remove() {
    let mut s = NameSet::new();
    assert!(s.insert("git".to_string()));
    assert!(!s.insert("git".to_string()));
    assert!(s.contains(&"git".to_string()));
    assert!(!s.contains(&"hg".to_string()));
    assert_eq!(s.len(), 1);
    assert!(s.remove(&"git".to_string()));
    assert!(!s.remove(&"git".to_string()));
    assert_eq!(s.len(), 0);
    let snapshot = {
        s.insert("a".to_string());
        s.insert("b".to_string());
        s.to_vec()
    };
    assert_eq!(snapshot, vec!["a".to_string(), "b".to_string()]);
}
