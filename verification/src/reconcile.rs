use vstd::prelude::*;
use crate::packages::Package;
use crate::registry::{spec_build_deps, spec_system_deps};

verus! {

/// The mathematical model of one reconciliation pass: the two name sets of
/// the build context, the pending install batch in discovery order, and the
/// features reported unsupported so far.
#[verifier::ext_equal]
pub struct ReconcileState {
    pub persisted: Set<Seq<char>>,
    pub build_only: Set<Seq<char>>,
    pub batch: Seq<Seq<char>>,
    pub unsupported: Seq<Package>,
}

/// The state a reconciliation starts from: the context's sets, nothing
/// pending, nothing unsupported.
pub open spec fn initial_state(persisted: Set<Seq<char>>, build_only: Set<Seq<char>>) -> ReconcileState {
    ReconcileState { persisted, build_only, batch: Seq::empty(), unsupported: Seq::empty() }
}

/// Stages one build-only name: unless the name is already persisted or
/// already build-only, it becomes build-only and joins the batch.
pub open spec fn stage_build_name(s: ReconcileState, n: Seq<char>) -> ReconcileState {
    if s.persisted.contains(n) {
        s
    } else if s.build_only.contains(n) {
        s
    } else {
        ReconcileState { build_only: s.build_only.insert(n), batch: s.batch.push(n), ..s }
    }
}

pub open spec fn stage_build_names(s: ReconcileState, names: Seq<Seq<char>>) -> ReconcileState
    decreases names.len(),
{
    if names.len() == 0 {
        s
    } else {
        stage_build_name(stage_build_names(s, names.drop_last()), names.last())
    }
}

/// Stages one persisted name: the name stops being build-only whether or not
/// it was (promotion), and if not yet persisted it becomes persisted and
/// joins the batch.
pub open spec fn stage_system_name(s: ReconcileState, n: Seq<char>) -> ReconcileState {
    let s1 = ReconcileState { build_only: s.build_only.remove(n), ..s };
    if s1.persisted.contains(n) {
        s1
    } else {
        ReconcileState { persisted: s1.persisted.insert(n), batch: s1.batch.push(n), ..s1 }
    }
}

pub open spec fn stage_system_names(s: ReconcileState, names: Seq<Seq<char>>) -> ReconcileState
    decreases names.len(),
{
    if names.len() == 0 {
        s
    } else {
        stage_system_name(stage_system_names(s, names.drop_last()), names.last())
    }
}

/// Processes one feature: build-only names first, then persisted names; a
/// missing mapping on either side reports the feature unsupported and skips
/// the rest of its processing.
pub open spec fn apply_feature(s: ReconcileState, f: Package) -> ReconcileState {
    match spec_build_deps(f) {
        Option::None => ReconcileState { unsupported: s.unsupported.push(f), ..s },
        Option::Some(bnames) => {
            let s1 = stage_build_names(s, bnames);
            match spec_system_deps(f) {
                Option::None => ReconcileState { unsupported: s1.unsupported.push(f), ..s1 },
                Option::Some(snames) => stage_system_names(s1, snames),
            }
        },
    }
}

/// Processes a feature list in the order given.
pub open spec fn apply_features(s: ReconcileState, fs: Seq<Package>) -> ReconcileState
    decreases fs.len(),
{
    if fs.len() == 0 {
        s
    } else {
        apply_feature(apply_features(s, fs.drop_last()), fs.last())
    }
}

/// `f`'s build-only list contains `n`.
pub open spec fn build_list_has(f: Package, n: Seq<char>) -> bool {
    match spec_build_deps(f) {
        Option::Some(l) => l.contains(n),
        Option::None => false,
    }
}

/// `f`'s persisted list contains `n`.
pub open spec fn system_list_has(f: Package, n: Seq<char>) -> bool {
    match spec_system_deps(f) {
        Option::Some(l) => l.contains(n),
        Option::None => false,
    }
}

/// `n` occurs in some feature's build-only list.
pub open spec fn in_build_lists(n: Seq<char>) -> bool {
    exists|f: Package| build_list_has(f, n)
}

proof fn lemma_build_name_forms(f: Package, n: Seq<char>)
    requires
        build_list_has(f, n),
    ensures
        n == "build-base"@ || n == "python-dev"@ || n == "nodejs-dev"@ || n == "git"@ || n
            == "hg"@,
{
}

proof fn lemma_system_name_forms(f: Package, n: Seq<char>)
    requires
        system_list_has(f, n),
    ensures
        n == "python"@ || n == "nodejs"@,
{
}

/// No name of the registry's persisted side occurs on its build-only side:
/// the two name universes of the table are disjoint.
proof fn lemma_system_name_not_build(f: Package, n: Seq<char>)
    requires
        system_list_has(f, n),
    ensures
        !in_build_lists(n),
{
    lemma_system_name_forms(f, n);
    if in_build_lists(n) {
        let g = choose|g: Package| build_list_has(g, n);
        lemma_build_name_forms(g, n);
        reveal_strlit("build-base");
        reveal_strlit("python-dev");
        reveal_strlit("nodejs-dev");
        reveal_strlit("git");
        reveal_strlit("hg");
        reveal_strlit("python");
        reveal_strlit("nodejs");
        assert(n.len() == 6);
        assert(false);
    }
}

/// Why the batch cannot repeat a name: every batched name is already
/// persisted, or is a build-only-universe name currently in the build-only
/// set, so the guards of both staging steps refuse it a second time.
pub open spec fn batch_tracked(s: ReconcileState) -> bool {
    forall|j: int|
        0 <= j < s.batch.len() ==> s.persisted.contains(#[trigger] s.batch[j]) || (in_build_lists(
            s.batch[j],
        ) && s.build_only.contains(s.batch[j]))
}

proof fn lemma_stage_build_name_tracked(s: ReconcileState, n: Seq<char>)
    requires
        batch_tracked(s),
        s.batch.no_duplicates(),
        in_build_lists(n),
    ensures
        batch_tracked(stage_build_name(s, n)),
        stage_build_name(s, n).batch.no_duplicates(),
{
    let t = stage_build_name(s, n);
    if !s.persisted.contains(n) && !s.build_only.contains(n) {
        assert(!s.batch.contains(n)) by {
            if s.batch.contains(n) {
                let j = choose|j: int| 0 <= j < s.batch.len() && s.batch[j] == n;
                assert(s.persisted.contains(s.batch[j]) || (in_build_lists(s.batch[j])
                    && s.build_only.contains(s.batch[j])));
            }
        }
        crate::names::lemma_push_no_duplicates(s.batch, n);
        assert forall|j: int| 0 <= j < t.batch.len() implies t.persisted.contains(
            #[trigger] t.batch[j],
        ) || (in_build_lists(t.batch[j]) && t.build_only.contains(t.batch[j])) by {
            if j < s.batch.len() {
                assert(s.persisted.contains(s.batch[j]) || (in_build_lists(s.batch[j])
                    && s.build_only.contains(s.batch[j])));
            }
        }
    }
}

proof fn lemma_stage_system_name_tracked(s: ReconcileState, n: Seq<char>)
    requires
        batch_tracked(s),
        s.batch.no_duplicates(),
        !in_build_lists(n),
    ensures
        batch_tracked(stage_system_name(s, n)),
        stage_system_name(s, n).batch.no_duplicates(),
{
    let t = stage_system_name(s, n);
    assert forall|j: int| 0 <= j < s.batch.len() implies s.persisted.contains(
        #[trigger] s.batch[j],
    ) || (in_build_lists(s.batch[j]) && s.build_only.remove(n).contains(s.batch[j])) by {
        assert(s.persisted.contains(s.batch[j]) || (in_build_lists(s.batch[j])
            && s.build_only.contains(s.batch[j])));
    }
    if !s.persisted.contains(n) {
        assert(!s.batch.contains(n)) by {
            if s.batch.contains(n) {
                let j = choose|j: int| 0 <= j < s.batch.len() && s.batch[j] == n;
                assert(s.persisted.contains(s.batch[j]) || (in_build_lists(s.batch[j])
                    && s.build_only.contains(s.batch[j])));
            }
        }
        crate::names::lemma_push_no_duplicates(s.batch, n);
        assert forall|j: int| 0 <= j < t.batch.len() implies t.persisted.contains(
            #[trigger] t.batch[j],
        ) || (in_build_lists(t.batch[j]) && t.build_only.contains(t.batch[j])) by {
            if j < s.batch.len() {
                assert(s.persisted.contains(s.batch[j]) || (in_build_lists(s.batch[j])
                    && s.build_only.remove(n).contains(s.batch[j])));
            }
        }
    }
}

proof fn lemma_stage_build_names_tracked(s: ReconcileState, l: Seq<Seq<char>>)
    requires
        batch_tracked(s),
        s.batch.no_duplicates(),
        forall|i: int| 0 <= i < l.len() ==> in_build_lists(#[trigger] l[i]),
    ensures
        batch_tracked(stage_build_names(s, l)),
        stage_build_names(s, l).batch.no_duplicates(),
    decreases l.len(),
{
    if l.len() > 0 {
        lemma_stage_build_names_tracked(s, l.drop_last());
        lemma_stage_build_name_tracked(stage_build_names(s, l.drop_last()), l.last());
    }
}

proof fn lemma_stage_system_names_tracked(s: ReconcileState, l: Seq<Seq<char>>)
    requires
        batch_tracked(s),
        s.batch.no_duplicates(),
        forall|i: int| 0 <= i < l.len() ==> !in_build_lists(#[trigger] l[i]),
    ensures
        batch_tracked(stage_system_names(s, l)),
        stage_system_names(s, l).batch.no_duplicates(),
    decreases l.len(),
{
    if l.len() > 0 {
        lemma_stage_system_names_tracked(s, l.drop_last());
        lemma_stage_system_name_tracked(stage_system_names(s, l.drop_last()), l.last());
    }
}

proof fn lemma_apply_feature_tracked(s: ReconcileState, f: Package)
    requires
        batch_tracked(s),
        s.batch.no_duplicates(),
    ensures
        batch_tracked(apply_feature(s, f)),
        apply_feature(s, f).batch.no_duplicates(),
{
    match spec_build_deps(f) {
        Option::Some(bl) => {
            assert forall|i: int| 0 <= i < bl.len() implies in_build_lists(#[trigger] bl[i]) by {
                assert(bl.contains(bl[i]));
                assert(build_list_has(f, bl[i]));
            }
            lemma_stage_build_names_tracked(s, bl);
            let s1 = stage_build_names(s, bl);
            match spec_system_deps(f) {
                Option::Some(sl) => {
                    assert forall|i: int| 0 <= i < sl.len() implies !in_build_lists(
                        #[trigger] sl[i],
                    ) by {
                        assert(sl.contains(sl[i]));
                        assert(system_list_has(f, sl[i]));
                        lemma_system_name_not_build(f, sl[i]);
                    }
                    lemma_stage_system_names_tracked(s1, sl);
                },
                Option::None => {},
            }
        },
        Option::None => {},
    }
}

proof fn lemma_apply_features_tracked(s: ReconcileState, fs: Seq<Package>)
    requires
        batch_tracked(s),
        s.batch.no_duplicates(),
    ensures
        batch_tracked(apply_features(s, fs)),
        apply_features(s, fs).batch.no_duplicates(),
    decreases fs.len(),
{
    if fs.len() > 0 {
        lemma_apply_features_tracked(s, fs.drop_last());
        lemma_apply_feature_tracked(apply_features(s, fs.drop_last()), fs.last());
    }
}

/// A reconciliation never batches a name twice, whatever the starting sets
/// and whatever the feature list, repeated features included.
pub proof fn lemma_batch_no_duplicates(
    persisted: Set<Seq<char>>,
    build_only: Set<Seq<char>>,
    features: Seq<Package>,
)
    ensures
        apply_features(initial_state(persisted, build_only), features).batch.no_duplicates(),
{
    lemma_apply_features_tracked(initial_state(persisted, build_only), features);
}

proof fn lemma_sticky_build_names(s: ReconcileState, l: Seq<Seq<char>>, n: Seq<char>)
    requires
        s.persisted.contains(n),
        !s.build_only.contains(n),
    ensures
        stage_build_names(s, l).persisted.contains(n),
        !stage_build_names(s, l).build_only.contains(n),
    decreases l.len(),
{
    if l.len() > 0 {
        lemma_sticky_build_names(s, l.drop_last(), n);
    }
}

proof fn lemma_sticky_system_names(s: ReconcileState, l: Seq<Seq<char>>, n: Seq<char>)
    requires
        s.persisted.contains(n),
        !s.build_only.contains(n),
    ensures
        stage_system_names(s, l).persisted.contains(n),
        !stage_system_names(s, l).build_only.contains(n),
    decreases l.len(),
{
    if l.len() > 0 {
        lemma_sticky_system_names(s, l.drop_last(), n);
    }
}

/// Once a name is persisted and out of the build-only set, no later feature
/// moves it: the build-only staging guard sees it persisted, and promotion
/// only ever takes names out of the build-only set.
proof fn lemma_sticky_features(s: ReconcileState, fs: Seq<Package>, n: Seq<char>)
    requires
        s.persisted.contains(n),
        !s.build_only.contains(n),
    ensures
        apply_features(s, fs).persisted.contains(n),
        !apply_features(s, fs).build_only.contains(n),
    decreases fs.len(),
{
    if fs.len() > 0 {
        lemma_sticky_features(s, fs.drop_last(), n);
        let t = apply_features(s, fs.drop_last());
        match spec_build_deps(fs.last()) {
            Option::Some(bl) => {
                lemma_sticky_build_names(t, bl, n);
                match spec_system_deps(fs.last()) {
                    Option::Some(sl) => {
                        lemma_sticky_system_names(stage_build_names(t, bl), sl, n);
                    },
                    Option::None => {},
                }
            },
            Option::None => {},
        }
    }
}

/// Processing a persisted list that contains `n` leaves `n` persisted and
/// out of the build-only set, whatever held of `n` before.
proof fn lemma_promote_system_names(s: ReconcileState, l: Seq<Seq<char>>, n: Seq<char>)
    requires
        l.contains(n),
    ensures
        stage_system_names(s, l).persisted.contains(n),
        !stage_system_names(s, l).build_only.contains(n),
    decreases l.len(),
{
    let j = choose|j: int| 0 <= j < l.len() && l[j] == n;
    if j < l.len() - 1 {
        assert(l.drop_last()[j] == n);
        assert(l.drop_last().contains(n));
        lemma_promote_system_names(s, l.drop_last(), n);
    }
}

/// Promotion correctness: when a feature's persisted list names `n`, then
/// after that feature and any later ones, `n` is persisted and no longer
/// build-only.
pub proof fn lemma_promotion(s: ReconcileState, f: Package, later: Seq<Package>, n: Seq<char>)
    requires
        s.build_only.contains(n),
        spec_system_deps(f) matches Some(l) && l.contains(n),
    ensures
        apply_features(apply_feature(s, f), later).persisted.contains(n),
        !apply_features(apply_feature(s, f), later).build_only.contains(n),
{
    crate::registry::lemma_supported_both_sides(f);
    match spec_build_deps(f) {
        Option::Some(bl) => {
            match spec_system_deps(f) {
                Option::Some(sl) => {
                    lemma_promote_system_names(stage_build_names(s, bl), sl, n);
                },
                Option::None => {},
            }
        },
        Option::None => {},
    }
    lemma_sticky_features(apply_feature(s, f), later, n);
}

proof fn lemma_stage_build_names_unsupported(s: ReconcileState, l: Seq<Seq<char>>)
    ensures
        stage_build_names(s, l).unsupported == s.unsupported,
    decreases l.len(),
{
    if l.len() > 0 {
        lemma_stage_build_names_unsupported(s, l.drop_last());
    }
}

proof fn lemma_stage_system_names_unsupported(s: ReconcileState, l: Seq<Seq<char>>)
    ensures
        stage_system_names(s, l).unsupported == s.unsupported,
    decreases l.len(),
{
    if l.len() > 0 {
        lemma_stage_system_names_unsupported(s, l.drop_last());
    }
}

proof fn lemma_unsupported_monotone_feature(s: ReconcileState, f: Package, x: Package)
    requires
        s.unsupported.contains(x),
    ensures
        apply_feature(s, f).unsupported.contains(x),
{
    match spec_build_deps(f) {
        Option::Some(bl) => {
            lemma_stage_build_names_unsupported(s, bl);
            let s1 = stage_build_names(s, bl);
            match spec_system_deps(f) {
                Option::Some(sl) => {
                    lemma_stage_system_names_unsupported(s1, sl);
                },
                Option::None => {
                    crate::names::lemma_push_contains(s1.unsupported, f, x);
                },
            }
        },
        Option::None => {
            crate::names::lemma_push_contains(s.unsupported, f, x);
        },
    }
}

/// Unsupported detection, step form: a feature with no build-only mapping
/// is recorded unsupported and changes nothing else; in particular it
/// contributes no name to the install batch.
pub proof fn lemma_unsupported_feature(s: ReconcileState, f: Package)
    requires
        spec_build_deps(f) is None,
    ensures
        apply_feature(s, f) == (ReconcileState { unsupported: s.unsupported.push(f), ..s }),
{
}

/// Unsupported detection, run form: a feature with no build-only mapping
/// appears in the unsupported list of the whole run.
pub proof fn lemma_unsupported_reported(s: ReconcileState, fs: Seq<Package>, i: int)
    requires
        0 <= i < fs.len(),
        spec_build_deps(fs[i]) is None,
    ensures
        apply_features(s, fs).unsupported.contains(fs[i]),
    decreases fs.len(),
{
    let t = apply_features(s, fs.drop_last());
    if i == fs.len() - 1 {
        crate::names::lemma_push_contains(t.unsupported, fs[i], fs[i]);
    } else {
        assert(fs.drop_last()[i] == fs[i]);
        lemma_unsupported_reported(s, fs.drop_last(), i);
        lemma_unsupported_monotone_feature(t, fs.last(), fs[i]);
    }
}

proof fn lemma_disjoint_build_names(s: ReconcileState, l: Seq<Seq<char>>)
    requires
        s.persisted.disjoint(s.build_only),
    ensures
        stage_build_names(s, l).persisted.disjoint(stage_build_names(s, l).build_only),
        stage_build_names(s, l).persisted == s.persisted,
    decreases l.len(),
{
    if l.len() > 0 {
        lemma_disjoint_build_names(s, l.drop_last());
        let t = stage_build_names(s, l.drop_last());
        let u = stage_build_name(t, l.last());
        assert forall|a: Seq<char>| u.persisted.contains(a) implies !u.build_only.contains(a) by {
            assert(!t.build_only.contains(a));
        }
    }
}

proof fn lemma_disjoint_system_names(s: ReconcileState, l: Seq<Seq<char>>)
    requires
        s.persisted.disjoint(s.build_only),
    ensures
        stage_system_names(s, l).persisted.disjoint(stage_system_names(s, l).build_only),
    decreases l.len(),
{
    if l.len() > 0 {
        lemma_disjoint_system_names(s, l.drop_last());
        let t = stage_system_names(s, l.drop_last());
        let n = l.last();
        let u = stage_system_name(t, n);
        assert forall|a: Seq<char>| u.persisted.contains(a) implies !u.build_only.contains(a) by {
            if a != n {
                assert(t.persisted.contains(a));
            }
        }
    }
}

/// The context invariant: a reconciliation keeps the persisted and
/// build-only sets disjoint — a promoted name leaves the build-only set in
/// the same step that persists it.
pub proof fn lemma_partition_disjoint(s: ReconcileState, fs: Seq<Package>)
    requires
        s.persisted.disjoint(s.build_only),
    ensures
        apply_features(s, fs).persisted.disjoint(apply_features(s, fs).build_only),
    decreases fs.len(),
{
    if fs.len() > 0 {
        lemma_partition_disjoint(s, fs.drop_last());
        let t = apply_features(s, fs.drop_last());
        match spec_build_deps(fs.last()) {
            Option::Some(bl) => {
                lemma_disjoint_build_names(t, bl);
                match spec_system_deps(fs.last()) {
                    Option::Some(sl) => {
                        lemma_disjoint_system_names(stage_build_names(t, bl), sl);
                    },
                    Option::None => {},
                }
            },
            Option::None => {},
        }
    }
}

} // verus!
