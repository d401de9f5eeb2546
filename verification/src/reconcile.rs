//! The reconciliation decision procedure: given a local and a remote
//! fingerprint for the same identity, choose to do nothing, push the
//! local content to the remote store, or pull the remote content.
//! Directory reconciliation runs the same decision once per identity
//! in the union of the two file sets.

use vstd::prelude::*;
use crate::info::{absent_fingerprint, infos_view, FileInfo, FingerprintView};

verus! {

/// What a single reconciliation step does for one identity.
/// `Push` sends local content to the remote store; `Pull` writes remote
/// content locally; `NoOp` leaves both stores untouched.
#[derive(Clone, Copy, Debug, PartialEq, Eq, Structural)]
pub enum SyncAction {
    NoOp,
    Push,
    Pull,
}

/// The decision table.  Digest equality short-circuits the timestamp
/// comparison; on differing digests the strictly newer side wins, and a
/// timestamp tie goes to the local side.
pub open spec fn spec_decide(local: FingerprintView, remote: FingerprintView) -> SyncAction {
    if !local.present && !remote.present {
        SyncAction::NoOp
    } else if local.present && !remote.present {
        SyncAction::Push
    } else if !local.present && remote.present {
        SyncAction::Pull
    } else if local.digest == remote.digest {
        SyncAction::NoOp
    } else if local.seconds < remote.seconds {
        SyncAction::Pull
    } else {
        SyncAction::Push
    }
}

/// Decide what to do for one identity, from its two fingerprints.
pub fn decide(local: &FileInfo, remote: &FileInfo) -> (action: SyncAction)
    ensures
        action == spec_decide(local@, remote@),
{
    let local_present = local.present();
    let remote_present = remote.present();
    if !local_present && !remote_present {
        SyncAction::NoOp
    } else if local_present && !remote_present {
        SyncAction::Push
    } else if !local_present && remote_present {
        SyncAction::Pull
    } else if local.digest_eq(remote) {
        SyncAction::NoOp
    } else if local.get_seconds() < remote.get_seconds() {
        SyncAction::Pull
    } else {
        SyncAction::Push
    }
}

/// The decision is a pure function of the two fingerprints: equal
/// inputs always yield the same outcome.
pub proof fn lemma_decide_deterministic(
    local_a: FingerprintView,
    remote_a: FingerprintView,
    local_b: FingerprintView,
    remote_b: FingerprintView,
)
    requires
        local_a == local_b,
        remote_a == remote_b,
    ensures
        spec_decide(local_a, remote_a) == spec_decide(local_b, remote_b),
{
}

/// When both sides hold content with the same digest, the outcome is
/// `NoOp` no matter how the timestamps compare.
pub proof fn lemma_equal_digests_no_op(local: FingerprintView, remote: FingerprintView)
    requires
        local.present,
        remote.present,
        local.digest == remote.digest,
    ensures
        spec_decide(local, remote) == SyncAction::NoOp,
{
}

/// An identity absent from both stores is never transferred.
pub proof fn lemma_absent_no_op(local: FingerprintView, remote: FingerprintView)
    requires
        !local.present,
        !remote.present,
    ensures
        spec_decide(local, remote) == SyncAction::NoOp,
{
}

// A flat collection of fingerprints is treated as a set keyed by
// identity path; walk order must not matter to any decision.

/// Whether some fingerprint in the collection carries this path.
pub open spec fn has_path(s: Seq<FingerprintView>, path: Seq<char>) -> bool {
    exists|i: int| 0 <= i < s.len() && s[i].path == path
}

/// The first fingerprint carrying this path, or the absent
/// fingerprint when there is none.
pub open spec fn lookup(s: Seq<FingerprintView>, path: Seq<char>) -> FingerprintView
    decreases s.len(),
{
    if s.len() == 0 {
        absent_fingerprint(path)
    } else if s[0].path == path {
        s[0]
    } else {
        lookup(s.drop_first(), path)
    }
}

/// No two fingerprints in the collection share an identity path.
pub open spec fn distinct_paths(s: Seq<FingerprintView>) -> bool {
    forall|i: int, j: int| 0 <= i < j < s.len() ==> s[i].path != s[j].path
}

pub proof fn lemma_lookup_at(s: Seq<FingerprintView>, path: Seq<char>, i: int)
    requires
        0 <= i < s.len(),
        s[i].path == path,
        forall|j: int| 0 <= j < i ==> s[j].path != path,
    ensures
        lookup(s, path) == s[i],
        has_path(s, path),
    decreases i,
{
    if i > 0 {
        assert forall|j: int| 0 <= j < i - 1 implies s.drop_first()[j].path != path by {
            assert(s.drop_first()[j] == s[j + 1]);
        }
        assert(s.drop_first()[i - 1] == s[i]);
        lemma_lookup_at(s.drop_first(), path, i - 1);
    }
}

/// In a path-distinct collection, any member with the path is the
/// lookup result.
pub proof fn lemma_lookup_distinct(s: Seq<FingerprintView>, path: Seq<char>, i: int)
    requires
        distinct_paths(s),
        0 <= i < s.len(),
        s[i].path == path,
    ensures
        lookup(s, path) == s[i],
        has_path(s, path),
{
    lemma_lookup_at(s, path, i);
}

pub proof fn lemma_lookup_absent(s: Seq<FingerprintView>, path: Seq<char>)
    requires
        !has_path(s, path),
    ensures
        lookup(s, path) == absent_fingerprint(path),
    decreases s.len(),
{
    if s.len() > 0 {
        assert(s[0].path != path);
        assert forall|j: int| 0 <= j < s.drop_first().len() implies s.drop_first()[j].path != path
            by {
            assert(s.drop_first()[j] == s[j + 1]);
        }
        lemma_lookup_absent(s.drop_first(), path);
    }
}

/// One step of a directory reconciliation plan.
pub struct PlannedStep {
    pub path: String,
    pub action: SyncAction,
}

#[verifier::ext_equal]
pub ghost struct PlannedStepView {
    pub path: Seq<char>,
    pub action: SyncAction,
}

impl View for PlannedStep {
    type V = PlannedStepView;

    open spec fn view(&self) -> PlannedStepView {
        PlannedStepView { path: self.path@, action: self.action }
    }
}

pub open spec fn steps_view(s: Seq<PlannedStep>) -> Seq<PlannedStepView> {
    s.map_values(|p: PlannedStep| p@)
}

/// The remote fingerprints whose identity the local set lacks, in
/// remote order.
pub open spec fn remote_only(local: Seq<FingerprintView>, remote: Seq<FingerprintView>) -> Seq<
    FingerprintView,
>
    decreases remote.len(),
{
    if remote.len() == 0 {
        Seq::empty()
    } else {
        let butlast = remote_only(local, remote.drop_last());
        if has_path(local, remote.last().path) {
            butlast
        } else {
            butlast.push(remote.last())
        }
    }
}

/// The step planned for a local fingerprint: decide against whatever
/// the remote set holds at its identity.
pub open spec fn local_step(l: FingerprintView, remote: Seq<FingerprintView>) -> PlannedStepView {
    PlannedStepView { path: l.path, action: spec_decide(l, lookup(remote, l.path)) }
}

/// The step planned for a remote fingerprint with no local
/// counterpart: decide against the absent fingerprint.
pub open spec fn remote_only_step(r: FingerprintView) -> PlannedStepView {
    PlannedStepView { path: r.path, action: spec_decide(absent_fingerprint(r.path), r) }
}

/// The union-pass plan: one step per local fingerprint, in local
/// order, then one per remote fingerprint whose identity the local
/// set lacks, in remote order.
pub open spec fn spec_plan(local: Seq<FingerprintView>, remote: Seq<FingerprintView>) -> Seq<
    PlannedStepView,
> {
    local.map_values(|l: FingerprintView| local_step(l, remote)) + remote_only(
        local,
        remote,
    ).map_values(|r: FingerprintView| remote_only_step(r))
}

pub proof fn lemma_remote_only_elems(
    local: Seq<FingerprintView>,
    remote: Seq<FingerprintView>,
    k: int,
)
    requires
        0 <= k < remote_only(local, remote).len(),
    ensures
        !has_path(local, remote_only(local, remote)[k].path),
        exists|i: int|
            0 <= i < remote.len() && remote_only(local, remote)[k] == remote[i],
    decreases remote.len(),
{
    let ro = remote_only(local, remote);
    let butlast = remote_only(local, remote.drop_last());
    if has_path(local, remote.last().path) || k < butlast.len() {
        lemma_remote_only_elems(local, remote.drop_last(), k);
        let i = choose|i: int|
            0 <= i < remote.drop_last().len() && butlast[k] == remote.drop_last()[i];
        assert(remote.drop_last()[i] == remote[i]);
        assert(0 <= i < remote.len() && ro[k] == remote[i]);
    } else {
        assert(ro[k] == remote.last());
        assert(remote.last() == remote[remote.len() - 1]);
    }
}

pub proof fn lemma_remote_only_covers(
    local: Seq<FingerprintView>,
    remote: Seq<FingerprintView>,
    path: Seq<char>,
)
    requires
        has_path(remote, path),
        !has_path(local, path),
    ensures
        exists|k: int|
            0 <= k < remote_only(local, remote).len() && remote_only(local, remote)[k].path
                == path,
    decreases remote.len(),
{
    assert(remote.len() > 0);
    let ro = remote_only(local, remote);
    let butlast = remote_only(local, remote.drop_last());
    if remote.last().path == path {
        assert(!has_path(local, remote.last().path));
        assert(ro == butlast.push(remote.last()));
        assert(ro[ro.len() - 1].path == path);
    } else {
        let i = choose|i: int| 0 <= i < remote.len() && remote[i].path == path;
        assert(i < remote.len() - 1);
        assert(remote.drop_last()[i] == remote[i]);
        assert(has_path(remote.drop_last(), path));
        lemma_remote_only_covers(local, remote.drop_last(), path);
        let k = choose|k: int| 0 <= k < butlast.len() && butlast[k].path == path;
        if has_path(local, remote.last().path) {
            assert(ro == butlast);
            assert(ro[k].path == path);
        } else {
            assert(ro[k] == butlast[k]);
            assert(ro[k].path == path);
        }
    }
}

pub proof fn lemma_remote_only_distinct(
    local: Seq<FingerprintView>,
    remote: Seq<FingerprintView>,
)
    requires
        distinct_paths(remote),
    ensures
        distinct_paths(remote_only(local, remote)),
    decreases remote.len(),
{
    if remote.len() > 0 {
        assert forall|i: int, j: int| 0 <= i < j < remote.drop_last().len() implies remote.drop_last()[i].path
            != remote.drop_last()[j].path by {
            assert(remote.drop_last()[i] == remote[i]);
            assert(remote.drop_last()[j] == remote[j]);
        }
        lemma_remote_only_distinct(local, remote.drop_last());
        let butlast = remote_only(local, remote.drop_last());
        if !has_path(local, remote.last().path) {
            assert forall|k: int| 0 <= k < butlast.len() implies butlast[k].path
                != remote.last().path by {
                lemma_remote_only_elems(local, remote.drop_last(), k);
                let i = choose|i: int|
                    0 <= i < remote.drop_last().len() && butlast[k] == remote.drop_last()[i];
                assert(remote.drop_last()[i] == remote[i]);
                assert(remote[i].path != remote[remote.len() - 1].path);
            }
            let ro = remote_only(local, remote);
            assert(ro == butlast.push(remote.last()));
            assert forall|i: int, j: int| 0 <= i < j < ro.len() implies ro[i].path != ro[j].path
                by {
                if j < butlast.len() {
                    assert(ro[i] == butlast[i] && ro[j] == butlast[j]);
                } else {
                    assert(ro[i] == butlast[i] && ro[j] == remote.last());
                }
            }
        }
    }
}

/// Union coverage: over path-distinct file sets, every identity
/// present in either store is planned, with the step the decision
/// table gives for the pair of fingerprints at that identity.
pub proof fn lemma_plan_covers(
    local: Seq<FingerprintView>,
    remote: Seq<FingerprintView>,
    path: Seq<char>,
)
    requires
        distinct_paths(local),
        distinct_paths(remote),
        has_path(local, path) || has_path(remote, path),
    ensures
        exists|n: int|
            0 <= n < spec_plan(local, remote).len() && spec_plan(local, remote)[n]
                == (PlannedStepView {
                path,
                action: spec_decide(lookup(local, path), lookup(remote, path)),
            }),
{
    let full = spec_plan(local, remote);
    let lpart = local.map_values(|l: FingerprintView| local_step(l, remote));
    let ro = remote_only(local, remote);
    if has_path(local, path) {
        let i = choose|i: int| 0 <= i < local.len() && local[i].path == path;
        lemma_lookup_distinct(local, path, i);
        assert(full[i] == lpart[i]);
        assert(full[i] == (PlannedStepView {
            path,
            action: spec_decide(lookup(local, path), lookup(remote, path)),
        }));
    } else {
        lemma_lookup_absent(local, path);
        lemma_remote_only_covers(local, remote, path);
        let k = choose|k: int| 0 <= k < ro.len() && ro[k].path == path;
        lemma_remote_only_elems(local, remote, k);
        let i = choose|i: int| 0 <= i < remote.len() && ro[k] == remote[i];
        lemma_lookup_distinct(remote, path, i);
        let n = local.len() + k;
        assert(full[n] == ro.map_values(|r: FingerprintView| remote_only_step(r))[k]);
        assert(full[n] == (PlannedStepView {
            path,
            action: spec_decide(lookup(local, path), lookup(remote, path)),
        }));
    }
}

/// Each identity is planned at most once: no two steps of the plan
/// share a path.
pub proof fn lemma_plan_paths_distinct(local: Seq<FingerprintView>, remote: Seq<FingerprintView>)
    requires
        distinct_paths(local),
        distinct_paths(remote),
    ensures
        forall|m: int, n: int|
            0 <= m < n < spec_plan(local, remote).len() ==> spec_plan(local, remote)[m].path
                != spec_plan(local, remote)[n].path,
{
    lemma_remote_only_distinct(local, remote);
    let full = spec_plan(local, remote);
    let lpart = local.map_values(|l: FingerprintView| local_step(l, remote));
    let ro = remote_only(local, remote);
    assert forall|m: int, n: int| 0 <= m < n < full.len() implies full[m].path != full[n].path by {
        if n < local.len() {
            assert(full[m] == lpart[m] && full[n] == lpart[n]);
        } else if m >= local.len() {
            let km = m - local.len();
            let kn = n - local.len();
            assert(full[m] == remote_only_step(ro[km]));
            assert(full[n] == remote_only_step(ro[kn]));
            assert(ro[km].path != ro[kn].path);
        } else {
            let kn = n - local.len();
            assert(full[m] == lpart[m]);
            assert(full[n] == remote_only_step(ro[kn]));
            lemma_remote_only_elems(local, remote, kn);
            assert(has_path(local, local[m].path));
        }
    }
}

/// Find the fingerprint for a path in a flat collection.
fn find_info<'a>(infos: &'a Vec<FileInfo>, path: &String) -> (r: Option<&'a FileInfo>)
    ensures
        match r {
            Some(found) => has_path(infos_view(infos@), path@) && found@ == lookup(
                infos_view(infos@),
                path@,
            ),
            None => !has_path(infos_view(infos@), path@),
        },
{
    let mut i: usize = 0;
    while i < infos.len()
        invariant
            i <= infos@.len(),
            forall|j: int| 0 <= j < i ==> infos_view(infos@)[j].path != path@,
        decreases infos@.len() - i,
    {
        if infos[i].path_is(path) {
            proof {
                assert(infos_view(infos@)[i as int] == infos@[i as int]@);
                lemma_lookup_at(infos_view(infos@), path@, i as int);
            }
            return Some(&infos[i]);
        }
        proof {
            assert(infos_view(infos@)[i as int] == infos@[i as int]@);
        }
        i += 1;
    }
    None
}

/// Reconcile two flat file sets, both keyed by mapping-relative
/// identity paths: one decision per identity in the union, local
/// identities first, remote-only identities after them.
pub fn reconcile_dir(local: &Vec<FileInfo>, remote: &Vec<FileInfo>) -> (plan: Vec<PlannedStep>)
    ensures
        steps_view(plan@) == spec_plan(infos_view(local@), infos_view(remote@)),
{
    let ghost local_views = infos_view(local@);
    let ghost remote_views = infos_view(remote@);
    let mut plan: Vec<PlannedStep> = Vec::new();
    let mut i: usize = 0;
    while i < local.len()
        invariant
            i <= local@.len(),
            local_views == infos_view(local@),
            remote_views == infos_view(remote@),
            plan@.len() == i,
            forall|j: int| 0 <= j < i ==> plan@[j]@ == local_step(local_views[j], remote_views),
        decreases local@.len() - i,
    {
        proof {
            assert(infos_view(local@)[i as int] == local@[i as int]@);
        }
        let path = local[i].get_path().to_owned();
        let action = match find_info(remote, &path) {
            Some(remote_info) => decide(&local[i], remote_info),
            None => {
                proof {
                    lemma_lookup_absent(remote_views, path@);
                }
                let absent = FileInfo::absent(path.clone());
                decide(&local[i], &absent)
            },
        };
        plan.push(PlannedStep { path, action });
        i += 1;
    }
    let mut k: usize = 0;
    while k < remote.len()
        invariant
            k <= remote@.len(),
            local_views == infos_view(local@),
            remote_views == infos_view(remote@),
            plan@.len() == local_views.len() + remote_only(
                local_views,
                remote_views.subrange(0, k as int),
            ).len(),
            forall|j: int|
                0 <= j < local_views.len() ==> plan@[j]@ == local_step(
                    local_views[j],
                    remote_views,
                ),
            forall|j: int|
                local_views.len() <= j < plan@.len() ==> plan@[j]@ == remote_only_step(
                    remote_only(local_views, remote_views.subrange(0, k as int))[j - local_views.len()],
                ),
        decreases remote@.len() - k,
    {
        let ghost ro_k = remote_only(local_views, remote_views.subrange(0, k as int));
        let ghost ro_k1 = remote_only(local_views, remote_views.subrange(0, k as int + 1));
        proof {
            assert(infos_view(remote@)[k as int] == remote@[k as int]@);
            assert(remote_views.subrange(0, k as int + 1).drop_last() =~= remote_views.subrange(
                0,
                k as int,
            ));
            assert(remote_views.subrange(0, k as int + 1).last() == remote_views[k as int]);
        }
        let path = remote[k].get_path().to_owned();
        match find_info(local, &path) {
            Some(_) => {
                proof {
                    assert(has_path(local_views, remote_views[k as int].path));
                    assert(ro_k1 == ro_k);
                }
            },
            None => {
                proof {
                    lemma_lookup_absent(local_views, path@);
                }
                let absent = FileInfo::absent(path.clone());
                let action = decide(&absent, &remote[k]);
                let ghost plan_before = plan@;
                plan.push(PlannedStep { path, action });
                proof {
                    assert(!has_path(local_views, remote_views[k as int].path));
                    assert(ro_k1 == ro_k.push(remote_views[k as int]));
                    assert(plan@.last()@ == remote_only_step(remote_views[k as int]));
                    assert forall|j: int|
                        local_views.len() <= j < plan@.len() implies plan@[j]@ == remote_only_step(
                        ro_k1[j - local_views.len()],
                    ) by {
                        if j < plan_before.len() {
                            assert(plan@[j] == plan_before[j]);
                            assert(ro_k1[j - local_views.len()] == ro_k[j - local_views.len()]);
                        } else {
                            assert(j == plan@.len() - 1);
                            assert(ro_k1[j - local_views.len()] == remote_views[k as int]);
                        }
                    }
                }
            },
        }
        k += 1;
    }
    proof {
        assert(remote_views.subrange(0, remote_views.len() as int) =~= remote_views);
        let ro = remote_only(local_views, remote_views);
        let full = spec_plan(local_views, remote_views);
        assert(full.len() == local_views.len() + ro.len());
        assert forall|j: int| 0 <= j < plan@.len() implies steps_view(plan@)[j] == full[j] by {
            assert(steps_view(plan@)[j] == plan@[j]@);
            if j < local_views.len() {
                assert(full[j] == local_views.map_values(
                    |l: FingerprintView| local_step(l, remote_views),
                )[j]);
            } else {
                assert(full[j] == ro.map_values(|r: FingerprintView| remote_only_step(r))[j
                    - local_views.len()]);
            }
        }
        assert(steps_view(plan@) =~= full);
    }
    plan
}

} // verus!
