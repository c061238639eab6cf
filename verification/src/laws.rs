use vstd::prelude::*;

use crate::actor::ActorId;
use crate::service::admins_without;
use crate::service::lemma_admins_without;
use crate::service::lemma_idx_of_points;
use crate::service::Errors;
use crate::service::Events;
use crate::state::MvpView;
use crate::state::StateView;
use crate::MAX_MVPS;
use crate::MAX_VOTERS_PER_MVP;

verus! {

/// In a well-formed store every record's tally equals the size of its
/// voter set.
pub proof fn lemma_tally_matches_voters(s: StateView, i: int)
    requires
        s.wf(),
        0 <= i < s.mvps.len(),
    ensures
        s.mvps[i].positive_votes == s.mvps[i].voter_wallets.len(),
{
}

/// Every operation carries well-formedness of the store forward, whatever
/// its outcome; a submitted record is itself expected well formed.
pub proof fn lemma_operations_preserve_wf(
    s: StateView,
    caller: ActorId,
    other: ActorId,
    mvp: MvpView,
    id: u32,
    updated: MvpView,
)
    requires
        s.wf(),
        mvp.wf(),
    ensures
        s.add_admin_spec(caller, other).0.wf(),
        s.remove_admin_spec(caller, other).0.wf(),
        s.add_mvp_spec(caller, mvp).0.wf(),
        s.remove_mvp_spec(caller, id).0.wf(),
        s.vote_for_mvp_spec(caller, id).0.wf(),
        s.update_mvp_info_spec(caller, id, updated).0.wf(),
{
    lemma_add_admin_preserves_wf(s, caller, other);
    lemma_remove_admin_preserves_wf(s, caller, other);
    lemma_add_mvp_preserves_wf(s, caller, mvp);
    lemma_remove_mvp_preserves_wf(s, caller, id);
    lemma_vote_preserves_wf(s, caller, id);
    lemma_update_preserves_wf(s, caller, id, updated);
}

proof fn lemma_add_admin_preserves_wf(s: StateView, caller: ActorId, other: ActorId)
    requires
        s.wf(),
    ensures
        s.add_admin_spec(caller, other).0.wf(),
{
    let s1 = s.add_admin_spec(caller, other).0;
    if s.is_admin(caller) && s.admins.len() < crate::MAX_ADMINS && !s.admins.contains(other) {
        assert(s1.admins.no_duplicates()) by {
            assert forall|i: int, j: int|
                0 <= i < s1.admins.len() && 0 <= j < s1.admins.len() && i != j implies s1.admins[i]
                != s1.admins[j] by {
                if i < s.admins.len() && j < s.admins.len() {
                    assert(s.admins[i] != s.admins[j]);
                }
            }
        }
    }
}

proof fn lemma_remove_admin_preserves_wf(s: StateView, caller: ActorId, other: ActorId)
    requires
        s.wf(),
    ensures
        s.remove_admin_spec(caller, other).0.wf(),
{
    lemma_admins_without(s.admins, other);
}

proof fn lemma_add_mvp_preserves_wf(s: StateView, caller: ActorId, mvp: MvpView)
    requires
        s.wf(),
        mvp.wf(),
    ensures
        s.add_mvp_spec(caller, mvp).0.wf(),
{
    let s1 = s.add_mvp_spec(caller, mvp).0;
    if s.is_admin(caller) && s.mvps.len() < MAX_MVPS && !s.contains_id(mvp.id) && s.all_mvps
        != u64::MAX {
        assert(s1.unique_ids()) by {
            assert forall|i: int, j: int|
                0 <= i < j < s1.mvps.len() implies s1.mvps[i].id != s1.mvps[j].id by {
                if j < s.mvps.len() {
                    assert(s.mvps[i].id != s.mvps[j].id);
                } else {
                    assert(s1.mvps[j] == mvp);
                    assert(s.mvps[i].id != mvp.id);
                }
            }
        }
    }
}

proof fn lemma_remove_mvp_preserves_wf(s: StateView, caller: ActorId, id: u32)
    requires
        s.wf(),
    ensures
        s.remove_mvp_spec(caller, id).0.wf(),
{
    let s1 = s.remove_mvp_spec(caller, id).0;
    if s.is_admin(caller) && s.contains_id(id) && s.all_mvps != 0 {
        let j = s.idx_of(id);
        assert(0 <= j < s.mvps.len() && s.mvps[j].id == id);
        let rem = s.mvps.remove(j);
        assert(forall|k: int| 0 <= k < j ==> #[trigger] rem[k] == s.mvps[k]);
        assert(forall|k: int| j <= k < rem.len() ==> #[trigger] rem[k] == s.mvps[k + 1]);
        assert(s1.unique_ids()) by {
            assert forall|i: int, k: int| 0 <= i < k < rem.len() implies rem[i].id != rem[k].id by {
                let i0: int = if i < j {
                    i
                } else {
                    i + 1
                };
                let k0: int = if k < j {
                    k
                } else {
                    k + 1
                };
                assert(rem[i] == s.mvps[i0]);
                assert(rem[k] == s.mvps[k0]);
                assert(s.mvps[i0].id != s.mvps[k0].id);
            }
        }
        assert(forall|i: int| 0 <= i < rem.len() ==> (#[trigger] rem[i]).wf()) by {
            assert forall|i: int| 0 <= i < rem.len() implies (#[trigger] rem[i]).wf() by {
                let i0: int = if i < j {
                    i
                } else {
                    i + 1
                };
                assert(rem[i] == s.mvps[i0]);
            }
        }
    }
}

proof fn lemma_vote_preserves_wf(s: StateView, caller: ActorId, id: u32)
    requires
        s.wf(),
    ensures
        s.vote_for_mvp_spec(caller, id).0.wf(),
{
    let s1 = s.vote_for_mvp_spec(caller, id).0;
    if s.contains_id(id) {
        let j = s.idx_of(id);
        assert(0 <= j < s.mvps.len() && s.mvps[j].id == id);
        let m = s.mvps[j];
        if m.voter_wallets.len() < MAX_VOTERS_PER_MVP && !m.voter_wallets.contains(caller)
            && m.positive_votes != u32::MAX {
            let mv = MvpView {
                positive_votes: (m.positive_votes + 1) as u32,
                voter_wallets: m.voter_wallets.push(caller),
                ..m
            };
            assert(mv.wf()) by {
                assert forall|p: int, q: int|
                    0 <= p < mv.voter_wallets.len() && 0 <= q < mv.voter_wallets.len() && p
                        != q implies mv.voter_wallets[p] != mv.voter_wallets[q] by {
                    if p < m.voter_wallets.len() && q < m.voter_wallets.len() {
                        assert(m.voter_wallets[p] != m.voter_wallets[q]);
                    } else if p < m.voter_wallets.len() {
                        assert(m.voter_wallets[p] != caller);
                    } else if q < m.voter_wallets.len() {
                        assert(m.voter_wallets[q] != caller);
                    }
                }
            }
            assert(s1.unique_ids()) by {
                assert forall|i: int, k: int|
                    0 <= i < k < s1.mvps.len() implies s1.mvps[i].id != s1.mvps[k].id by {
                    assert(s.mvps[i].id != s.mvps[k].id);
                    assert(s1.mvps[i].id == s.mvps[i].id);
                    assert(s1.mvps[k].id == s.mvps[k].id);
                }
            }
        }
    }
}

proof fn lemma_update_preserves_wf(s: StateView, caller: ActorId, id: u32, updated: MvpView)
    requires
        s.wf(),
    ensures
        s.update_mvp_info_spec(caller, id, updated).0.wf(),
{
    let s1 = s.update_mvp_info_spec(caller, id, updated).0;
    if s.contains_id(id) {
        let j = s.idx_of(id);
        assert(0 <= j < s.mvps.len() && s.mvps[j].id == id);
        let m = s.mvps[j];
        if m.owner == caller {
            assert(s1.unique_ids()) by {
                assert forall|i: int, k: int|
                    0 <= i < k < s1.mvps.len() implies s1.mvps[i].id != s1.mvps[k].id by {
                    assert(s.mvps[i].id != s.mvps[k].id);
                    assert(s1.mvps[i].id == s.mvps[i].id);
                    assert(s1.mvps[k].id == s.mvps[k].id);
                }
            }
        }
    }
}

/// A second vote by the same identity on the same record is rejected with
/// `AlreadyVoted` and changes nothing, provided the first vote did not fill
/// the record's voter set to capacity (at capacity the capacity check fires
/// first instead).
pub proof fn lemma_vote_twice_rejected(s: StateView, caller: ActorId, id: u32)
    requires
        s.wf(),
        s.vote_for_mvp_spec(caller, id).1 == Ok::<Events, Errors>(Events::VoteCasted),
        s.record(id).voter_wallets.len() + 1 < MAX_VOTERS_PER_MVP,
    ensures
        ({
            let s1 = s.vote_for_mvp_spec(caller, id).0;
            s1.vote_for_mvp_spec(caller, id) == (s1, Err::<Events, Errors>(Errors::AlreadyVoted))
        }),
{
    let s1 = s.vote_for_mvp_spec(caller, id).0;
    let j = s.idx_of(id);
    assert(0 <= j < s.mvps.len() && s.mvps[j].id == id);
    let m = s.mvps[j];
    let mv = MvpView {
        positive_votes: (m.positive_votes + 1) as u32,
        voter_wallets: m.voter_wallets.push(caller),
        ..m
    };
    assert(s1.mvps == s.mvps.update(j, mv));
    assert(s1.unique_ids()) by {
        assert forall|i: int, k: int|
            0 <= i < k < s1.mvps.len() implies s1.mvps[i].id != s1.mvps[k].id by {
            assert(s.mvps[i].id != s.mvps[k].id);
            assert(s1.mvps[i].id == s.mvps[i].id);
            assert(s1.mvps[k].id == s.mvps[k].id);
        }
    }
    lemma_idx_of_points(s1, id, j);
    assert(s1.record(id) == mv);
    assert(mv.voter_wallets.contains(caller)) by {
        assert(mv.voter_wallets[m.voter_wallets.len() as int] == caller);
    }
    assert(mv.voter_wallets.len() < MAX_VOTERS_PER_MVP);
}

/// A mutating admin-gated operation called by a non-admin identity returns
/// `Unauthorized` and leaves the store untouched, whatever its arguments.
pub proof fn lemma_non_admin_is_rejected(
    s: StateView,
    caller: ActorId,
    other: ActorId,
    mvp: MvpView,
    id: u32,
)
    requires
        !s.is_admin(caller),
    ensures
        s.add_admin_spec(caller, other) == (s, Err::<Events, Errors>(Errors::Unauthorized)),
        s.remove_admin_spec(caller, other) == (s, Err::<Events, Errors>(Errors::Unauthorized)),
        s.add_mvp_spec(caller, mvp) == (s, Err::<Events, Errors>(Errors::Unauthorized)),
        s.remove_mvp_spec(caller, id) == (s, Err::<Events, Errors>(Errors::Unauthorized)),
{
}

/// Below capacity, an admin's `add_mvp` of a fresh key succeeds and grows
/// both the record collection and the running counter by one.
pub proof fn lemma_add_mvp_succeeds(s: StateView, caller: ActorId, mvp: MvpView)
    requires
        s.wf(),
        s.is_admin(caller),
        s.mvps.len() < MAX_MVPS,
        !s.contains_id(mvp.id),
    ensures
        s.add_mvp_spec(caller, mvp).1 == Ok::<Events, Errors>(Events::MVPCreated),
        s.add_mvp_spec(caller, mvp).0.mvps.len() == s.mvps.len() + 1,
        s.add_mvp_spec(caller, mvp).0.all_mvps == s.all_mvps + 1,
{
}

/// At capacity, `add_mvp` fails with `MaxMVPsReached` and the store is
/// unchanged, whatever the submitted record.
pub proof fn lemma_add_mvp_at_capacity(s: StateView, caller: ActorId, mvp: MvpView)
    requires
        s.is_admin(caller),
        s.mvps.len() >= MAX_MVPS,
    ensures
        s.add_mvp_spec(caller, mvp) == (s, Err::<Events, Errors>(Errors::MaxMVPsReached)),
{
}

/// An admin's `remove_mvp` of a present key succeeds and shrinks both the
/// record collection and the running counter by one.
pub proof fn lemma_remove_mvp_succeeds(s: StateView, caller: ActorId, id: u32)
    requires
        s.wf(),
        s.is_admin(caller),
        s.contains_id(id),
    ensures
        s.remove_mvp_spec(caller, id).1 == Ok::<Events, Errors>(Events::MVPRemoved),
        s.remove_mvp_spec(caller, id).0.mvps.len() == s.mvps.len() - 1,
        s.remove_mvp_spec(caller, id).0.all_mvps == s.all_mvps - 1,
{
    let j = s.idx_of(id);
    assert(0 <= j < s.mvps.len() && s.mvps[j].id == id);
}

/// Removing an identity that is not in the admin set is a no-op that still
/// reports `AdminRemoved`; in particular the admin set keeps its size.
pub proof fn lemma_remove_absent_admin_is_noop(s: StateView, caller: ActorId, target: ActorId)
    requires
        s.is_admin(caller),
        !s.admins.contains(target),
    ensures
        s.remove_admin_spec(caller, target) == (s, Ok::<Events, Errors>(Events::AdminRemoved)),
{
    lemma_admins_without_absent(s.admins, target);
    assert(s.remove_admin_spec(caller, target).0 =~= s);
}

/// Dropping an identity that a sequence does not hold leaves the sequence
/// as it is.
pub proof fn lemma_admins_without_absent(s: Seq<ActorId>, t: ActorId)
    requires
        !s.contains(t),
    ensures
        admins_without(s, t) == s,
    decreases s.len(),
{
    if s.len() == 0 {
        assert(admins_without(s, t) =~= s);
    } else {
        let d = s.drop_last();
        assert(!d.contains(t)) by {
            if d.contains(t) {
                let i = choose|i: int| 0 <= i < d.len() && d[i] == t;
                assert(s[i] == t);
            }
        }
        lemma_admins_without_absent(d, t);
        assert(s.last() != t) by {
            assert(s[s.len() - 1] == s.last());
        }
        assert(admins_without(s, t) =~= s);
    }
}

/// In a well-formed store the running counter always equals the number of
/// registered records, so a snapshot's record count and its counter agree.
pub proof fn lemma_counter_tracks_records(s: StateView)
    requires
        s.wf(),
    ensures
        s.all_mvps == s.mvps.len(),
{
}

} // verus!
