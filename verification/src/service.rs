use vstd::prelude::*;

use crate::actor::ActorId;
use crate::state::views_of_mvps;
use crate::state::MvpView;
use crate::state::State;
use crate::state::StateView;
use crate::MAX_ADMINS;
use crate::MAX_MVPS;
use crate::MAX_VOTERS_PER_MVP;

verus! {

/// Success outcome reported by each operation.
#[derive(Clone, Copy, PartialEq, Eq, Structural, Debug)]
pub enum Events {
    MVPCreated,
    VoteCasted,
    MVPRemoved,
    AdminAdded,
    AdminRemoved,
    MVPUpdated,
}

/// Typed failure reported by each operation; a failing operation leaves the
/// store unchanged.
#[derive(Clone, Copy, PartialEq, Eq, Structural, Debug)]
pub enum Errors {
    Unauthorized,
    MVPNotFound,
    MaxAdminsReached,
    MaxVotersReached,
    MaxMVPsReached,
    AlreadyVoted,
    VotesOverflow,
    MVPCountUnderflow,
    MVPAlreadyExists,
}

/// The admin sequence with every occurrence of `t` removed, order kept.
pub open spec fn admins_without(s: Seq<ActorId>, t: ActorId) -> Seq<ActorId>
    decreases s.len(),
{
    if s.len() == 0 {
        Seq::empty()
    } else {
        let kept = admins_without(s.drop_last(), t);
        if s.last() == t {
            kept
        } else {
            kept.push(s.last())
        }
    }
}

/// The subsequence of records owned by `a`, order kept.
pub open spec fn owned_records(s: Seq<MvpView>, a: ActorId) -> Seq<MvpView>
    decreases s.len(),
{
    if s.len() == 0 {
        Seq::empty()
    } else {
        let kept = owned_records(s.drop_last(), a);
        if s.last().owner == a {
            kept.push(s.last())
        } else {
            kept
        }
    }
}

impl StateView {
    /// What `add_admin` decides: the caller must be an admin, the set must
    /// have room, and a `new_admin` already present is left alone (still a
    /// success); otherwise `new_admin` is appended.
    pub open spec fn add_admin_spec(self, caller: ActorId, new_admin: ActorId) -> (StateView,
        Result<Events, Errors>) {
        if !self.is_admin(caller) {
            (self, Err(Errors::Unauthorized))
        } else if self.admins.len() >= MAX_ADMINS {
            (self, Err(Errors::MaxAdminsReached))
        } else if self.admins.contains(new_admin) {
            (self, Ok(Events::AdminAdded))
        } else {
            ((StateView { admins: self.admins.push(new_admin), ..self }), Ok(Events::AdminAdded))
        }
    }

    /// What `remove_admin` decides: the caller must be an admin; the target
    /// is dropped from the set, and removing an absent target is a silent
    /// no-op that still reports success.
    pub open spec fn remove_admin_spec(self, caller: ActorId, target: ActorId) -> (StateView,
        Result<Events, Errors>) {
        if !self.is_admin(caller) {
            (self, Err(Errors::Unauthorized))
        } else {
            ((StateView { admins: admins_without(self.admins, target), ..self }), Ok(
                Events::AdminRemoved,
            ))
        }
    }

    /// What `add_mvp` decides: the caller must be an admin, the registry
    /// must have room, the key must be fresh, and the counter must not wrap
    /// (a defensive guard, unreachable from a well-formed store); the record
    /// is then appended verbatim and the counter incremented.
    pub open spec fn add_mvp_spec(self, caller: ActorId, mvp: MvpView) -> (StateView, Result<
        Events,
        Errors,
    >) {
        if !self.is_admin(caller) {
            (self, Err(Errors::Unauthorized))
        } else if self.mvps.len() >= MAX_MVPS {
            (self, Err(Errors::MaxMVPsReached))
        } else if self.contains_id(mvp.id) {
            (self, Err(Errors::MVPAlreadyExists))
        } else if self.all_mvps == u64::MAX {
            (self, Err(Errors::VotesOverflow))
        } else {
            (
                (StateView {
                    all_mvps: (self.all_mvps + 1) as u64,
                    mvps: self.mvps.push(mvp),
                    ..self
                }),
                Ok(Events::MVPCreated),
            )
        }
    }

    /// What `remove_mvp` decides: the caller must be an admin and the key
    /// present; the record is dropped and the counter decremented, with a
    /// defensive underflow guard that a well-formed store never reaches.
    pub open spec fn remove_mvp_spec(self, caller: ActorId, mvp_id: u32) -> (StateView, Result<
        Events,
        Errors,
    >) {
        if !self.is_admin(caller) {
            (self, Err(Errors::Unauthorized))
        } else if !self.contains_id(mvp_id) {
            (self, Err(Errors::MVPNotFound))
        } else if self.all_mvps == 0 {
            (self, Err(Errors::MVPCountUnderflow))
        } else {
            (
                (StateView {
                    all_mvps: (self.all_mvps - 1) as u64,
                    mvps: self.mvps.remove(self.idx_of(mvp_id)),
                    ..self
                }),
                Ok(Events::MVPRemoved),
            )
        }
    }

    /// What `vote_for_mvp` decides: the key must be present, the record's
    /// voter set must have room, and the caller must not have voted on it
    /// yet; the caller is then appended to the voter set and the tally
    /// incremented, with a defensive overflow guard that a well-formed
    /// record never reaches.
    pub open spec fn vote_for_mvp_spec(self, caller: ActorId, mvp_id: u32) -> (StateView, Result<
        Events,
        Errors,
    >) {
        if !self.contains_id(mvp_id) {
            (self, Err(Errors::MVPNotFound))
        } else {
            let i = self.idx_of(mvp_id);
            let m = self.mvps[i];
            if m.voter_wallets.len() >= MAX_VOTERS_PER_MVP {
                (self, Err(Errors::MaxVotersReached))
            } else if m.voter_wallets.contains(caller) {
                (self, Err(Errors::AlreadyVoted))
            } else if m.positive_votes == u32::MAX {
                (self, Err(Errors::VotesOverflow))
            } else {
                (
                    (StateView {
                        mvps: self.mvps.update(
                            i,
                            MvpView {
                                positive_votes: (m.positive_votes + 1) as u32,
                                voter_wallets: m.voter_wallets.push(caller),
                                ..m
                            },
                        ),
                        ..self
                    }),
                    Ok(Events::VoteCasted),
                )
            }
        }
    }

    /// What `update_mvp_info` decides: the key must be present and the
    /// caller must be the record's owner (ownership-gated, not admin-gated);
    /// the five descriptive fields are then overwritten while `id`, `owner`,
    /// the tally and the voter set are untouched.
    pub open spec fn update_mvp_info_spec(self, caller: ActorId, mvp_id: u32, updated: MvpView) -> (
        StateView,
        Result<Events, Errors>,
    ) {
        if !self.contains_id(mvp_id) {
            (self, Err(Errors::MVPNotFound))
        } else {
            let i = self.idx_of(mvp_id);
            let m = self.mvps[i];
            if m.owner != caller {
                (self, Err(Errors::Unauthorized))
            } else {
                (
                    (StateView {
                        mvps: self.mvps.update(
                            i,
                            MvpView {
                                project_name: updated.project_name,
                                description: updated.description,
                                logo: updated.logo,
                                repository: updated.repository,
                                video_demo: updated.video_demo,
                                ..m
                            },
                        ),
                        ..self
                    }),
                    Ok(Events::MVPUpdated),
                )
            }
        }
    }
}

/// Removing one identity from a sequence keeps every other element, drops
/// the target entirely, never grows the sequence, and preserves freedom
/// from duplicates.
pub proof fn lemma_admins_without(s: Seq<ActorId>, t: ActorId)
    ensures
        admins_without(s, t).len() <= s.len(),
        !admins_without(s, t).contains(t),
        forall|x: ActorId| #[trigger] admins_without(s, t).contains(x) ==> s.contains(x),
        forall|x: ActorId| x != t && s.contains(x) ==> #[trigger] admins_without(s, t).contains(x),
        s.no_duplicates() ==> admins_without(s, t).no_duplicates(),
    decreases s.len(),
{
    if s.len() == 0 {
    } else {
        let d = s.drop_last();
        lemma_admins_without(d, t);
        let kept = admins_without(d, t);
        let out = admins_without(s, t);
        assert(forall|x: ActorId| #[trigger] d.contains(x) ==> s.contains(x)) by {
            assert forall|x: ActorId| #[trigger] d.contains(x) implies s.contains(x) by {
                let i = choose|i: int| 0 <= i < d.len() && d[i] == x;
                assert(s[i] == x);
            }
        }
        assert forall|x: ActorId| x != t && s.contains(x) implies #[trigger] out.contains(x) by {
            let i = choose|i: int| 0 <= i < s.len() && s[i] == x;
            if i < s.len() - 1 {
                assert(d[i] == x);
                assert(d.contains(x));
                assert(kept.contains(x));
                if s.last() != t {
                    assert(forall|k: int|
                        0 <= k < kept.len() ==> out[k] == kept[k] && kept[k] == #[trigger] out[k]);
                    let j = choose|j: int| 0 <= j < kept.len() && kept[j] == x;
                    assert(out[j] == x);
                }
            } else {
                assert(s.last() == x);
                assert(out.last() == x);
            }
        }
        assert forall|x: ActorId| #[trigger] out.contains(x) implies s.contains(x) by {
            let i = choose|i: int| 0 <= i < out.len() && out[i] == x;
            if s.last() == t {
                assert(kept.contains(x));
                assert(d.contains(x));
            } else {
                if i < out.len() - 1 {
                    assert(kept[i] == x);
                    assert(kept.contains(x));
                    assert(d.contains(x));
                } else {
                    assert(x == s.last());
                    assert(s.contains(x)) by {
                        assert(s[s.len() - 1] == s.last());
                    }
                }
            }
        }
        if s.no_duplicates() {
            assert(d.no_duplicates());
            assert(kept.no_duplicates());
            if s.last() != t {
                assert(!d.contains(s.last())) by {
                    if d.contains(s.last()) {
                        let i = choose|i: int| 0 <= i < d.len() && d[i] == s.last();
                        assert(s[i] == s[s.len() - 1]);
                    }
                }
                assert(!kept.contains(s.last()));
                assert(out.no_duplicates()) by {
                    assert(forall|i: int|
                        0 <= i < kept.len() ==> #[trigger] out[i] == kept[i]);
                    assert(out.last() == s.last());
                    assert(forall|i: int|
                        0 <= i < kept.len() ==> #[trigger] kept[i] != s.last()) by {
                        assert forall|i: int|
                            0 <= i < kept.len() implies #[trigger] kept[i] != s.last() by {
                            if kept[i] == s.last() {
                                assert(kept.contains(s.last()));
                            }
                        }
                    }
                }
            }
        }
    }
}

/// In a store with unique keys, any position holding key `id` is the
/// position `idx_of(id)` picks.
pub proof fn lemma_idx_of_points(s: StateView, id: u32, j: int)
    requires
        s.unique_ids(),
        0 <= j < s.mvps.len(),
        s.mvps[j].id == id,
    ensures
        s.contains_id(id),
        s.idx_of(id) == j,
{
    assert(s.contains_id(id));
    let i = s.idx_of(id);
    assert(0 <= i < s.mvps.len() && s.mvps[i].id == id);
    if i != j {
        if i < j {
            assert(s.mvps[i].id != s.mvps[j].id);
        } else {
            assert(s.mvps[j].id != s.mvps[i].id);
        }
    }
}

/// Record views index into the underlying records one for one.
proof fn lemma_view_ids(v: Seq<crate::state::MVP>)
    ensures
        views_of_mvps(v).len() == v.len(),
        forall|k: int| 0 <= k < v.len() ==> #[trigger] views_of_mvps(v)[k] == v[k]@,
{
}

/// Whether `a` occurs in `v`.
fn contains_actor(v: &Vec<ActorId>, a: ActorId) -> (b: bool)
    ensures
        b == v@.contains(a),
{
    let mut i: usize = 0;
    while i < v.len()
        invariant
            i <= v@.len(),
            forall|k: int| 0 <= k < i ==> v@[k] != a,
        decreases v@.len() - i,
    {
        if v[i] == a {
            proof {
                assert(v@[i as int] == a);
            }
            return true;
        }
        i = i + 1;
    }
    proof {
        assert(!v@.contains(a));
    }
    false
}

/// The position of the record with key `id`, if one is registered.
fn find_mvp(v: &Vec<crate::state::MVP>, id: u32) -> (r: Option<usize>)
    ensures
        (match r {
            Option::Some(j) => j < v@.len() && v@[j as int].id == id,
            Option::None => forall|k: int| 0 <= k < v@.len() ==> v@[k].id != id,
        }),
{
    let mut i: usize = 0;
    while i < v.len()
        invariant
            i <= v@.len(),
            forall|k: int| 0 <= k < i ==> v@[k].id != id,
        decreases v@.len() - i,
    {
        if v[i].id == id {
            return Some(i);
        }
        i = i + 1;
    }
    None
}

/// An owned copy of a wallet list.
fn copy_actors(v: &Vec<ActorId>) -> (r: Vec<ActorId>)
    ensures
        r@ == v@,
{
    let mut r: Vec<ActorId> = Vec::new();
    let mut i: usize = 0;
    while i < v.len()
        invariant
            i <= v@.len(),
            r@ =~= v@.take(i as int),
        decreases v@.len() - i,
    {
        r.push(v[i]);
        proof {
            assert(v@.take(i + 1) =~= v@.take(i as int).push(v@[i as int]));
        }
        i = i + 1;
    }
    proof {
        assert(v@.take(v@.len() as int) =~= v@);
    }
    r
}

/// An owned copy of one record, equal in value to what it copies.
fn clone_mvp(m: &crate::state::MVP) -> (r: crate::state::MVP)
    ensures
        r@ == m@,
{
    let r = crate::state::MVP {
        id: m.id,
        owner: m.owner,
        project_name: m.project_name.clone(),
        description: m.description.clone(),
        logo: m.logo.clone(),
        repository: m.repository.clone(),
        video_demo: m.video_demo.clone(),
        positive_votes: m.positive_votes,
        voter_wallets: copy_actors(&m.voter_wallets),
    };
    proof {
        assert(r@ =~= m@);
    }
    r
}

/// An owned copy of the record collection, equal in value to what it copies.
fn copy_mvps(v: &Vec<crate::state::MVP>) -> (r: Vec<crate::state::MVP>)
    ensures
        views_of_mvps(r@) == views_of_mvps(v@),
{
    let mut r: Vec<crate::state::MVP> = Vec::new();
    let mut i: usize = 0;
    while i < v.len()
        invariant
            i <= v@.len(),
            views_of_mvps(r@) =~= views_of_mvps(v@).take(i as int),
        decreases v@.len() - i,
    {
        let c = clone_mvp(&v[i]);
        let ghost r0 = r@;
        r.push(c);
        proof {
            lemma_view_ids(r0);
            lemma_view_ids(r@);
            lemma_view_ids(v@);
            assert(views_of_mvps(r@) =~= views_of_mvps(v@).take(i + 1));
        }
        i = i + 1;
    }
    proof {
        assert(views_of_mvps(v@).take(v@.len() as int) =~= views_of_mvps(v@));
    }
    r
}

/// The registry engine: owns the store, validates authorization and business
/// rules for each operation, applies the mutation, and reports an event or a
/// typed error.
///
/// Every operation's contract assumes a well-formed store (`wf`), which
/// `seed` establishes and every operation preserves; a handle obtained from
/// `seed` therefore stays well formed for its whole life.
pub struct Service {
    pub state: State,
}

impl View for Service {
    type V = StateView;

    open spec fn view(&self) -> StateView {
        self.state@
    }
}

impl Service {
    /// The engine is well formed when its store is.
    pub open spec fn wf(self) -> bool {
        self@.wf()
    }

    /// Seeds a fresh registry whose only admin is `admin`.
    pub fn seed(admin: ActorId) -> (s: Service)
        ensures
            s@.all_mvps == 0,
            s@.admins == seq![admin],
            s@.mvps == Seq::<MvpView>::empty(),
            s.wf(),
    {
        Service::new(State::new(admin))
    }

    /// Wraps an already constructed store.
    pub fn new(state: State) -> (s: Service)
        ensures
            s@ == state@,
    {
        Service { state }
    }

    /// Appends `new_admin` to the admin set, exactly as `add_admin_spec`
    /// describes; on any failure the store is unchanged.
    pub fn add_admin(&mut self, caller: ActorId, new_admin: ActorId) -> (res: Result<
        Events,
        Errors,
    >)
        requires
            old(self).wf(),
        ensures
            final(self).wf(),
            ({
                let (s, r) = old(self)@.add_admin_spec(caller, new_admin);
                final(self)@ == s && res == r
            }),
    {
        if !contains_actor(&self.state.admins, caller) {
            return Err(Errors::Unauthorized);
        }
        if self.state.admins.len() >= MAX_ADMINS {
            return Err(Errors::MaxAdminsReached);
        }
        let ghost s0 = self@;
        if !contains_actor(&self.state.admins, new_admin) {
            self.state.admins.push(new_admin);
            proof {
                assert(self@ =~= (StateView { admins: s0.admins.push(new_admin), ..s0 }));
                assert(self@.admins.no_duplicates()) by {
                    assert forall|i: int, j: int|
                        0 <= i < self@.admins.len() && 0 <= j < self@.admins.len() && i != j
                        implies self@.admins[i] != self@.admins[j] by {
                        if i < s0.admins.len() && j < s0.admins.len() {
                            assert(s0.admins[i] != s0.admins[j]);
                        }
                    }
                }
            }
        }
        Ok(Events::AdminAdded)
    }

    /// Drops `admin_to_remove` from the admin set, exactly as
    /// `remove_admin_spec` describes; removing an absent identity is a
    /// silent no-op that still reports success.
    pub fn remove_admin(&mut self, caller: ActorId, admin_to_remove: ActorId) -> (res: Result<
        Events,
        Errors,
    >)
        requires
            old(self).wf(),
        ensures
            final(self).wf(),
            ({
                let (s, r) = old(self)@.remove_admin_spec(caller, admin_to_remove);
                final(self)@ == s && res == r
            }),
    {
        if !contains_actor(&self.state.admins, caller) {
            return Err(Errors::Unauthorized);
        }
        let ghost s0 = self@;
        let ghost a0 = self.state.admins@;
        let n: usize = self.state.admins.len();
        let mut kept: Vec<ActorId> = Vec::new();
        let mut i: usize = 0;
        while i < n
            invariant
                i <= n,
                n == self.state.admins@.len(),
                self.state.admins@ == a0,
                kept@ =~= admins_without(a0.take(i as int), admin_to_remove),
            decreases n - i,
        {
            let x = self.state.admins[i];
            proof {
                assert(a0.take(i + 1).drop_last() =~= a0.take(i as int));
                assert(a0.take(i + 1).last() == a0[i as int]);
            }
            if x != admin_to_remove {
                kept.push(x);
            }
            i = i + 1;
        }
        proof {
            assert(a0.take(n as int) =~= a0);
        }
        self.state.admins = kept;
        proof {
            lemma_admins_without(a0, admin_to_remove);
            assert(self@ =~= (StateView {
                admins: admins_without(s0.admins, admin_to_remove),
                ..s0
            }));
        }
        Ok(Events::AdminRemoved)
    }

    /// Registers `mvp` under its key, exactly as `add_mvp_spec` describes.
    /// The record is inserted verbatim, `owner` included, which need not
    /// equal `caller`; the submitted record itself must be well formed.
    pub fn add_mvp(&mut self, caller: ActorId, mvp: crate::state::MVP) -> (res: Result<
        Events,
        Errors,
    >)
        requires
            old(self).wf(),
            mvp@.wf(),
        ensures
            final(self).wf(),
            ({
                let (s, r) = old(self)@.add_mvp_spec(caller, mvp@);
                final(self)@ == s && res == r
            }),
    {
        if !contains_actor(&self.state.admins, caller) {
            return Err(Errors::Unauthorized);
        }
        if self.state.mvps.len() >= MAX_MVPS {
            return Err(Errors::MaxMVPsReached);
        }
        proof {
            lemma_view_ids(self.state.mvps@);
        }
        match find_mvp(&self.state.mvps, mvp.id) {
            Option::Some(j) => {
                proof {
                    assert(self@.mvps[j as int].id == mvp@.id);
                    assert(self@.contains_id(mvp@.id));
                }
                return Err(Errors::MVPAlreadyExists);
            },
            Option::None => {
                proof {
                    assert(!self@.contains_id(mvp@.id));
                }
            },
        }
        let next = match self.state.all_mvps.checked_add(1) {
            Option::None => {
                return Err(Errors::VotesOverflow);
            },
            Option::Some(n) => n,
        };
        let ghost s0 = self@;
        let ghost mv = mvp@;
        self.state.mvps.push(mvp);
        self.state.all_mvps = next;
        proof {
            lemma_view_ids(self.state.mvps@);
            assert(views_of_mvps(self.state.mvps@) =~= s0.mvps.push(mv));
            assert(self@ =~= (StateView {
                all_mvps: (s0.all_mvps + 1) as u64,
                mvps: s0.mvps.push(mv),
                ..s0
            }));
            assert(self@.unique_ids()) by {
                assert forall|i: int, j: int|
                    0 <= i < j < self@.mvps.len() implies self@.mvps[i].id != self@.mvps[j].id by {
                    if j < s0.mvps.len() {
                        assert(s0.mvps[i].id != s0.mvps[j].id);
                    } else {
                        assert(self@.mvps[j] == mv);
                        assert(s0.mvps[i].id != mv.id);
                    }
                }
            }
        }
        Ok(Events::MVPCreated)
    }

    /// Unregisters the record under `mvp_id`, exactly as `remove_mvp_spec`
    /// describes.
    pub fn remove_mvp(&mut self, caller: ActorId, mvp_id: u32) -> (res: Result<Events, Errors>)
        requires
            old(self).wf(),
        ensures
            final(self).wf(),
            ({
                let (s, r) = old(self)@.remove_mvp_spec(caller, mvp_id);
                final(self)@ == s && res == r
            }),
    {
        if !contains_actor(&self.state.admins, caller) {
            return Err(Errors::Unauthorized);
        }
        proof {
            lemma_view_ids(self.state.mvps@);
        }
        let j = match find_mvp(&self.state.mvps, mvp_id) {
            Option::None => {
                proof {
                    assert(!self@.contains_id(mvp_id));
                }
                return Err(Errors::MVPNotFound);
            },
            Option::Some(j) => j,
        };
        proof {
            lemma_idx_of_points(self@, mvp_id, j as int);
        }
        let next = match self.state.all_mvps.checked_sub(1) {
            Option::None => {
                return Err(Errors::MVPCountUnderflow);
            },
            Option::Some(n) => n,
        };
        let ghost s0 = self@;
        self.state.mvps.remove(j);
        self.state.all_mvps = next;
        proof {
            lemma_view_ids(self.state.mvps@);
            assert(views_of_mvps(self.state.mvps@) =~= s0.mvps.remove(j as int));
            assert(self@ =~= (StateView {
                all_mvps: (s0.all_mvps - 1) as u64,
                mvps: s0.mvps.remove(s0.idx_of(mvp_id)),
                ..s0
            }));
            let rem = s0.mvps.remove(j as int);
            assert(forall|k: int| 0 <= k < j ==> #[trigger] rem[k] == s0.mvps[k]);
            assert(forall|k: int| j <= k < rem.len() ==> #[trigger] rem[k] == s0.mvps[k + 1]);
            assert(self@.unique_ids()) by {
                assert forall|i: int, k: int|
                    0 <= i < k < rem.len() implies rem[i].id != rem[k].id by {
                    let i0: int = if i < j { i } else { i + 1 };
                    let k0: int = if k < j { k } else { k + 1 };
                    assert(rem[i] == s0.mvps[i0]);
                    assert(rem[k] == s0.mvps[k0]);
                    assert(s0.mvps[i0].id != s0.mvps[k0].id);
                }
            }
            assert(forall|i: int| 0 <= i < rem.len() ==> (#[trigger] rem[i]).wf()) by {
                assert forall|i: int| 0 <= i < rem.len() implies (#[trigger] rem[i]).wf() by {
                    let i0: int = if i < j { i } else { i + 1 };
                    assert(rem[i] == s0.mvps[i0]);
                }
            }
        }
        Ok(Events::MVPRemoved)
    }

    /// Casts `caller`'s vote on the record under `mvp_id`, exactly as
    /// `vote_for_mvp_spec` describes: one vote per identity per record.
    pub fn vote_for_mvp(&mut self, caller: ActorId, mvp_id: u32) -> (res: Result<Events, Errors>)
        requires
            old(self).wf(),
        ensures
            final(self).wf(),
            ({
                let (s, r) = old(self)@.vote_for_mvp_spec(caller, mvp_id);
                final(self)@ == s && res == r
            }),
    {
        proof {
            lemma_view_ids(self.state.mvps@);
        }
        let j = match find_mvp(&self.state.mvps, mvp_id) {
            Option::None => {
                proof {
                    assert(!self@.contains_id(mvp_id));
                }
                return Err(Errors::MVPNotFound);
            },
            Option::Some(j) => j,
        };
        proof {
            lemma_idx_of_points(self@, mvp_id, j as int);
        }
        if self.state.mvps[j].voter_wallets.len() >= MAX_VOTERS_PER_MVP {
            return Err(Errors::MaxVotersReached);
        }
        if contains_actor(&self.state.mvps[j].voter_wallets, caller) {
            return Err(Errors::AlreadyVoted);
        }
        let next = match self.state.mvps[j].positive_votes.checked_add(1) {
            Option::None => {
                return Err(Errors::VotesOverflow);
            },
            Option::Some(n) => n,
        };
        let ghost s0 = self@;
        let ghost v0 = self.state.mvps@;
        let mut m = self.state.mvps.remove(j);
        m.positive_votes = next;
        m.voter_wallets.push(caller);
        self.state.mvps.insert(j, m);
        proof {
            let mv = MvpView {
                positive_votes: (s0.mvps[j as int].positive_votes + 1) as u32,
                voter_wallets: s0.mvps[j as int].voter_wallets.push(caller),
                ..s0.mvps[j as int]
            };
            assert(self.state.mvps@ =~= v0.update(j as int, self.state.mvps@[j as int]));
            lemma_view_ids(self.state.mvps@);
            lemma_view_ids(v0);
            assert(self.state.mvps@[j as int]@ =~= mv);
            assert(views_of_mvps(self.state.mvps@) =~= s0.mvps.update(j as int, mv));
            assert(self@ =~= (StateView { mvps: s0.mvps.update(j as int, mv), ..s0 }));
            assert(mv.wf()) by {
                assert(mv.voter_wallets.no_duplicates()) by {
                    assert forall|p: int, q: int|
                        0 <= p < mv.voter_wallets.len() && 0 <= q < mv.voter_wallets.len() && p
                            != q implies mv.voter_wallets[p] != mv.voter_wallets[q] by {
                        let w0 = s0.mvps[j as int].voter_wallets;
                        if p < w0.len() && q < w0.len() {
                            assert(w0[p] != w0[q]);
                        } else if p < w0.len() {
                            assert(w0[p] != caller);
                        } else if q < w0.len() {
                            assert(w0[q] != caller);
                        }
                    }
                }
            }
            assert(self@.unique_ids()) by {
                assert forall|i: int, k: int|
                    0 <= i < k < self@.mvps.len() implies self@.mvps[i].id != self@.mvps[k].id by {
                    assert(s0.mvps[i].id != s0.mvps[k].id);
                    assert(self@.mvps[i].id == s0.mvps[i].id);
                    assert(self@.mvps[k].id == s0.mvps[k].id);
                }
            }
        }
        Ok(Events::VoteCasted)
    }

    /// Overwrites the descriptive fields of the record under `mvp_id` with
    /// those of `updated_mvp`, exactly as `update_mvp_info_spec` describes;
    /// only the record's owner may do so.
    pub fn update_mvp_info(&mut self, caller: ActorId, mvp_id: u32, updated_mvp: crate::state::MVP)
        -> (res: Result<Events, Errors>)
        requires
            old(self).wf(),
        ensures
            final(self).wf(),
            ({
                let (s, r) = old(self)@.update_mvp_info_spec(caller, mvp_id, updated_mvp@);
                final(self)@ == s && res == r
            }),
    {
        proof {
            lemma_view_ids(self.state.mvps@);
        }
        let j = match find_mvp(&self.state.mvps, mvp_id) {
            Option::None => {
                proof {
                    assert(!self@.contains_id(mvp_id));
                }
                return Err(Errors::MVPNotFound);
            },
            Option::Some(j) => j,
        };
        proof {
            lemma_idx_of_points(self@, mvp_id, j as int);
        }
        if self.state.mvps[j].owner != caller {
            return Err(Errors::Unauthorized);
        }
        let ghost s0 = self@;
        let ghost v0 = self.state.mvps@;
        let ghost uv = updated_mvp@;
        let mut m = self.state.mvps.remove(j);
        let crate::state::MVP { project_name, description, logo, repository, video_demo, .. } =
            updated_mvp;
        m.project_name = project_name;
        m.description = description;
        m.logo = logo;
        m.repository = repository;
        m.video_demo = video_demo;
        self.state.mvps.insert(j, m);
        proof {
            let mv = MvpView {
                project_name: uv.project_name,
                description: uv.description,
                logo: uv.logo,
                repository: uv.repository,
                video_demo: uv.video_demo,
                ..s0.mvps[j as int]
            };
            assert(self.state.mvps@ =~= v0.update(j as int, self.state.mvps@[j as int]));
            lemma_view_ids(self.state.mvps@);
            lemma_view_ids(v0);
            assert(self.state.mvps@[j as int]@ =~= mv);
            assert(views_of_mvps(self.state.mvps@) =~= s0.mvps.update(j as int, mv));
            assert(self@ =~= (StateView { mvps: s0.mvps.update(j as int, mv), ..s0 }));
            assert(self@.unique_ids()) by {
                assert forall|i: int, k: int|
                    0 <= i < k < self@.mvps.len() implies self@.mvps[i].id != self@.mvps[k].id by {
                    assert(s0.mvps[i].id != s0.mvps[k].id);
                    assert(self@.mvps[i].id == s0.mvps[i].id);
                    assert(self@.mvps[k].id == s0.mvps[k].id);
                }
            }
        }
        Ok(Events::MVPUpdated)
    }

    /// The running counter of registered records.
    pub fn all_mvps(&self) -> (n: u64)
        ensures
            n == self@.all_mvps,
    {
        self.state.all_mvps
    }

    /// A fully owned snapshot of the whole store, equal in value to the
    /// live state and aliasing none of it.
    pub fn mvps_list(&self) -> (r: crate::state::IoState)
        ensures
            r@ == self@,
    {
        let r = crate::state::IoState {
            all_mvps: self.state.all_mvps,
            admins: copy_actors(&self.state.admins),
            mvps: copy_mvps(&self.state.mvps),
        };
        proof {
            assert(r@ =~= self@);
        }
        r
    }

    /// Owned copies of exactly the records whose `owner` equals `actor_id`,
    /// in registration order.
    pub fn mvps_by_actor(&self, actor_id: ActorId) -> (r: Vec<crate::state::MVP>)
        ensures
            views_of_mvps(r@) == owned_records(self@.mvps, actor_id),
    {
        let mut r: Vec<crate::state::MVP> = Vec::new();
        let mut i: usize = 0;
        while i < self.state.mvps.len()
            invariant
                i <= self.state.mvps@.len(),
                views_of_mvps(r@) =~= owned_records(
                    views_of_mvps(self.state.mvps@).take(i as int),
                    actor_id,
                ),
            decreases self.state.mvps@.len() - i,
    {
            proof {
                lemma_view_ids(self.state.mvps@);
                assert(views_of_mvps(self.state.mvps@).take(i + 1).drop_last()
                    =~= views_of_mvps(self.state.mvps@).take(i as int));
                assert(views_of_mvps(self.state.mvps@).take(i + 1).last()
                    == views_of_mvps(self.state.mvps@)[i as int]);
            }
            if self.state.mvps[i].owner == actor_id {
                let c = clone_mvp(&self.state.mvps[i]);
                let ghost r0 = r@;
                r.push(c);
                proof {
                    lemma_view_ids(r0);
                    lemma_view_ids(r@);
                    assert(views_of_mvps(r@) =~= owned_records(
                        views_of_mvps(self.state.mvps@).take(i + 1),
                        actor_id,
                    ));
                }
            }
            i = i + 1;
        }
        proof {
            assert(views_of_mvps(self.state.mvps@).take(self.state.mvps@.len() as int)
                =~= views_of_mvps(self.state.mvps@));
        }
        r
    }
}

} // verus!
