use vstd::prelude::*;

use crate::actor::ActorId;
use crate::MAX_ADMINS;
use crate::MAX_MVPS;
use crate::MAX_VOTERS_PER_MVP;

verus! {

/// One registry entry: a submitted project together with its vote tally
/// and the set of identities that have voted for it.
#[derive(Clone, Debug, PartialEq)]
pub struct MVP {
    pub id: u32,
    pub owner: ActorId,
    pub project_name: String,
    pub description: String,
    pub logo: String,
    pub repository: String,
    pub video_demo: String,
    pub positive_votes: u32,
    pub voter_wallets: Vec<ActorId>,
}

/// The mathematical value of an `MVP` record.
#[verifier::ext_equal]
pub ghost struct MvpView {
    pub id: u32,
    pub owner: ActorId,
    pub project_name: Seq<char>,
    pub description: Seq<char>,
    pub logo: Seq<char>,
    pub repository: Seq<char>,
    pub video_demo: Seq<char>,
    pub positive_votes: u32,
    pub voter_wallets: Seq<ActorId>,
}

impl View for MVP {
    type V = MvpView;

    open spec fn view(&self) -> MvpView {
        MvpView {
            id: self.id,
            owner: self.owner,
            project_name: self.project_name@,
            description: self.description@,
            logo: self.logo@,
            repository: self.repository@,
            video_demo: self.video_demo@,
            positive_votes: self.positive_votes,
            voter_wallets: self.voter_wallets@,
        }
    }
}

impl MvpView {
    /// A record is well formed when its tally equals the size of its voter
    /// set, no identity appears in the voter set twice, and the voter set
    /// is within capacity.
    pub open spec fn wf(self) -> bool {
        &&& self.positive_votes == self.voter_wallets.len()
        &&& self.voter_wallets.no_duplicates()
        &&& self.voter_wallets.len() <= MAX_VOTERS_PER_MVP
    }
}

/// The record views of a sequence of records.
pub open spec fn views_of_mvps(s: Seq<MVP>) -> Seq<MvpView> {
    s.map_values(|m: MVP| m@)
}

/// The authoritative store: the admin set, the record collection (an
/// insertion-ordered vector whose ids are unique, standing for a map keyed
/// by id), and the running count of records currently registered.
pub struct State {
    pub all_mvps: u64,
    pub admins: Vec<ActorId>,
    pub mvps: Vec<MVP>,
}

/// The mathematical value of the whole store.
#[verifier::ext_equal]
pub ghost struct StateView {
    pub all_mvps: u64,
    pub admins: Seq<ActorId>,
    pub mvps: Seq<MvpView>,
}

impl View for State {
    type V = StateView;

    open spec fn view(&self) -> StateView {
        StateView {
            all_mvps: self.all_mvps,
            admins: self.admins@,
            mvps: views_of_mvps(self.mvps@),
        }
    }
}

impl StateView {
    /// Whether `a` is authorized for admin-gated operations.
    pub open spec fn is_admin(self, a: ActorId) -> bool {
        self.admins.contains(a)
    }

    /// Whether a record with key `id` is registered.
    pub open spec fn contains_id(self, id: u32) -> bool {
        exists|i: int| 0 <= i < self.mvps.len() && self.mvps[i].id == id
    }

    /// The position of the record with key `id`; meaningful only when
    /// `contains_id(id)` holds (and then unique, given `unique_ids()`).
    pub open spec fn idx_of(self, id: u32) -> int {
        choose|i: int| 0 <= i < self.mvps.len() && self.mvps[i].id == id
    }

    /// The record registered under `id`.
    pub open spec fn record(self, id: u32) -> MvpView {
        self.mvps[self.idx_of(id)]
    }

    /// No two records share a key.
    pub open spec fn unique_ids(self) -> bool {
        forall|i: int, j: int|
            #![trigger self.mvps[i].id, self.mvps[j].id]
            0 <= i < j < self.mvps.len() ==> self.mvps[i].id != self.mvps[j].id
    }

    /// Structural invariant of the store: the admin set holds no duplicate
    /// and is within capacity, record keys are unique and within capacity,
    /// every record is well formed, and the running counter equals the
    /// number of registered records.
    pub open spec fn wf(self) -> bool {
        &&& self.admins.no_duplicates()
        &&& self.admins.len() <= MAX_ADMINS
        &&& self.mvps.len() <= MAX_MVPS
        &&& self.unique_ids()
        &&& (forall|i: int| 0 <= i < self.mvps.len() ==> (#[trigger] self.mvps[i]).wf())
        &&& self.all_mvps == self.mvps.len()
    }
}

impl State {
    /// Establishes the zero state: the admin set `{initial_admin}`, no
    /// records, and a zero counter.
    pub fn new(initial_admin: ActorId) -> (s: State)
        ensures
            s@.all_mvps == 0,
            s@.admins == seq![initial_admin],
            s@.mvps == Seq::<MvpView>::empty(),
            s@.wf(),
    {
        let mut admins: Vec<ActorId> = Vec::new();
        admins.push(initial_admin);
        let mvps: Vec<MVP> = Vec::new();
        proof {
            assert(admins@ =~= seq![initial_admin]);
            assert(views_of_mvps(mvps@) =~= Seq::<MvpView>::empty());
        }
        State { all_mvps: 0, admins, mvps }
    }
}

/// A fully owned snapshot of the store at a point in time, safe to hand to
/// a caller without aliasing the live collections.
#[derive(Clone, Debug, PartialEq)]
pub struct IoState {
    pub all_mvps: u64,
    pub admins: Vec<ActorId>,
    pub mvps: Vec<MVP>,
}

impl View for IoState {
    type V = StateView;

    open spec fn view(&self) -> StateView {
        StateView {
            all_mvps: self.all_mvps,
            admins: self.admins@,
            mvps: views_of_mvps(self.mvps@),
        }
    }
}

impl vstd::std_specs::convert::FromSpecImpl<State> for IoState {
    open spec fn obeys_from_spec() -> bool {
        true
    }

    open spec fn from_spec(t: State) -> IoState {
        IoState { all_mvps: t.all_mvps, admins: t.admins, mvps: t.mvps }
    }
}

impl From<State> for IoState {
    fn from(value: State) -> (r: IoState) {
        let State { all_mvps, admins, mvps } = value;
        IoState { all_mvps, admins, mvps }
    }
}

} // verus!
