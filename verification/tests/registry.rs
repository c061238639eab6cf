use mvp_registry::actor::ActorId;
use mvp_registry::service::Errors;
use mvp_registry::service::Events;
use mvp_registry::service::Service;
use mvp_registry::state::IoState;
use mvp_registry::state::MVP;
use mvp_registry::MAX_ADMINS;
use mvp_registry::MAX_MVPS;
use mvp_registry::MAX_VOTERS_PER_MVP;

fn actor(n: u64) -> ActorId {
    ActorId::new(n, 0, 0, 0)
}

fn sample_mvp(id: u32, owner: ActorId) -> MVP {
    MVP {
        id,
        owner,
        project_name: format!("project {}", id),
        description: String::from("a demo project"),
        logo: String::from("logo.png"),
        repository: String::from("repo.git"),
        video_demo: String::from("demo.mp4"),
        positive_votes: 0,
        voter_wallets: vec![],
    }
}

fn record(snapshot: &IoState, id: u32) -> MVP {
    snapshot
        .mvps
        .iter()
        .find(|m| m.id == id)
        .expect("record should be registered")
        .clone()
}

#[test]
fn seed_establishes_zero_state() {
    let a = actor(1);
    let svc = Service::seed(a);
    let snap = svc.mvps_list();
    assert_eq!(snap.all_mvps, 0);
    assert_eq!(snap.admins, vec![a]);
    assert!(snap.mvps.is_empty());
    assert_eq!(svc.all_mvps(), 0);
}

#[test]
fn tally_always_matches_voter_set() {
    let a = actor(1);
    let mut svc = Service::seed(a);
    assert_eq!(svc.add_mvp(a, sample_mvp(1, actor(2))), Ok(Events::MVPCreated));
    for v in 10..15 {
        assert_eq!(svc.vote_for_mvp(actor(v), 1), Ok(Events::VoteCasted));
        let m = record(&svc.mvps_list(), 1);
        assert_eq!(m.positive_votes as usize, m.voter_wallets.len());
    }
    let m = record(&svc.mvps_list(), 1);
    assert_eq!(m.positive_votes, 5);
}

#[test]
fn voting_twice_yields_already_voted_and_changes_nothing() {
    let a = actor(1);
    let c = actor(3);
    let mut svc = Service::seed(a);
    assert_eq!(svc.add_mvp(a, sample_mvp(1, actor(2))), Ok(Events::MVPCreated));
    assert_eq!(svc.vote_for_mvp(c, 1), Ok(Events::VoteCasted));
    let before = svc.mvps_list();
    assert_eq!(svc.vote_for_mvp(c, 1), Err(Errors::AlreadyVoted));
    let after = svc.mvps_list();
    assert_eq!(before, after);
    let m = record(&after, 1);
    assert_eq!(m.positive_votes, 1);
    assert_eq!(m.voter_wallets, vec![c]);
}

#[test]
fn non_admin_calls_are_unauthorized_and_leave_state_unchanged() {
    let a = actor(1);
    let outsider = actor(9);
    let mut svc = Service::seed(a);
    assert_eq!(svc.add_mvp(a, sample_mvp(1, actor(2))), Ok(Events::MVPCreated));
    let before = svc.mvps_list();
    assert_eq!(svc.add_admin(outsider, actor(5)), Err(Errors::Unauthorized));
    assert_eq!(svc.remove_admin(outsider, a), Err(Errors::Unauthorized));
    assert_eq!(svc.add_mvp(outsider, sample_mvp(2, outsider)), Err(Errors::Unauthorized));
    assert_eq!(svc.remove_mvp(outsider, 1), Err(Errors::Unauthorized));
    let after = svc.mvps_list();
    assert_eq!(before, after);
}

#[test]
fn registry_fills_to_capacity_then_rejects() {
    let a = actor(1);
    let mut svc = Service::seed(a);
    for id in 0..MAX_MVPS as u32 {
        assert_eq!(svc.add_mvp(a, sample_mvp(id, actor(2))), Ok(Events::MVPCreated));
    }
    let before = svc.mvps_list();
    assert_eq!(before.mvps.len(), MAX_MVPS);
    assert_eq!(before.all_mvps, MAX_MVPS as u64);
    assert_eq!(
        svc.add_mvp(a, sample_mvp(MAX_MVPS as u32, actor(2))),
        Err(Errors::MaxMVPsReached)
    );
    let after = svc.mvps_list();
    assert_eq!(before, after);
}

#[test]
fn full_lifecycle_scenario() {
    let a = actor(1);
    let b = actor(2);
    let c = actor(3);
    let mut svc = Service::seed(a);
    assert_eq!(svc.add_mvp(a, sample_mvp(1, b)), Ok(Events::MVPCreated));
    assert_eq!(svc.vote_for_mvp(c, 1), Ok(Events::VoteCasted));
    assert_eq!(record(&svc.mvps_list(), 1).positive_votes, 1);
    assert_eq!(svc.vote_for_mvp(c, 1), Err(Errors::AlreadyVoted));
    let mut renamed = sample_mvp(1, b);
    renamed.project_name = String::from("renamed project");
    assert_eq!(svc.update_mvp_info(b, 1, renamed.clone()), Ok(Events::MVPUpdated));
    assert_eq!(record(&svc.mvps_list(), 1).project_name, "renamed project");
    // an admin who is not the owner may not edit the record
    assert_eq!(svc.update_mvp_info(a, 1, renamed), Err(Errors::Unauthorized));
    // the owner is not an admin, so the owner may not remove the record
    assert_eq!(svc.remove_mvp(b, 1), Err(Errors::Unauthorized));
    assert_eq!(svc.remove_mvp(a, 1), Ok(Events::MVPRemoved));
    assert_eq!(svc.vote_for_mvp(c, 1), Err(Errors::MVPNotFound));
}

#[test]
fn removing_absent_admin_is_a_noop_success() {
    let a = actor(1);
    let mut svc = Service::seed(a);
    assert_eq!(svc.add_admin(a, actor(2)), Ok(Events::AdminAdded));
    let before = svc.mvps_list();
    assert_eq!(svc.remove_admin(a, actor(7)), Ok(Events::AdminRemoved));
    let after = svc.mvps_list();
    assert_eq!(before, after);
    assert_eq!(after.admins.len(), 2);
}

#[test]
fn snapshot_count_tracks_adds_minus_removes() {
    let a = actor(1);
    let mut svc = Service::seed(a);
    for id in 0..6u32 {
        assert_eq!(svc.add_mvp(a, sample_mvp(id, actor(2))), Ok(Events::MVPCreated));
    }
    assert_eq!(svc.remove_mvp(a, 0), Ok(Events::MVPRemoved));
    assert_eq!(svc.remove_mvp(a, 3), Ok(Events::MVPRemoved));
    let snap = svc.mvps_list();
    // six successful adds, two successful removes
    assert_eq!(snap.mvps.len(), 4);
    assert_eq!(snap.all_mvps, 4);
    assert_eq!(svc.all_mvps(), 4);
}

#[test]
fn adding_an_existing_admin_is_idempotent() {
    let a = actor(1);
    let b = actor(2);
    let mut svc = Service::seed(a);
    assert_eq!(svc.add_admin(a, b), Ok(Events::AdminAdded));
    assert_eq!(svc.add_admin(a, b), Ok(Events::AdminAdded));
    assert_eq!(svc.mvps_list().admins, vec![a, b]);
}

#[test]
fn admin_set_fills_to_capacity_then_rejects() {
    let a = actor(1);
    let mut svc = Service::seed(a);
    for n in 0..(MAX_ADMINS as u64 - 1) {
        assert_eq!(svc.add_admin(a, actor(100 + n)), Ok(Events::AdminAdded));
    }
    assert_eq!(svc.mvps_list().admins.len(), MAX_ADMINS);
    assert_eq!(svc.add_admin(a, actor(7000)), Err(Errors::MaxAdminsReached));
    // at capacity even a present identity is rejected: the capacity check
    // comes before the idempotent no-op
    assert_eq!(svc.add_admin(a, actor(100)), Err(Errors::MaxAdminsReached));
}

#[test]
fn removed_admin_loses_authorization() {
    let a = actor(1);
    let b = actor(2);
    let mut svc = Service::seed(a);
    assert_eq!(svc.add_admin(a, b), Ok(Events::AdminAdded));
    assert_eq!(svc.remove_admin(b, a), Ok(Events::AdminRemoved));
    assert_eq!(svc.add_admin(a, actor(3)), Err(Errors::Unauthorized));
    assert_eq!(svc.add_admin(b, actor(3)), Ok(Events::AdminAdded));
}

#[test]
fn duplicate_id_is_rejected() {
    let a = actor(1);
    let mut svc = Service::seed(a);
    assert_eq!(svc.add_mvp(a, sample_mvp(1, actor(2))), Ok(Events::MVPCreated));
    let before = svc.mvps_list();
    assert_eq!(svc.add_mvp(a, sample_mvp(1, actor(5))), Err(Errors::MVPAlreadyExists));
    assert_eq!(before, svc.mvps_list());
}

#[test]
fn voter_set_fills_to_capacity_then_rejects() {
    let a = actor(1);
    let mut svc = Service::seed(a);
    assert_eq!(svc.add_mvp(a, sample_mvp(1, actor(2))), Ok(Events::MVPCreated));
    for v in 0..MAX_VOTERS_PER_MVP as u64 {
        assert_eq!(svc.vote_for_mvp(actor(1000 + v), 1), Ok(Events::VoteCasted));
    }
    assert_eq!(svc.vote_for_mvp(actor(9000), 1), Err(Errors::MaxVotersReached));
    // at capacity the capacity check fires even for an identity that
    // already voted
    assert_eq!(svc.vote_for_mvp(actor(1000), 1), Err(Errors::MaxVotersReached));
    let m = record(&svc.mvps_list(), 1);
    assert_eq!(m.positive_votes as usize, MAX_VOTERS_PER_MVP);
}

#[test]
fn update_preserves_identity_owner_and_votes() {
    let a = actor(1);
    let b = actor(2);
    let mut svc = Service::seed(a);
    assert_eq!(svc.add_mvp(a, sample_mvp(1, b)), Ok(Events::MVPCreated));
    assert_eq!(svc.vote_for_mvp(actor(3), 1), Ok(Events::VoteCasted));
    let mut edited = sample_mvp(1, actor(9));
    edited.project_name = String::from("new name");
    edited.description = String::from("new description");
    edited.logo = String::from("new.png");
    edited.repository = String::from("new.git");
    edited.video_demo = String::from("new.mp4");
    edited.positive_votes = 77;
    edited.voter_wallets = vec![actor(8)];
    assert_eq!(svc.update_mvp_info(b, 1, edited), Ok(Events::MVPUpdated));
    let m = record(&svc.mvps_list(), 1);
    assert_eq!(m.project_name, "new name");
    assert_eq!(m.description, "new description");
    assert_eq!(m.logo, "new.png");
    assert_eq!(m.repository, "new.git");
    assert_eq!(m.video_demo, "new.mp4");
    // id, owner, tally and voter set are untouched by an update
    assert_eq!(m.id, 1);
    assert_eq!(m.owner, b);
    assert_eq!(m.positive_votes, 1);
    assert_eq!(m.voter_wallets, vec![actor(3)]);
}

#[test]
fn update_and_remove_of_absent_record_fail() {
    let a = actor(1);
    let mut svc = Service::seed(a);
    assert_eq!(svc.update_mvp_info(a, 4, sample_mvp(4, a)), Err(Errors::MVPNotFound));
    assert_eq!(svc.remove_mvp(a, 4), Err(Errors::MVPNotFound));
}

#[test]
fn mvps_by_actor_returns_exactly_the_owned_records_in_order() {
    let a = actor(1);
    let b = actor(2);
    let c = actor(3);
    let mut svc = Service::seed(a);
    assert_eq!(svc.add_mvp(a, sample_mvp(1, b)), Ok(Events::MVPCreated));
    assert_eq!(svc.add_mvp(a, sample_mvp(2, c)), Ok(Events::MVPCreated));
    assert_eq!(svc.add_mvp(a, sample_mvp(3, b)), Ok(Events::MVPCreated));
    let owned = svc.mvps_by_actor(b);
    assert_eq!(owned.len(), 2);
    assert_eq!(owned[0].id, 1);
    assert_eq!(owned[1].id, 3);
    assert!(svc.mvps_by_actor(actor(9)).is_empty());
}

#[test]
fn snapshot_conversion_keeps_every_field() {
    let a = actor(1);
    let mut svc = Service::seed(a);
    assert_eq!(svc.add_mvp(a, sample_mvp(1, actor(2))), Ok(Events::MVPCreated));
    let snap = svc.mvps_list();
    let io = IoState::from(svc.state);
    assert_eq!(snap, io);
}

#[test]
fn snapshot_is_detached_from_live_state() {
    let a = actor(1);
    let mut svc = Service::seed(a);
    assert_eq!(svc.add_mvp(a, sample_mvp(1, actor(2))), Ok(Events::MVPCreated));
    let before = svc.mvps_list();
    assert_eq!(svc.vote_for_mvp(actor(3), 1), Ok(Events::VoteCasted));
    // the earlier snapshot still shows the state it was taken from
    assert_eq!(record(&before, 1).positive_votes, 0);
    assert_eq!(record(&svc.mvps_list(), 1).positive_votes, 1);
}

#[test]
fn actor_id_compares_by_value() {
    assert_eq!(actor(4), ActorId::new(4, 0, 0, 0));
    assert_ne!(actor(4), actor(5));
    assert_ne!(ActorId::new(0, 1, 0, 0), ActorId::new(0, 0, 1, 0));
}
