use community_store::community::Community;
use community_store::community::CommunityForm;
use community_store::community_follower::CommunityFollower;
use community_store::community_follower::CommunityFollowerForm;
use community_store::community_user::CommunityUser;
use community_store::community_user::CommunityUserForm;
use community_store::db::Db;
use community_store::db::DbError;

const NOW: i64 = 1_600_000_000;

#[test]
fn create_then_read_round_trip() {
    let mut db = Db::new();
    let form = CommunityForm { name: "gardening".into() };
    let created = Community::create(&mut db, &form, NOW).unwrap();
    assert_eq!(created.name, "gardening");
    assert_eq!(created.id, 1);
    assert_eq!(created.start_time, NOW);
    let read_once = Community::read(&db, created.id).unwrap();
    assert_eq!(created, read_once);
    let read_again = Community::read(&db, created.id).unwrap();
    assert_eq!(read_once.id, read_again.id);
    assert_eq!(read_once.start_time, read_again.start_time);
    assert_eq!(read_once, read_again);
}

#[test]
fn update_then_read_reflects_form() {
    let mut db = Db::new();
    let created = Community::create(&mut db, &CommunityForm { name: "before".into() }, NOW)
        .unwrap();
    let updated = Community::update(&mut db, created.id, &CommunityForm { name: "after".into() })
        .unwrap();
    assert_eq!(updated.name, "after");
    assert_eq!(updated.id, created.id);
    assert_eq!(updated.start_time, created.start_time);
    let read = Community::read(&db, created.id).unwrap();
    assert_eq!(read, updated);
    assert_eq!(read.id, created.id);
    assert_eq!(read.start_time, created.start_time);
}

#[test]
fn delete_removes_exactly_one_row() {
    let mut db = Db::new();
    let first = Community::create(&mut db, &CommunityForm { name: "first".into() }, NOW).unwrap();
    let second = Community::create(&mut db, &CommunityForm { name: "second".into() }, NOW)
        .unwrap();
    assert_eq!(1, Community::delete(&mut db, first.id));
    assert_eq!(Err(DbError::NotFound), Community::read(&db, first.id));
    let still_there = Community::read(&db, second.id).unwrap();
    assert_eq!(still_there, second);
    assert_eq!(0, Community::delete(&mut db, first.id));
}

#[test]
fn follow_then_ignore_removes_one() {
    let mut db = Db::new();
    let community = Community::create(&mut db, &CommunityForm { name: "books".into() }, NOW)
        .unwrap();
    let form = CommunityFollowerForm {
        community_id: community.id,
        fedi_user_id: "reader@example".into(),
    };
    let follower = CommunityFollower::follow(&mut db, &form, NOW).unwrap();
    assert_eq!(follower.community_id, community.id);
    assert_eq!(follower.fedi_user_id, "reader@example");
    assert_eq!(1, CommunityFollower::ignore(&mut db, &form));
    let unmatched = CommunityFollowerForm {
        community_id: community.id,
        fedi_user_id: "stranger@example".into(),
    };
    assert_eq!(0, CommunityFollower::ignore(&mut db, &unmatched));
}

#[test]
fn join_then_leave_matches_follow_contract() {
    let mut db = Db::new();
    let community = Community::create(&mut db, &CommunityForm { name: "books".into() }, NOW)
        .unwrap();
    let form = CommunityUserForm {
        community_id: community.id,
        fedi_user_id: "member@example".into(),
    };
    let member = CommunityUser::join(&mut db, &form, NOW).unwrap();
    assert_eq!(member.community_id, community.id);
    assert_eq!(member.fedi_user_id, "member@example");
    assert_eq!(1, CommunityUser::leave(&mut db, &form));
    let unmatched = CommunityUserForm {
        community_id: community.id,
        fedi_user_id: "stranger@example".into(),
    };
    assert_eq!(0, CommunityUser::leave(&mut db, &unmatched));
}

#[test]
fn concrete_scenario() {
    let mut db = Db::new();
    let community = Community::create(&mut db, &CommunityForm { name: "TIL".into() }, NOW)
        .unwrap();
    assert_eq!(community.name, "TIL");
    assert!(community.id > 0);
    let follow_form = CommunityFollowerForm {
        community_id: community.id,
        fedi_user_id: "test".into(),
    };
    let follower = CommunityFollower::follow(&mut db, &follow_form, NOW).unwrap();
    assert_eq!(follower.community_id, community.id);
    assert_eq!(1, CommunityFollower::ignore(&mut db, &follow_form));
    assert_eq!(1, Community::delete(&mut db, community.id));
}

#[test]
fn read_missing_id_is_not_found() {
    let db = Db::new();
    assert_eq!(Err(DbError::NotFound), Community::read(&db, 7));
}

#[test]
fn update_missing_id_is_not_found() {
    let mut db = Db::new();
    let kept = Community::create(&mut db, &CommunityForm { name: "kept".into() }, NOW).unwrap();
    let missing = Community::update(&mut db, kept.id + 1, &CommunityForm { name: "other".into() });
    assert_eq!(Err(DbError::NotFound), missing);
    let read = Community::read(&db, kept.id).unwrap();
    assert_eq!(read, kept);
}

#[test]
fn duplicate_follows_are_both_removed() {
    let mut db = Db::new();
    let form = CommunityFollowerForm { community_id: 3, fedi_user_id: "twice@example".into() };
    let first = CommunityFollower::follow(&mut db, &form, NOW).unwrap();
    let second = CommunityFollower::follow(&mut db, &form, NOW + 5).unwrap();
    assert_ne!(first.id, second.id);
    assert_eq!(2, CommunityFollower::ignore(&mut db, &form));
    assert_eq!(0, CommunityFollower::ignore(&mut db, &form));
}

#[test]
fn duplicate_joins_are_both_removed() {
    let mut db = Db::new();
    let form = CommunityUserForm { community_id: 3, fedi_user_id: "twice@example".into() };
    let first = CommunityUser::join(&mut db, &form, NOW).unwrap();
    let second = CommunityUser::join(&mut db, &form, NOW + 5).unwrap();
    assert_ne!(first.id, second.id);
    assert_eq!(2, CommunityUser::leave(&mut db, &form));
    assert_eq!(0, CommunityUser::leave(&mut db, &form));
}

#[test]
fn empty_name_is_permitted() {
    let mut db = Db::new();
    let created = Community::create(&mut db, &CommunityForm { name: "".into() }, NOW).unwrap();
    assert_eq!(created.name, "");
    let read = Community::read(&db, created.id).unwrap();
    assert_eq!(read, created);
}

#[test]
fn ids_are_assigned_in_sequence_per_table() {
    let mut db = Db::new();
    let a = Community::create(&mut db, &CommunityForm { name: "a".into() }, NOW).unwrap();
    let b = Community::create(&mut db, &CommunityForm { name: "b".into() }, NOW).unwrap();
    assert_eq!(a.id, 1);
    assert_eq!(b.id, 2);
    let follower_form = CommunityFollowerForm { community_id: a.id, fedi_user_id: "x".into() };
    let f = CommunityFollower::follow(&mut db, &follower_form, NOW).unwrap();
    assert_eq!(f.id, 1);
    let member_form = CommunityUserForm { community_id: a.id, fedi_user_id: "x".into() };
    let m = CommunityUser::join(&mut db, &member_form, NOW).unwrap();
    assert_eq!(m.id, 1);
    assert_eq!(1, Community::delete(&mut db, a.id));
    let c = Community::create(&mut db, &CommunityForm { name: "c".into() }, NOW).unwrap();
    assert_eq!(c.id, 3);
}

#[test]
fn ignore_leaves_other_pairs_in_place() {
    let mut db = Db::new();
    let keep = CommunityFollowerForm { community_id: 1, fedi_user_id: "keep@example".into() };
    let drop = CommunityFollowerForm { community_id: 1, fedi_user_id: "drop@example".into() };
    let kept_row = CommunityFollower::follow(&mut db, &keep, NOW).unwrap();
    CommunityFollower::follow(&mut db, &drop, NOW).unwrap();
    assert_eq!(1, CommunityFollower::ignore(&mut db, &drop));
    assert_eq!(0, CommunityFollower::ignore(&mut db, &drop));
    assert_eq!(1, CommunityFollower::ignore(&mut db, &keep));
    assert_eq!(kept_row.fedi_user_id, "keep@example");
}
