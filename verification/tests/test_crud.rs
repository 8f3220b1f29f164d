use community_store::community::Community;
use community_store::community::CommunityForm;
use community_store::community_follower::CommunityFollower;
use community_store::community_follower::CommunityFollowerForm;
use community_store::community_user::CommunityUser;
use community_store::community_user::CommunityUserForm;
use community_store::db::Db;

const NOW: i64 = 1_700_000_000;

#[test]
fn test_crud() {
    let mut conn = Db::new();

    let new_community = CommunityForm { name: "TIL".into() };

    let inserted_community = Community::create(&mut conn, &new_community, NOW).unwrap();

    let expected_community = Community {
        id: inserted_community.id,
        name: "TIL".into(),
        start_time: inserted_community.start_time,
    };

    let community_follower_form = CommunityFollowerForm {
        community_id: inserted_community.id,
        fedi_user_id: "test".into(),
    };

    let inserted_community_follower =
        CommunityFollower::follow(&mut conn, &community_follower_form, NOW).unwrap();

    let expected_community_follower = CommunityFollower {
        id: inserted_community_follower.id,
        community_id: inserted_community.id,
        fedi_user_id: "test".into(),
        start_time: inserted_community_follower.start_time,
    };

    let community_user_form = CommunityUserForm {
        community_id: inserted_community.id,
        fedi_user_id: "test".into(),
    };

    let inserted_community_user =
        CommunityUser::join(&mut conn, &community_user_form, NOW).unwrap();

    let expected_community_user = CommunityUser {
        id: inserted_community_user.id,
        community_id: inserted_community.id,
        fedi_user_id: "test".into(),
        start_time: inserted_community_user.start_time,
    };

    let read_community = Community::read(&conn, inserted_community.id).unwrap();
    let updated_community =
        Community::update(&mut conn, inserted_community.id, &new_community).unwrap();
    let ignored_community = CommunityFollower::ignore(&mut conn, &community_follower_form);
    let left_community = CommunityUser::leave(&mut conn, &community_user_form);
    let num_deleted = Community::delete(&mut conn, inserted_community.id);

    assert_eq!(expected_community, read_community);
    assert_eq!(expected_community, inserted_community);
    assert_eq!(expected_community, updated_community);
    assert_eq!(expected_community_follower, inserted_community_follower);
    assert_eq!(expected_community_user, inserted_community_user);
    assert_eq!(1, ignored_community);
    assert_eq!(1, left_community);
    assert_eq!(1, num_deleted);
}
