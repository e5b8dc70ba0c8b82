use amd::graphql::models::Member;
use amd::graphql::models::Streak;
use amd::graphql::queries::apply_reply;
use amd::graphql::queries::field_name;
use amd::graphql::queries::read_streak;
use amd::graphql::queries::streak_mutation;
use amd::graphql::queries::ReplyError;
use amd::graphql::queries::StreakChange;
use amd::graphql::queries::StreakReply;

fn member(streak: Vec<Streak>) -> Member {
    Member {
        member_id: 7,
        name: "Asha".to_string(),
        discord_id: "11".to_string(),
        group_id: 2,
        streak,
    }
}

#[test]
fn mutation_names_the_member() {
    assert_eq!(
        streak_mutation(StreakChange::Increment, 42),
        "\n        mutation {\n            incrementStreak(input: { memberId: 42 }) {\n                currentStreak\n                maxStreak\n            }\n        }"
    );
    assert_eq!(
        streak_mutation(StreakChange::Reset, -2147483648),
        "\n        mutation {\n            resetStreak(input: { memberId: -2147483648 }) {\n                currentStreak\n                maxStreak\n            }\n        }"
    );
    assert_eq!(field_name(StreakChange::Increment), "incrementStreak");
    assert_eq!(field_name(StreakChange::Reset), "resetStreak");
}

#[test]
fn reply_without_data_is_an_error() {
    let reply = StreakReply { has_data: false, current_streak: Some(1), max_streak: Some(2) };
    assert_eq!(read_streak(reply), Err(ReplyError::MissingData));
}

#[test]
fn reply_without_a_number_is_an_error() {
    let reply = StreakReply { has_data: true, current_streak: None, max_streak: None };
    assert_eq!(read_streak(reply), Err(ReplyError::MissingCurrentStreak));
    let reply = StreakReply { has_data: true, current_streak: Some(1), max_streak: None };
    assert_eq!(read_streak(reply), Err(ReplyError::MissingMaxStreak));
}

#[test]
fn reply_numbers_are_cut_to_32_bits() {
    let reply = StreakReply { has_data: true, current_streak: Some(3), max_streak: Some(-4) };
    assert_eq!(read_streak(reply), Ok(Streak { current_streak: 3, max_streak: -4 }));
    let reply = StreakReply {
        has_data: true,
        current_streak: Some(4_294_967_301),
        max_streak: Some(2_147_483_648),
    };
    assert_eq!(read_streak(reply), Ok(Streak { current_streak: 5, max_streak: -2_147_483_648 }));
}

#[test]
fn first_streak_is_put_on_record() {
    let mut m = member(vec![]);
    let reply = StreakReply { has_data: true, current_streak: Some(1), max_streak: Some(1) };
    assert_eq!(apply_reply(&mut m, reply), Ok(()));
    assert_eq!(m.streak, vec![Streak { current_streak: 1, max_streak: 1 }]);
    assert_eq!(m.name, "Asha");
    assert_eq!(m.member_id, 7);
    assert_eq!(m.discord_id, "11");
    assert_eq!(m.group_id, 2);
}

#[test]
fn every_streak_held_is_replaced() {
    let old = Streak { current_streak: 1, max_streak: 9 };
    let mut m = member(vec![old, old, old]);
    m.set_streak(0, 9);
    let new = Streak { current_streak: 0, max_streak: 9 };
    assert_eq!(m.streak, vec![new, new, new]);
}

#[test]
fn unusable_reply_leaves_the_member_alone() {
    let old = Streak { current_streak: 1, max_streak: 9 };
    let mut m = member(vec![old]);
    let reply = StreakReply { has_data: true, current_streak: None, max_streak: Some(1) };
    assert_eq!(apply_reply(&mut m, reply), Err(ReplyError::MissingCurrentStreak));
    assert_eq!(m.streak, vec![old]);
}

#[test]
fn member_clone_keeps_everything() {
    let m = member(vec![Streak { current_streak: 1, max_streak: 9 }]);
    let c = m.clone();
    assert_eq!(c.member_id, 7);
    assert_eq!(c.name, "Asha");
    assert_eq!(c.discord_id, "11");
    assert_eq!(c.group_id, 2);
    assert_eq!(c.streak, m.streak);
}
