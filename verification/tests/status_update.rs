use std::collections::HashMap;

use amd::clock::Timestamp;
use amd::clock::UtcOffset;
use amd::graphql::models::Member;
use amd::graphql::models::Streak;
use amd::graphql::models::StreakWithMemberId;
use amd::tasks::status_update::categorize_members;
use amd::tasks::status_update::check_special_author;
use amd::tasks::status_update::every_member_has_streak;
use amd::tasks::status_update::find_highest_streak;
use amd::tasks::status_update::format_defaulters;
use amd::tasks::status_update::format_members;
use amd::tasks::status_update::get_channel_ids;
use amd::tasks::status_update::get_leaderboard_stats;
use amd::tasks::status_update::is_valid_content;
use amd::tasks::status_update::is_valid_status_update;
use amd::tasks::status_update::report_description;
use amd::tasks::status_update::valid_from;
use amd::tasks::status_update::Group;

fn member(id: i32, name: &str, discord: &str, group: i32, current: Option<i32>) -> Member {
    Member {
        member_id: id,
        name: name.to_string(),
        discord_id: discord.to_string(),
        group_id: group,
        streak: match current {
            Some(c) => vec![Streak { current_streak: c, max_streak: 10 }],
            None => vec![],
        },
    }
}

fn streak(id: i32, current: i32, max: i32) -> StreakWithMemberId {
    StreakWithMemberId { member_id: id, current_streak: current, max_streak: max }
}

fn names(members: &[Member]) -> Vec<String> {
    members.iter().map(|m| m.name.clone()).collect()
}

#[test]
fn format_members_of_none_is_empty() {
    assert_eq!(format_members(&[]), "");
}

#[test]
fn format_members_sets_lines_apart() {
    let one = [member(1, "Asha", "11", 1, Some(0))];
    assert_eq!(format_members(&one), "- Asha\n");
    let three = [
        member(1, "Asha", "11", 1, Some(0)),
        member(2, "Ravi Kumar", "22", 1, Some(0)),
        member(3, "Zed", "33", 2, Some(0)),
    ];
    assert_eq!(format_members(&three), "- Asha\n\n- Ravi Kumar\n\n- Zed\n");
}

#[test]
fn format_defaulters_of_none_is_an_empty_line() {
    assert_eq!(format_defaulters(&vec![]), "\n");
}

#[test]
fn format_defaulters_marks_the_length_of_silence() {
    let groups = vec![
        Group {
            id: 2,
            members: vec![
                member(1, "Asha", "11", 2, Some(0)),
                member(2, "Ravi", "22", 2, Some(-1)),
            ],
        },
        Group {
            id: 18446744073709551615,
            members: vec![
                member(3, "Zed", "33", -1, Some(-2)),
                member(4, "Yan", "44", -1, Some(7)),
            ],
        },
    ];
    assert!(every_member_has_streak(&groups));
    assert_eq!(
        format_defaulters(&groups),
        "## Group 2\n- Asha | :x\n- Ravi | :x::x:\n\
         ## Group 18446744073709551615\n- Zed | :headstone:\n- Yan | :headstone:\n\n"
    );
}

#[test]
fn a_member_without_a_streak_is_found() {
    let groups = vec![
        Group { id: 1, members: vec![member(1, "Asha", "11", 1, Some(0))] },
        Group { id: 2, members: vec![member(2, "Ravi", "22", 2, None)] },
    ];
    assert!(!every_member_has_streak(&groups));
    assert!(every_member_has_streak(&vec![]));
}

#[test]
fn highest_streak_of_none_is_zero() {
    let map: HashMap<i32, &Member> = HashMap::new();
    let (highest, holders) = find_highest_streak(&[], &map, true);
    assert_eq!(highest, 0);
    assert!(holders.is_empty());
}

#[test]
fn highest_streak_goes_to_all_who_hold_it() {
    let a = member(1, "Asha", "11", 1, Some(0));
    let b = member(2, "Ravi", "22", 1, Some(0));
    let c = member(3, "Zed", "33", 2, Some(0));
    let mut map: HashMap<i32, &Member> = HashMap::new();
    map.insert(1, &a);
    map.insert(2, &b);
    map.insert(3, &c);
    let streaks = [streak(1, 3, 9), streak(2, 5, 7), streak(3, 5, 9), streak(4, 50, 90)];
    let (all_time, holders) = find_highest_streak(&streaks, &map, true);
    assert_eq!(all_time, 9);
    assert_eq!(names(&holders), vec!["Asha", "Zed"]);
    let (current, holders) = find_highest_streak(&streaks, &map, false);
    assert_eq!(current, 5);
    assert_eq!(names(&holders), vec!["Ravi", "Zed"]);
}

#[test]
fn highest_streak_is_never_below_zero() {
    let a = member(1, "Asha", "11", 1, Some(0));
    let b = member(2, "Ravi", "22", 1, Some(0));
    let mut map: HashMap<i32, &Member> = HashMap::new();
    map.insert(1, &a);
    map.insert(2, &b);
    let streaks = [streak(1, -2, -1), streak(2, 0, -3)];
    let (current, holders) = find_highest_streak(&streaks, &map, false);
    assert_eq!(current, 0);
    assert_eq!(names(&holders), vec!["Ravi"]);
    let (all_time, holders) = find_highest_streak(&streaks, &map, true);
    assert_eq!(all_time, 0);
    assert!(holders.is_empty());
}

#[test]
fn leaderboard_counts_the_later_of_two_members_with_one_id() {
    let members = vec![
        member(1, "Asha", "11", 1, Some(0)),
        member(2, "Ravi", "22", 1, Some(0)),
        member(1, "Asha the Second", "12", 1, Some(0)),
    ];
    let streaks = [streak(1, 4, 8), streak(2, 4, 6)];
    let (all_time, all_time_holders, current, current_holders) =
        get_leaderboard_stats(&streaks, &members);
    assert_eq!(all_time, 8);
    assert_eq!(names(&all_time_holders), vec!["Asha the Second"]);
    assert_eq!(current, 4);
    assert_eq!(names(&current_holders), vec!["Asha the Second", "Ravi"]);
}

#[test]
fn members_are_sorted_by_whether_they_sent_an_update() {
    let members = vec![
        member(1, "Asha", "11", 2, Some(3)),
        member(2, "Ravi", "22", 1, Some(0)),
        member(3, "Zed", "33", 2, None),
        member(4, "Yan", "44", 1, Some(1)),
        member(5, "Xi", "55", -1, Some(1)),
        member(6, "Wu", "66", 2, Some(1)),
    ];
    let authors = vec!["44".to_string(), "11".to_string(), "44".to_string(), "99".to_string()];
    let (naughty, nice) = categorize_members(&members, &authors);
    assert_eq!(names(&nice), vec!["Asha", "Yan"]);
    assert_eq!(naughty.len(), 3);
    assert_eq!(naughty[0].id, 1);
    assert_eq!(names(&naughty[0].members), vec!["Ravi"]);
    assert_eq!(naughty[1].id, 2);
    assert_eq!(names(&naughty[1].members), vec!["Zed", "Wu"]);
    assert_eq!(naughty[2].id, 18446744073709551615);
    assert_eq!(names(&naughty[2].members), vec!["Xi"]);
    assert_eq!(naughty[1].members[0].discord_id, "33");
    assert_eq!(naughty[1].members[0].member_id, 3);
    assert!(naughty[1].members[0].streak.is_empty());
    assert_eq!(nice[0].streak, vec![Streak { current_streak: 3, max_streak: 10 }]);
}

#[test]
fn nobody_sent_and_everybody_sent() {
    let members = vec![member(1, "Asha", "11", 2, Some(3)), member(2, "Ravi", "22", 1, Some(0))];
    let (naughty, nice) = categorize_members(&members, &vec![]);
    assert!(nice.is_empty());
    assert_eq!(naughty.len(), 2);
    let authors = vec!["22".to_string(), "11".to_string()];
    let (naughty, nice) = categorize_members(&members, &authors);
    assert!(naughty.is_empty());
    assert_eq!(names(&nice), vec!["Asha", "Ravi"]);
}

#[test]
fn update_needs_both_phrases_unless_the_author_is_special() {
    assert!(is_valid_content("namah shivaya\nworked on x\nregards, asha", false));
    assert!(!is_valid_content("worked on x\nregards, asha", false));
    assert!(is_valid_content("worked on x\nregards, asha", true));
    assert!(!is_valid_content("namah shivaya\nworked on x", false));
    assert!(!is_valid_content("namah shivaya\nworked on x", true));
    assert!(!is_valid_content("", true));
}

#[test]
fn special_authors_are_the_two_known_ones() {
    assert!(check_special_author("767636699077410837"));
    assert!(check_special_author("1265880467047976970"));
    assert!(!check_special_author("1265880467047976971"));
    assert!(!check_special_author(""));
}

#[test]
fn update_is_read_in_lowercase_and_must_not_be_too_old() {
    let from = Timestamp::new(1_710_000_000, 0);
    let text = "Namah Shivaya\nDid things.\nREGARDS\nAsha";
    assert!(is_valid_status_update(text, "1", from, from));
    assert!(is_valid_status_update(text, "1", Timestamp::new(1_710_000_001, 0), from));
    assert!(!is_valid_status_update(text, "1", Timestamp::new(1_709_999_999, 999_999_999), from));
    assert!(!is_valid_status_update("Did things.\nRegards", "1", from, from));
    assert!(is_valid_status_update("Did things.\nRegards", "767636699077410837", from, from));
}

#[test]
fn updates_count_from_the_last_eight_in_the_evening() {
    let india = UtcOffset::from_seconds(19_800).unwrap();
    // 2024-03-10 05:00 in India is 2024-03-09 23:30 UTC.
    let now = Timestamp::new(1_710_028_800 - 1800, 0);
    // 2024-03-09 20:00 in India is 2024-03-09 14:30 UTC.
    let eight = Timestamp::new(1_710_028_800 - 86_400 + 14 * 3600 + 1800, 0);
    assert_eq!(valid_from(now, india), Some(eight));
}

#[test]
fn channels_are_the_four_groups() {
    assert_eq!(
        get_channel_ids(),
        vec![
            1225098248293716008,
            1225098298935738489,
            1225098353378070710,
            1225098407216156712
        ]
    );
}

#[test]
fn report_without_defaulters_is_the_leaderboard() {
    let top = vec![member(1, "Asha", "11", 2, Some(3))];
    let now = vec![member(1, "Asha", "11", 2, Some(3)), member(2, "Ravi", "22", 1, Some(3))];
    assert_eq!(
        report_description(12, &top, 3, &now, &vec![]),
        "# Leaderboard Updates\n## All-Time High Streak: 12 days\n- Asha\n\
         ## Current Highest Streak: 3 days\n- Asha\n\n- Ravi\n"
    );
}

#[test]
fn report_with_defaulters_lists_them_by_group() {
    let groups = vec![Group { id: 4, members: vec![member(2, "Ravi", "22", 4, Some(-1))] }];
    assert_eq!(
        report_description(0, &vec![], -5, &vec![], &groups),
        "# Leaderboard Updates\n## All-Time High Streak: 0 days\n\
         ## Current Highest Streak: -5 days\n# Defaulters\n## Group 4\n- Ravi | :x::x:\n\n"
    );
}
