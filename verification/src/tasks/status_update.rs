//! The daily status-update check.

use std::collections::HashMap;
use vstd::prelude::*;
use vstd::string::*;
use vstd::std_specs::hash::group_hash_axioms;
use crate::graphql::models::member_views;
use crate::graphql::models::Member;
use crate::graphql::models::MemberView;
use crate::graphql::models::StreakWithMemberId;
use crate::clock::most_recent_occurrence;
use crate::clock::recent_nanos;
use crate::text::contains;
use crate::text::contains_text;
use crate::text::decimal;
use crate::text::lowercase_of;
use crate::text::push_signed;
use crate::text::push_unsigned;
use crate::text::to_lowercase;
use crate::clock::duration_until;
use crate::clock::Span;
use crate::clock::TimeOfDay;
use crate::clock::Timestamp;
use crate::clock::UtcOffset;
use crate::tasks::Task;

verus! {

/// Checks for status updates daily at 5 AM.
#[derive(Clone, Copy, Debug)]
pub struct StatusUpdateCheck;

impl Task for StatusUpdateCheck {
    open spec fn target(&self) -> TimeOfDay {
        TimeOfDay::at(5, 0)
    }

    open spec fn label(&self) -> Seq<char> {
        "Status Update Check"@
    }

    fn name(&self) -> (r: &'static str) {
        "Status Update Check"
    }

    fn due_at(&self) -> (t: TimeOfDay) {
        TimeOfDay::at(5, 0)
    }

    fn run_in(&self, now: Timestamp, zone: UtcOffset) -> (r: Span) {
        duration_until(now, zone, TimeOfDay::at(5, 0))
    }
}

/// The streak that counts for the leaderboard: the longest ever, or the
/// one running now.
pub open spec fn streak_value(streak: StreakWithMemberId, is_all_time: bool) -> int {
    if is_all_time {
        streak.max_streak as int
    } else {
        streak.current_streak as int
    }
}

/// The highest streak among those whose member is known, and zero if none
/// is above zero.
pub open spec fn highest_streak(
    streaks: Seq<StreakWithMemberId>,
    member_map: Map<i32, &Member>,
    is_all_time: bool,
) -> int
    decreases streaks.len(),
{
    if streaks.len() == 0 {
        0
    } else {
        let rest = highest_streak(streaks.drop_last(), member_map, is_all_time);
        let last = streaks.last();
        if member_map.contains_key(last.member_id) && streak_value(last, is_all_time) > rest {
            streak_value(last, is_all_time)
        } else {
            rest
        }
    }
}

/// The members whose streak is exactly `level`, one for each such streak
/// of a known member, in the order of the streaks.
pub open spec fn streak_holders(
    streaks: Seq<StreakWithMemberId>,
    member_map: Map<i32, &Member>,
    is_all_time: bool,
    level: int,
) -> Seq<MemberView>
    decreases streaks.len(),
{
    if streaks.len() == 0 {
        Seq::empty()
    } else {
        let rest = streak_holders(streaks.drop_last(), member_map, is_all_time, level);
        let last = streaks.last();
        if member_map.contains_key(last.member_id) && streak_value(last, is_all_time) == level {
            rest.push(member_map[last.member_id]@)
        } else {
            rest
        }
    }
}

/// The highest streak is at least zero and at least every known member's
/// streak, and it is zero or some known member's streak.
pub proof fn lemma_highest_streak_is_highest(
    streaks: Seq<StreakWithMemberId>,
    member_map: Map<i32, &Member>,
    is_all_time: bool,
)
    ensures
        highest_streak(streaks, member_map, is_all_time) >= 0,
        forall|i: int|
            0 <= i < streaks.len() && member_map.contains_key(streaks[i].member_id)
                ==> streak_value(#[trigger] streaks[i], is_all_time) <= highest_streak(
                streaks,
                member_map,
                is_all_time,
            ),
        highest_streak(streaks, member_map, is_all_time) == 0 || exists|i: int|
            0 <= i < streaks.len() && member_map.contains_key(streaks[i].member_id)
                && streak_value(#[trigger] streaks[i], is_all_time) == highest_streak(
                streaks,
                member_map,
                is_all_time,
            ),
    decreases streaks.len(),
{
    if streaks.len() > 0 {
        let front = streaks.drop_last();
        lemma_highest_streak_is_highest(front, member_map, is_all_time);
        let top = highest_streak(streaks, member_map, is_all_time);
        assert forall|i: int|
            0 <= i < streaks.len() && member_map.contains_key(
                streaks[i].member_id,
            ) implies streak_value(#[trigger] streaks[i], is_all_time) <= top by {
            if i < streaks.len() - 1 {
                assert(streaks[i] == front[i]);
            }
        }
        if top != 0 {
            if top == highest_streak(front, member_map, is_all_time) {
                let i = choose|i: int|
                    0 <= i < front.len() && member_map.contains_key(front[i].member_id)
                        && streak_value(#[trigger] front[i], is_all_time) == top;
                assert(streaks[i] == front[i]);
            } else {
                assert(streak_value(streaks[streaks.len() - 1], is_all_time) == top);
            }
        }
    }
}

/// No known member holds a streak above the highest.
proof fn lemma_nobody_above_highest(
    streaks: Seq<StreakWithMemberId>,
    member_map: Map<i32, &Member>,
    is_all_time: bool,
    level: int,
)
    requires
        level > highest_streak(streaks, member_map, is_all_time),
    ensures
        streak_holders(streaks, member_map, is_all_time, level) == Seq::<MemberView>::empty(),
    decreases streaks.len(),
{
    if streaks.len() > 0 {
        lemma_nobody_above_highest(streaks.drop_last(), member_map, is_all_time, level);
    }
}

/// Finds the highest streak, all-time or current, and the members who hold
/// it. Streaks of members that `member_map` does not know are passed over.
pub fn find_highest_streak(
    streaks: &[StreakWithMemberId],
    member_map: &HashMap<i32, &Member>,
    is_all_time: bool,
) -> (r: (i32, Vec<Member>))
    ensures
        r.0 == highest_streak(streaks@, member_map@, is_all_time),
        member_views(r.1@) == streak_holders(streaks@, member_map@, is_all_time, r.0 as int),
{
    broadcast use group_hash_axioms;

    let mut highest: i32 = 0;
    let mut highest_members: Vec<Member> = Vec::new();
    let mut i: usize = 0;
    proof {
        assert(streaks@.take(0) =~= Seq::<StreakWithMemberId>::empty());
        assert(member_views(highest_members@) =~= Seq::<MemberView>::empty());
    }
    while i < streaks.len()
        invariant
            i <= streaks.len(),
            highest == highest_streak(streaks@.take(i as int), member_map@, is_all_time),
            member_views(highest_members@) == streak_holders(
                streaks@.take(i as int),
                member_map@,
                is_all_time,
                highest as int,
            ),
        decreases streaks.len() - i,
    {
        let streak: StreakWithMemberId = streaks[i];
        proof {
            assert(streaks@.take(i + 1).drop_last() =~= streaks@.take(i as int));
            assert(streaks@.take(i + 1).last() == streak);
        }
        match member_map.get(&streak.member_id) {
            Some(member) => {
                let streak_value: i32 = if is_all_time {
                    streak.max_streak
                } else {
                    streak.current_streak
                };
                if streak_value > highest {
                    proof {
                        lemma_nobody_above_highest(
                            streaks@.take(i as int),
                            member_map@,
                            is_all_time,
                            streak_value as int,
                        );
                    }
                    highest = streak_value;
                    highest_members = Vec::new();
                    highest_members.push((*member).clone());
                    proof {
                        assert(member_views(highest_members@) =~= Seq::<MemberView>::empty().push(
                            member_map@[streak.member_id]@,
                        ));
                    }
                } else if streak_value == highest {
                    let ghost before = highest_members@;
                    highest_members.push((*member).clone());
                    proof {
                        assert(member_views(highest_members@) =~= member_views(before).push(
                            member_map@[streak.member_id]@,
                        ));
                    }
                }
            },
            None => {},
        }
        i = i + 1;
    }
    proof {
        assert(streaks@.take(streaks.len() as int) =~= streaks@);
    }
    (highest, highest_members)
}

/// One line of a list of members.
pub open spec fn member_line(name: Seq<char>) -> Seq<char> {
    "- "@ + name + "\n"@
}

/// The lines of a list of members, with an empty line between one member
/// and the next.
pub open spec fn member_lines(members: Seq<MemberView>) -> Seq<char>
    decreases members.len(),
{
    if members.len() == 0 {
        Seq::empty()
    } else if members.len() == 1 {
        member_line(members[0].name)
    } else {
        member_lines(members.drop_last()) + "\n"@ + member_line(members.last().name)
    }
}

/// Lists the members by name, one to a line, lines set apart by an empty
/// line.
pub fn format_members(members: &[Member]) -> (text: String)
    ensures
        text@ == member_lines(member_views(members@)),
{
    let ghost all = member_views(members@);
    let mut text: String = String::new();
    let mut i: usize = 0;
    proof {
        assert(all.take(0) =~= Seq::<MemberView>::empty());
    }
    while i < members.len()
        invariant
            i <= members.len(),
            all == member_views(members@),
            text@ == member_lines(all.take(i as int)),
        decreases members.len() - i,
    {
        let ghost before = text@;
        if i > 0 {
            text.append("\n");
        }
        text.append("- ");
        text.append(members[i].name.as_str());
        text.append("\n");
        proof {
            assert(all.take(i + 1).drop_last() =~= all.take(i as int));
            assert(all.take(i + 1).last() == members@[i as int]@);
            if i > 0 {
                assert(text@ =~= before + "\n"@ + member_line(members@[i as int]@.name));
            } else {
                assert(all.take(1)[0] == members@[0]@);
                assert(text@ =~= member_line(members@[0]@.name));
            }
        }
        i = i + 1;
    }
    proof {
        assert(all.take(members.len() as int) =~= all);
    }
    text
}

/// The members of one group who sent no update.
#[derive(Debug)]
pub struct Group {
    pub id: u64,
    pub members: Vec<Member>,
}

/// A group as a value.
pub struct GroupView {
    pub id: u64,
    pub members: Seq<MemberView>,
}

impl View for Group {
    type V = GroupView;

    open spec fn view(&self) -> GroupView {
        GroupView { id: self.id, members: member_views(self.members@) }
    }
}

/// The members who sent no update, group by group, the groups in the order
/// in which their first such member was met.
pub type GroupedMember = Vec<Group>;

/// The groups of a list as values, in order.
pub open spec fn group_views(groups: Seq<Group>) -> Seq<GroupView> {
    groups.map_values(|g: Group| g@)
}

/// The mark that stands for how long a member has been silent.
pub open spec fn status_mark(current_streak: int) -> Seq<char> {
    if current_streak == 0 {
        ":x"@
    } else if current_streak == -1 {
        ":x::x:"@
    } else {
        ":headstone:"@
    }
}

/// The line for one member who sent no update.
pub open spec fn defaulter_line(member: MemberView) -> Seq<char> {
    "- "@ + member.name + " | "@ + status_mark(member.streak[0].current_streak as int) + "\n"@
}

/// The lines for the members of one group.
pub open spec fn defaulter_lines(members: Seq<MemberView>) -> Seq<char>
    decreases members.len(),
{
    if members.len() == 0 {
        Seq::empty()
    } else {
        defaulter_lines(members.drop_last()) + defaulter_line(members.last())
    }
}

/// The heading and lines for one group.
pub open spec fn group_section(group: GroupView) -> Seq<char> {
    "## Group "@ + decimal(group.id as int) + "\n"@ + defaulter_lines(group.members)
}

/// The sections of all groups, in order.
pub open spec fn group_sections(groups: Seq<GroupView>) -> Seq<char>
    decreases groups.len(),
{
    if groups.len() == 0 {
        Seq::empty()
    } else {
        group_sections(groups.drop_last()) + group_section(groups.last())
    }
}

/// Whether every member listed has a streak on record.
pub open spec fn all_have_streaks(groups: Seq<GroupView>) -> bool {
    forall|g: int, m: int|
        0 <= g < groups.len() && 0 <= m < groups[g].members.len() ==> (
        #[trigger] groups[g].members[m]).streak.len() > 0
}

fn push_defaulter_lines(text: &mut String, members: &Vec<Member>)
    requires
        forall|m: int| 0 <= m < members@.len() ==> (#[trigger] members@[m]).streak@.len() > 0,
    ensures
        final(text)@ == old(text)@ + defaulter_lines(member_views(members@)),
{
    let ghost all = member_views(members@);
    let mut i: usize = 0;
    proof {
        assert(all.take(0) =~= Seq::<MemberView>::empty());
        assert(text@ =~= old(text)@ + defaulter_lines(all.take(0)));
    }
    while i < members.len()
        invariant
            i <= members.len(),
            all == member_views(members@),
            forall|m: int| 0 <= m < members@.len() ==> (#[trigger] members@[m]).streak@.len() > 0,
            text@ == old(text)@ + defaulter_lines(all.take(i as int)),
        decreases members.len() - i,
    {
        let ghost before = text@;
        let member: &Member = &members[i];
        assert(members@[i as int].streak@.len() > 0);
        let current: i32 = member.streak[0].current_streak;
        text.append("- ");
        text.append(member.name.as_str());
        text.append(" | ");
        if current == 0 {
            text.append(":x");
        } else if current == -1 {
            text.append(":x::x:");
        } else {
            text.append(":headstone:");
        }
        text.append("\n");
        proof {
            assert(all.take(i + 1).drop_last() =~= all.take(i as int));
            assert(all.take(i + 1).last() == member@);
            assert(text@ =~= before + defaulter_line(member@));
            assert(text@ =~= old(text)@ + (defaulter_lines(all.take(i as int)) + defaulter_line(
                member@,
            )));
        }
        i = i + 1;
    }
    proof {
        assert(all.take(members.len() as int) =~= all);
    }
}

/// Whether every member listed has a streak on record.
pub fn every_member_has_streak(naughty_list: &GroupedMember) -> (all: bool)
    ensures
        all == all_have_streaks(group_views(naughty_list@)),
{
    let ghost views = group_views(naughty_list@);
    let mut g: usize = 0;
    while g < naughty_list.len()
        invariant
            g <= naughty_list.len(),
            views == group_views(naughty_list@),
            forall|i: int, m: int|
                0 <= i < g && 0 <= m < views[i].members.len() ==> (
                #[trigger] views[i].members[m]).streak.len() > 0,
        decreases naughty_list.len() - g,
    {
        let group: &Group = &naughty_list[g];
        proof {
            assert(views[g as int] == group@);
        }
        let mut m: usize = 0;
        while m < group.members.len()
            invariant
                m <= group.members.len(),
                g < naughty_list.len(),
                views == group_views(naughty_list@),
                views[g as int] == group@,
                forall|k: int|
                    0 <= k < m ==> (#[trigger] views[g as int].members[k]).streak.len() > 0,
            decreases group.members.len() - m,
        {
            proof {
                assert(views[g as int].members[m as int] == group.members@[m as int]@);
            }
            if group.members[m].streak.len() == 0 {
                return false;
            }
            m = m + 1;
        }
        g = g + 1;
    }
    true
}

/// Lists the members who sent no update under a heading for each group,
/// each with the mark for their silence, and ends with an empty line.
pub fn format_defaulters(naughty_list: &GroupedMember) -> (description: String)
    requires
        all_have_streaks(group_views(naughty_list@)),
    ensures
        description@ == group_sections(group_views(naughty_list@)) + "\n"@,
{
    let ghost all = group_views(naughty_list@);
    let mut description: String = String::new();
    let mut i: usize = 0;
    proof {
        assert(all.take(0) =~= Seq::<GroupView>::empty());
    }
    while i < naughty_list.len()
        invariant
            i <= naughty_list.len(),
            all == group_views(naughty_list@),
            all_have_streaks(all),
            description@ == group_sections(all.take(i as int)),
        decreases naughty_list.len() - i,
    {
        let ghost before = description@;
        let group: &Group = &naughty_list[i];
        proof {
            assert(all[i as int] == group@);
            assert forall|m: int| 0 <= m < group.members@.len() implies (
            #[trigger] group.members@[m]).streak@.len() > 0 by {
                assert(all[i as int].members[m] == group.members@[m]@);
            }
        }
        description.append("## Group ");
        push_unsigned(&mut description, group.id);
        description.append("\n");
        push_defaulter_lines(&mut description, &group.members);
        proof {
            assert(all.take(i + 1).drop_last() =~= all.take(i as int));
            assert(all.take(i + 1).last() == group@);
            assert(description@ =~= before + group_section(group@));
        }
        i = i + 1;
    }
    proof {
        assert(all.take(naughty_list.len() as int) =~= all);
    }
    description.append("\n");
    description
}

/// The number under which a member's group is filed: the group id read as
/// an unsigned 64-bit number.
pub open spec fn group_key(group_id: int) -> u64 {
    if group_id >= 0 {
        group_id as u64
    } else {
        (group_id + 0x1_0000_0000_0000_0000) as u64
    }
}

/// Whether one of the authors is the member with this id on the platform.
pub open spec fn has_sent(authors: Seq<String>, discord_id: Seq<char>) -> bool {
    exists|i: int| 0 <= i < authors.len() && (#[trigger] authors[i])@ == discord_id
}

/// The members who sent an update, in the order of the member list.
pub open spec fn nice_members(members: Seq<MemberView>, authors: Seq<String>) -> Seq<MemberView>
    decreases members.len(),
{
    if members.len() == 0 {
        Seq::empty()
    } else if has_sent(authors, members.last().discord_id) {
        nice_members(members.drop_last(), authors).push(members.last())
    } else {
        nice_members(members.drop_last(), authors)
    }
}

/// Where the group filed under `id` stands in `groups`: the first such
/// position, if there is one.
pub open spec fn group_position(groups: Seq<GroupView>, id: u64) -> Option<int>
    decreases groups.len(),
{
    if groups.len() == 0 {
        None
    } else {
        match group_position(groups.drop_last(), id) {
            Some(at) => Some(at),
            None => if groups.last().id == id {
                Some(groups.len() - 1)
            } else {
                None
            },
        }
    }
}

/// `groups` with `member` filed under the member's group: at the end of
/// that group if it is there already, else as the one member of a new
/// group at the end.
pub open spec fn file_member(groups: Seq<GroupView>, member: MemberView) -> Seq<GroupView> {
    let id = group_key(member.group_id);
    match group_position(groups, id) {
        Some(at) => groups.update(
            at,
            GroupView { id, members: groups[at].members.push(member) },
        ),
        None => groups.push(GroupView { id, members: seq![member] }),
    }
}

/// The members who sent no update, filed by group one after the other in
/// the order of the member list.
pub open spec fn naughty_groups(members: Seq<MemberView>, authors: Seq<String>) -> Seq<
    GroupView,
>
    decreases members.len(),
{
    if members.len() == 0 {
        Seq::empty()
    } else if has_sent(authors, members.last().discord_id) {
        naughty_groups(members.drop_last(), authors)
    } else {
        file_member(naughty_groups(members.drop_last(), authors), members.last())
    }
}

/// No two groups are filed under one number.
pub open spec fn distinct_groups(groups: Seq<GroupView>) -> bool {
    forall|i: int, j: int|
        0 <= i < j < groups.len() ==> (#[trigger] groups[i]).id != (#[trigger] groups[j]).id
}

/// A position that `group_position` gives holds a group of that number,
/// and where it gives none no group has that number.
pub proof fn lemma_group_position(groups: Seq<GroupView>, id: u64)
    ensures
        match group_position(groups, id) {
            Some(at) => 0 <= at < groups.len() && groups[at].id == id,
            None => forall|i: int| 0 <= i < groups.len() ==> (#[trigger] groups[i]).id != id,
        },
    decreases groups.len(),
{
    if groups.len() > 0 {
        let front = groups.drop_last();
        lemma_group_position(front, id);
        match group_position(front, id) {
            Some(at) => {
                assert(groups[at] == front[at]);
            },
            None => {
                assert forall|i: int| 0 <= i < groups.len() - 1 implies (
                #[trigger] groups[i]).id != id by {
                    assert(groups[i] == front[i]);
                }
            },
        }
    }
}

/// Filing keeps the groups' numbers distinct and every group non-empty.
pub proof fn lemma_naughty_groups_are_distinct(members: Seq<MemberView>, authors: Seq<String>)
    ensures
        distinct_groups(naughty_groups(members, authors)),
        forall|g: int|
            0 <= g < naughty_groups(members, authors).len() ==> (#[trigger] naughty_groups(
                members,
                authors,
            )[g]).members.len() > 0,
    decreases members.len(),
{
    if members.len() > 0 {
        lemma_naughty_groups_are_distinct(members.drop_last(), authors);
        let before = naughty_groups(members.drop_last(), authors);
        lemma_group_position(before, group_key(members.last().group_id));
    }
}

fn has_author(authors: &Vec<String>, discord_id: &String) -> (found: bool)
    ensures
        found == has_sent(authors@, discord_id@),
{
    let mut i: usize = 0;
    while i < authors.len()
        invariant
            i <= authors.len(),
            forall|k: int| 0 <= k < i ==> (#[trigger] authors@[k])@ != discord_id@,
        decreases authors.len() - i,
    {
        if authors[i] == *discord_id {
            return true;
        }
        i = i + 1;
    }
    false
}

fn find_group(groups: &Vec<Group>, id: u64) -> (at: Option<usize>)
    ensures
        match at {
            Some(i) => group_position(group_views(groups@), id) == Some(i as int),
            None => group_position(group_views(groups@), id) is None,
        },
{
    let ghost all = group_views(groups@);
    let mut i: usize = 0;
    proof {
        assert(all.take(0) =~= Seq::<GroupView>::empty());
    }
    while i < groups.len()
        invariant
            i <= groups.len(),
            all == group_views(groups@),
            group_position(all.take(i as int), id) is None,
        decreases groups.len() - i,
    {
        proof {
            assert(all.take(i + 1).drop_last() =~= all.take(i as int));
            assert(all.take(i + 1).last().id == groups@[i as int].id);
        }
        if groups[i].id == id {
            proof {
                lemma_position_stays(all, (i + 1) as int, id);
            }
            return Some(i);
        }
        i = i + 1;
    }
    proof {
        assert(all.take(groups.len() as int) =~= all);
    }
    None
}

/// A position found among the first `n` groups is the position among all.
proof fn lemma_position_stays(groups: Seq<GroupView>, n: int, id: u64)
    requires
        0 <= n <= groups.len(),
        group_position(groups.take(n), id) is Some,
    ensures
        group_position(groups, id) == group_position(groups.take(n), id),
    decreases groups.len() - n,
{
    if n < groups.len() {
        assert(groups.take(n + 1).drop_last() =~= groups.take(n));
        lemma_position_stays(groups, n + 1, id);
    } else {
        assert(groups.take(n) =~= groups);
    }
}

fn key_of(group_id: i32) -> (key: u64)
    ensures
        key == group_key(group_id as int),
{
    if group_id >= 0 {
        group_id as u64
    } else {
        u64::MAX - ((-(group_id as i64) - 1) as u64)
    }
}

/// Sorts the members into those who sent an update, which are those whose
/// platform id is among `authors`, and those who did not, filed by group.
pub fn categorize_members(members: &Vec<Member>, authors: &Vec<String>) -> (r: (
    GroupedMember,
    Vec<Member>,
))
    ensures
        group_views(r.0@) == naughty_groups(member_views(members@), authors@),
        member_views(r.1@) == nice_members(member_views(members@), authors@),
{
    let ghost all = member_views(members@);
    let mut nice_list: Vec<Member> = Vec::new();
    let mut naughty_list: Vec<Group> = Vec::new();
    let mut i: usize = 0;
    proof {
        assert(all.take(0) =~= Seq::<MemberView>::empty());
        assert(member_views(nice_list@) =~= Seq::<MemberView>::empty());
        assert(group_views(naughty_list@) =~= Seq::<GroupView>::empty());
    }
    while i < members.len()
        invariant
            i <= members.len(),
            all == member_views(members@),
            group_views(naughty_list@) == naughty_groups(all.take(i as int), authors@),
            member_views(nice_list@) == nice_members(all.take(i as int), authors@),
        decreases members.len() - i,
    {
        let member: &Member = &members[i];
        let ghost nice_before = nice_list@;
        let ghost naughty_before = naughty_list@;
        proof {
            assert(all.take(i + 1).drop_last() =~= all.take(i as int));
            assert(all.take(i + 1).last() == member@);
        }
        if has_author(authors, &member.discord_id) {
            nice_list.push(member.clone());
            proof {
                assert(member_views(nice_list@) =~= member_views(nice_before).push(member@));
            }
        } else {
            let group: u64 = key_of(member.group_id);
            match find_group(&naughty_list, group) {
                Some(at) => {
                    proof {
                        lemma_group_position(group_views(naughty_before), group);
                    }
                    let mut entry: Group = naughty_list.remove(at);
                    let ghost held = entry.members@;
                    entry.members.push(member.clone());
                    proof {
                        assert(member_views(entry.members@) =~= member_views(held).push(
                            member@,
                        ));
                    }
                    naughty_list.insert(at, entry);
                    proof {
                        assert(group_views(naughty_list@) =~= file_member(
                            group_views(naughty_before),
                            member@,
                        ));
                    }
                },
                None => {
                    let mut first: Vec<Member> = Vec::new();
                    first.push(member.clone());
                    naughty_list.push(Group { id: group, members: first });
                    proof {
                        assert(member_views(first@) =~= seq![member@]);
                        assert(group_views(naughty_list@) =~= file_member(
                            group_views(naughty_before),
                            member@,
                        ));
                    }
                },
            }
        }
        i = i + 1;
    }
    proof {
        assert(all.take(members.len() as int) =~= all);
    }
    (naughty_list, nice_list)
}

/// The channels in which the four groups post their updates.
pub const GROUP_ONE_CHANNEL_ID: u64 = 1225098248293716008;

pub const GROUP_TWO_CHANNEL_ID: u64 = 1225098298935738489;

pub const GROUP_THREE_CHANNEL_ID: u64 = 1225098353378070710;

pub const GROUP_FOUR_CHANNEL_ID: u64 = 1225098407216156712;

/// The channel to which the report goes.
pub const STATUS_UPDATE_CHANNEL_ID: u64 = 764575524127244318;

/// The title and the colour of the report.
pub const REPORT_TITLE: &'static str = "Status Update Report";

pub const REPORT_COLOUR: u32 = 0xeab308;

/// How many messages are read from each group's channel.
pub const MESSAGES_PER_CHANNEL: u8 = 100;

/// The channels that are searched for updates, in order.
pub fn get_channel_ids() -> (ids: Vec<u64>)
    ensures
        ids@ == seq![
            GROUP_ONE_CHANNEL_ID,
            GROUP_TWO_CHANNEL_ID,
            GROUP_THREE_CHANNEL_ID,
            GROUP_FOUR_CHANNEL_ID,
        ],
{
    let mut ids: Vec<u64> = Vec::new();
    ids.push(GROUP_ONE_CHANNEL_ID);
    ids.push(GROUP_TWO_CHANNEL_ID);
    ids.push(GROUP_THREE_CHANNEL_ID);
    ids.push(GROUP_FOUR_CHANNEL_ID);
    proof {
        assert(ids@ =~= seq![
            GROUP_ONE_CHANNEL_ID,
            GROUP_TWO_CHANNEL_ID,
            GROUP_THREE_CHANNEL_ID,
            GROUP_FOUR_CHANNEL_ID,
        ]);
    }
    ids
}

/// The authors whose updates need not carry the opening words.
pub open spec fn is_special_author(author_id: Seq<char>) -> bool {
    author_id == "767636699077410837"@ || author_id == "1265880467047976970"@
}

/// Whether a message in lowercase reads as a status update: it carries
/// both set phrases, or its author is a special one and it carries the
/// closing phrase.
pub open spec fn reads_as_update(lower: Seq<char>, special_author: bool) -> bool {
    (contains_text(lower, "namah shivaya"@) && contains_text(lower, "regards"@)) || (
    special_author && contains_text(lower, "regards"@))
}

/// Whether the author is one of the special authors.
pub fn check_special_author(author_id: &str) -> (special: bool)
    ensures
        special == is_special_author(author_id@),
{
    let id: String = author_id.to_owned();
    id == "767636699077410837".to_owned() || id == "1265880467047976970".to_owned()
}

/// Whether a message, already in lowercase, reads as a status update.
pub fn is_valid_content(lower: &str, special_author: bool) -> (valid: bool)
    ensures
        valid == reads_as_update(lower@, special_author),
{
    let has_regards: bool = contains(lower, "regards");
    (contains(lower, "namah shivaya") && has_regards) || (special_author && has_regards)
}

/// Whether a message counts as a status update for the report made now:
/// it was sent at or after `valid_from` and, in lowercase, reads as one.
pub fn is_valid_status_update(
    content: &str,
    author_id: &str,
    sent_at: Timestamp,
    valid_from: Timestamp,
) -> (valid: bool)
    ensures
        valid == (sent_at.nanos >= valid_from.nanos && reads_as_update(
            lowercase_of(content@),
            is_special_author(author_id@),
        )),
{
    let lower: String = to_lowercase(content);
    let special: bool = check_special_author(author_id);
    sent_at.nanos >= valid_from.nanos && is_valid_content(lower.as_str(), special)
}

/// The instant from which messages count for the report made at `now`:
/// the last time the zone's clocks showed 8 PM.
pub fn valid_from(now: Timestamp, zone: UtcOffset) -> (from: Option<Timestamp>)
    ensures
        match from {
            Some(t) => t.nanos == recent_nanos(now, zone.seconds() as int, TimeOfDay::at(20, 0)),
            None => recent_nanos(now, zone.seconds() as int, TimeOfDay::at(20, 0)) < i128::MIN,
        },
{
    most_recent_occurrence(now, zone, TimeOfDay::at(20, 0))
}

/// The members by id. Where two members share an id the later one counts.
pub open spec fn member_index<'a>(members: Seq<Member>) -> Map<i32, &'a Member>
    decreases members.len(),
{
    if members.len() == 0 {
        Map::empty()
    } else {
        member_index(members.drop_last()).insert(members.last().member_id, &members.last())
    }
}

/// The leaderboard: the highest all-time streak and who holds it, then the
/// highest current streak and who holds it.
pub fn get_leaderboard_stats(streaks: &[StreakWithMemberId], members: &Vec<Member>) -> (r: (
    i32,
    Vec<Member>,
    i32,
    Vec<Member>,
))
    ensures
        r.0 == highest_streak(streaks@, member_index(members@), true),
        member_views(r.1@) == streak_holders(
            streaks@,
            member_index(members@),
            true,
            r.0 as int,
        ),
        r.2 == highest_streak(streaks@, member_index(members@), false),
        member_views(r.3@) == streak_holders(
            streaks@,
            member_index(members@),
            false,
            r.2 as int,
        ),
{
    broadcast use group_hash_axioms;

    let mut member_map: HashMap<i32, &Member> = HashMap::new();
    let mut i: usize = 0;
    proof {
        assert(members@.take(0) =~= Seq::<Member>::empty());
        assert(member_map@ =~= member_index(members@.take(0)));
    }
    while i < members.len()
        invariant
            i <= members.len(),
            member_map@ == member_index(members@.take(i as int)),
        decreases members.len() - i,
    {
        proof {
            assert(members@.take(i + 1).drop_last() =~= members@.take(i as int));
            assert(members@.take(i + 1).last() == members@[i as int]);
        }
        member_map.insert(members[i].member_id, &members[i]);
        i = i + 1;
    }
    proof {
        assert(members@.take(members.len() as int) =~= members@);
    }
    let (all_time_high, all_time_high_members) = find_highest_streak(streaks, &member_map, true);
    let (current_highest, current_highest_members) = find_highest_streak(
        streaks,
        &member_map,
        false,
    );
    (all_time_high, all_time_high_members, current_highest, current_highest_members)
}

/// The text of the report: the leaderboard, then, if anyone sent no
/// update, the defaulters.
pub open spec fn report_text(
    all_time_high: int,
    all_time_high_members: Seq<MemberView>,
    current_highest: int,
    current_highest_members: Seq<MemberView>,
    naughty_list: Seq<GroupView>,
) -> Seq<char> {
    "# Leaderboard Updates\n"@ + "## All-Time High Streak: "@ + decimal(all_time_high)
        + " days\n"@ + member_lines(all_time_high_members) + "## Current Highest Streak: "@
        + decimal(current_highest) + " days\n"@ + member_lines(current_highest_members) + (
    if naughty_list.len() > 0 {
        "# Defaulters\n"@ + (group_sections(naughty_list) + "\n"@)
    } else {
        Seq::empty()
    })
}

/// Writes the report.
pub fn report_description(
    all_time_high: i32,
    all_time_high_members: &Vec<Member>,
    current_highest: i32,
    current_highest_members: &Vec<Member>,
    naughty_list: &GroupedMember,
) -> (description: String)
    requires
        all_have_streaks(group_views(naughty_list@)),
    ensures
        description@ == report_text(
            all_time_high as int,
            member_views(all_time_high_members@),
            current_highest as int,
            member_views(current_highest_members@),
            group_views(naughty_list@),
        ),
{
    let mut description: String = String::new();
    description.append("# Leaderboard Updates\n");
    description.append("## All-Time High Streak: ");
    push_signed(&mut description, all_time_high as i64);
    description.append(" days\n");
    description.append(format_members(all_time_high_members.as_slice()).as_str());
    description.append("## Current Highest Streak: ");
    push_signed(&mut description, current_highest as i64);
    description.append(" days\n");
    description.append(format_members(current_highest_members.as_slice()).as_str());
    if naughty_list.len() > 0 {
        description.append("# Defaulters\n");
        description.append(format_defaulters(naughty_list).as_str());
    }
    proof {
        assert(description@ =~= report_text(
            all_time_high as int,
            member_views(all_time_high_members@),
            current_highest as int,
            member_views(current_highest_members@),
            group_views(naughty_list@),
        ));
    }
    description
}

} // verus!
