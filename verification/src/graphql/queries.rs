//! Requests to the remote data service and what its answers mean.
//!
//! The requests are sent elsewhere. Here are the documents that are sent
//! and the rules by which an answer changes a member.

use vstd::prelude::*;
use vstd::string::*;
use crate::graphql::models::Member;
use crate::graphql::models::MemberView;
use crate::graphql::models::Streak;
use crate::text::decimal;
use crate::text::push_signed;

verus! {

/// The document that asks for all members.
pub const MEMBERS_QUERY: &'static str =
    "\n        { \n          members {\n            memberId\n            name\n            discordId\n            groupId\n            streak {\n              currentStreak\n              maxStreak\n            }\n        }\n    }";

/// The document that asks for all streaks.
pub const STREAKS_QUERY: &'static str =
    "\n        {\n          streaks {\n            memberId\n            currentStreak\n            maxStreak\n          }\n        }\n    ";

/// A change to a member's streak.
#[derive(Clone, Copy, Debug, PartialEq, Eq, Structural)]
pub enum StreakChange {
    /// The member sent an update: the streak grows.
    Increment,
    /// The member sent none: the streak starts over.
    Reset,
}

/// The name of the field under which the service performs and answers a
/// change.
pub open spec fn change_field(change: StreakChange) -> Seq<char> {
    match change {
        StreakChange::Increment => "incrementStreak"@,
        StreakChange::Reset => "resetStreak"@,
    }
}

/// The document that asks for `change` to the streak of member `member_id`.
pub open spec fn mutation_text(change: StreakChange, member_id: int) -> Seq<char> {
    "\n        mutation {\n            "@ + change_field(change) + "(input: { memberId: "@
        + decimal(member_id)
        + " }) {\n                currentStreak\n                maxStreak\n            }\n        }"@
}

/// The name of the field under which the service performs and answers a
/// change.
pub fn field_name(change: StreakChange) -> (name: &'static str)
    ensures
        name@ == change_field(change),
{
    match change {
        StreakChange::Increment => "incrementStreak",
        StreakChange::Reset => "resetStreak",
    }
}

/// Writes the document that asks for `change` to the streak of member
/// `member_id`.
pub fn streak_mutation(change: StreakChange, member_id: i32) -> (mutation: String)
    ensures
        mutation@ == mutation_text(change, member_id as int),
{
    let mut mutation: String = String::new();
    mutation.append("\n        mutation {\n            ");
    mutation.append(field_name(change));
    mutation.append("(input: { memberId: ");
    push_signed(&mut mutation, member_id as i64);
    mutation.append(
        " }) {\n                currentStreak\n                maxStreak\n            }\n        }",
    );
    proof {
        assert(mutation@ =~= mutation_text(change, member_id as int));
    }
    mutation
}

/// What the service answered to a change, as far as it is read: whether
/// the answer holds data under the change's field, and the two numbers
/// under it where they are integers.
#[derive(Clone, Copy, Debug, PartialEq, Eq, Structural)]
pub struct StreakReply {
    pub has_data: bool,
    pub current_streak: Option<i64>,
    pub max_streak: Option<i64>,
}

/// Why an answer to a change could not be used.
#[derive(Clone, Copy, Debug, PartialEq, Eq, Structural)]
pub enum ReplyError {
    /// The answer holds no data under the change's field.
    MissingData,
    /// The current streak is missing or no integer.
    MissingCurrentStreak,
    /// The longest streak is missing or no integer.
    MissingMaxStreak,
}

/// A 64-bit number cut down to its low 32 bits, read as a signed number.
pub open spec fn low_bits(n: i64) -> i32 {
    n as i32
}

/// The streak that an answer reports, or why it reports none. The numbers
/// are cut down to 32 bits.
pub open spec fn reported_streak(reply: StreakReply) -> Result<Streak, ReplyError> {
    if !reply.has_data {
        Err(ReplyError::MissingData)
    } else if reply.current_streak is None {
        Err(ReplyError::MissingCurrentStreak)
    } else if reply.max_streak is None {
        Err(ReplyError::MissingMaxStreak)
    } else {
        Ok(
            Streak {
                current_streak: low_bits(reply.current_streak->0),
                max_streak: low_bits(reply.max_streak->0),
            },
        )
    }
}

/// Reads the streak that an answer reports.
pub fn read_streak(reply: StreakReply) -> (r: Result<Streak, ReplyError>)
    ensures
        r == reported_streak(reply),
{
    if !reply.has_data {
        return Err(ReplyError::MissingData);
    }
    let current_streak: i32 = match reply.current_streak {
        Some(n) => #[verifier::truncate]
        (n as i32),
        None => return Err(ReplyError::MissingCurrentStreak),
    };
    let max_streak: i32 = match reply.max_streak {
        Some(n) => #[verifier::truncate]
        (n as i32),
        None => return Err(ReplyError::MissingMaxStreak),
    };
    Ok(Streak { current_streak, max_streak })
}

/// The member after the service's answer to a change: with the reported
/// streak on record if the answer could be used, else unchanged.
pub open spec fn member_after(member: MemberView, reply: StreakReply) -> MemberView {
    match reported_streak(reply) {
        Ok(streak) => MemberView {
            streak: if member.streak.len() == 0 {
                seq![streak]
            } else {
                Seq::new(member.streak.len(), |i: int| streak)
            },
            ..member
        },
        Err(_) => member,
    }
}

/// Takes the service's answer to a change into the member's record.
pub fn apply_reply(member: &mut Member, reply: StreakReply) -> (r: Result<(), ReplyError>)
    ensures
        final(member)@ == member_after(old(member)@, reply),
        match r {
            Ok(_) => reported_streak(reply) is Ok,
            Err(e) => reported_streak(reply) == Err::<Streak, ReplyError>(e),
        },
{
    match read_streak(reply) {
        Ok(streak) => {
            member.set_streak(streak.current_streak, streak.max_streak);
            Ok(())
        },
        Err(e) => Err(e),
    }
}

} // verus!
