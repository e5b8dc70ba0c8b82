//! Roles that members give themselves by reacting to one message.

use vstd::prelude::*;
use vstd::string::*;

verus! {

/// The roles that can be had by reaction.
#[derive(Clone, Copy, Debug, PartialEq, Eq, Structural)]
pub struct RoleIds {
    pub archive: u64,
    pub mobile: u64,
    pub systems: u64,
    pub ai: u64,
    pub research: u64,
    pub devops: u64,
    pub web: u64,
}

/// One reaction and the role that it stands for.
#[derive(Debug)]
pub struct ReactionRole {
    pub emoji: String,
    pub role_id: u64,
}

/// What to do about a reaction.
#[derive(Clone, Copy, Debug, PartialEq, Eq, Structural)]
pub enum RoleChange {
    Add { role_id: u64 },
    Remove { role_id: u64 },
}

/// The role for `emoji` in `table`: that of the last entry with exactly
/// this emoji, if there is one.
pub open spec fn role_of(table: Seq<ReactionRole>, emoji: Seq<char>) -> Option<u64>
    decreases table.len(),
{
    if table.len() == 0 {
        None
    } else if table.last().emoji@ == emoji {
        Some(table.last().role_id)
    } else {
        role_of(table.drop_last(), emoji)
    }
}

/// The table of reactions: seven emoji, one for each role.
pub fn reaction_roles(ids: RoleIds) -> (table: Vec<ReactionRole>)
    ensures
        table@.len() == 7,
        table@[0].emoji@ == "📁"@ && table@[0].role_id == ids.archive,
        table@[1].emoji@ == "📱"@ && table@[1].role_id == ids.mobile,
        table@[2].emoji@ == "⚙️"@ && table@[2].role_id == ids.systems,
        table@[3].emoji@ == "🤖"@ && table@[3].role_id == ids.ai,
        table@[4].emoji@ == "📜"@ && table@[4].role_id == ids.research,
        table@[5].emoji@ == "🚀"@ && table@[5].role_id == ids.devops,
        table@[6].emoji@ == "🌐"@ && table@[6].role_id == ids.web,
{
    let mut table: Vec<ReactionRole> = Vec::new();
    table.push(ReactionRole { emoji: "📁".to_owned(), role_id: ids.archive });
    table.push(ReactionRole { emoji: "📱".to_owned(), role_id: ids.mobile });
    table.push(ReactionRole { emoji: "⚙️".to_owned(), role_id: ids.systems });
    table.push(ReactionRole { emoji: "🤖".to_owned(), role_id: ids.ai });
    table.push(ReactionRole { emoji: "📜".to_owned(), role_id: ids.research });
    table.push(ReactionRole { emoji: "🚀".to_owned(), role_id: ids.devops });
    table.push(ReactionRole { emoji: "🌐".to_owned(), role_id: ids.web });
    table
}

/// Looks up the role for a reaction. Only the very same emoji matches.
pub fn role_for(table: &Vec<ReactionRole>, emoji: &str) -> (role: Option<u64>)
    ensures
        role == role_of(table@, emoji@),
{
    let wanted: String = emoji.to_owned();
    let mut i: usize = table.len();
    proof {
        assert(table@.take(i as int) =~= table@);
    }
    while i > 0
        invariant
            i <= table.len(),
            wanted@ == emoji@,
            role_of(table@, emoji@) == role_of(table@.take(i as int), emoji@),
        decreases i,
    {
        proof {
            assert(table@.take(i as int).drop_last() =~= table@.take(i - 1));
            assert(table@.take(i as int).last() == table@[i - 1]);
        }
        i = i - 1;
        if table[i].emoji == wanted {
            return Some(table[i].role_id);
        }
    }
    proof {
        assert(table@.take(0) =~= Seq::<ReactionRole>::empty());
    }
    None
}

/// Whether a reaction matters: it is on the roles message and its emoji
/// stands for a role.
pub fn is_relevant_reaction(
    message_id: u64,
    roles_message_id: u64,
    emoji: &str,
    table: &Vec<ReactionRole>,
) -> (relevant: bool)
    ensures
        relevant == (message_id == roles_message_id && role_of(table@, emoji@) is Some),
{
    message_id == roles_message_id && role_for(table, emoji).is_some()
}

/// What a reaction asks for: the role to add or to take away, or nothing
/// if the reaction does not matter.
pub fn handle_reaction(
    message_id: u64,
    roles_message_id: u64,
    emoji: &str,
    table: &Vec<ReactionRole>,
    is_add: bool,
) -> (change: Option<RoleChange>)
    ensures
        change == if message_id != roles_message_id {
            None
        } else {
            match role_of(table@, emoji@) {
                Some(role_id) => Some(
                    if is_add {
                        RoleChange::Add { role_id }
                    } else {
                        RoleChange::Remove { role_id }
                    },
                ),
                None => None,
            }
        },
{
    if message_id != roles_message_id {
        return None;
    }
    match role_for(table, emoji) {
        Some(role_id) => Some(
            if is_add {
                RoleChange::Add { role_id }
            } else {
                RoleChange::Remove { role_id }
            },
        ),
        None => None,
    }
}

} // verus!
