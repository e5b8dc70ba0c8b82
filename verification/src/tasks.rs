//! Jobs: what the scheduler drives.
//!
//! A job has a name, for diagnostics, and a time of day at which it is due
//! once a day. What a job does when it runs touches the network and lives
//! with the caller; the rules that its run applies are in the submodules.

use vstd::prelude::*;
use vstd::string::*;
use crate::clock::occurrence_today;
use crate::clock::target_today;
use crate::text::contains;
use crate::text::contains_text;
use crate::text::decimal_digits;
use crate::text::lowercase_of;
use crate::text::push_unsigned;
use crate::text::quote;
use crate::text::quoted;
use crate::text::split_words;
use crate::text::to_lowercase;
use crate::text::words_of;
use crate::clock::delay_nanos;
use crate::clock::duration_until;
use crate::clock::Span;
use crate::clock::TimeOfDay;
use crate::clock::Timestamp;
use crate::clock::UtcOffset;
use crate::clock::NANOS_PER_DAY;

pub mod lab_attendance;
pub mod status_update;

verus! {

/// A unit of recurring work, due once a day at its own time of day.
pub trait Task {
    /// The time of day at which the job is due.
    spec fn target(&self) -> TimeOfDay;

    /// The job's name as a sequence of characters.
    spec fn label(&self) -> Seq<char>;

    /// A stable, readable name, used for diagnostics only.
    fn name(&self) -> (r: &'static str)
        ensures
            r@ == self.label(),
    ;

    /// The time of day at which the job is due.
    fn due_at(&self) -> (t: TimeOfDay)
        ensures
            t == self.target(),
            t.wf(),
    ;

    /// The time to wait from `now` until the job is next due. It is
    /// computed afresh from `now` at every call and is never zero.
    fn run_in(&self, now: Timestamp, zone: UtcOffset) -> (r: Span)
        ensures
            r.nanos == delay_nanos(now, zone.seconds() as int, self.target()),
            0 < r.nanos <= NANOS_PER_DAY,
    ;
}

/// Checks at 5 AM every day that each member is named in an update of the
/// day before.
#[derive(Clone, Copy, Debug)]
pub struct StatusUpdateCheck;

impl Task for StatusUpdateCheck {
    open spec fn target(&self) -> TimeOfDay {
        TimeOfDay::at(5, 0)
    }

    open spec fn label(&self) -> Seq<char> {
        "StatusUpdateCheck"@
    }

    fn name(&self) -> (r: &'static str) {
        "StatusUpdateCheck"
    }

    fn due_at(&self) -> (t: TimeOfDay) {
        TimeOfDay::at(5, 0)
    }

    fn run_in(&self, now: Timestamp, zone: UtcOffset) -> (r: Span) {
        duration_until(now, zone, TimeOfDay::at(5, 0))
    }
}

/// How many messages are read from each group's channel.
pub const MESSAGES_PER_CHANNEL: u8 = 50;

/// What is said when nobody is missing.
pub const EVERYONE_SENT: &'static str = "Everyone sent their update today!";

/// A message as the check reads it.
#[derive(Debug)]
pub struct Update {
    pub content: String,
    pub sent_at: Timestamp,
}

/// Whether a text in lowercase carries both set phrases of an update.
pub open spec fn has_set_phrases(lower: Seq<char>) -> bool {
    contains_text(lower, "namah shivaya"@) && contains_text(lower, "regards"@)
}

/// Whether a message counts for the check: it was sent in the day that
/// ends at `today_five_am`, that instant left out, and in lowercase it
/// carries both set phrases.
pub open spec fn counts_as_update(update: Update, today_five_am: Timestamp) -> bool {
    &&& today_five_am.nanos - NANOS_PER_DAY <= update.sent_at.nanos < today_five_am.nanos
    &&& has_set_phrases(lowercase_of(update.content@))
}

/// Whether an instant lies in the day that ends at `today_five_am`.
pub fn in_window(sent_at: Timestamp, today_five_am: Timestamp) -> (inside: bool)
    ensures
        inside == (today_five_am.nanos - NANOS_PER_DAY <= sent_at.nanos < today_five_am.nanos),
{
    if sent_at.nanos >= today_five_am.nanos {
        false
    } else if today_five_am.nanos < i128::MIN + NANOS_PER_DAY {
        true
    } else {
        sent_at.nanos >= today_five_am.nanos - NANOS_PER_DAY
    }
}

/// Whether a text, already in lowercase, carries both set phrases.
pub fn carries_set_phrases(lower: &str) -> (carries: bool)
    ensures
        carries == has_set_phrases(lower@),
{
    contains(lower, "namah shivaya") && contains(lower, "regards")
}

/// The texts of the messages that count as updates, in order.
pub open spec fn update_texts(messages: Seq<Update>, today_five_am: Timestamp) -> Seq<Seq<char>>
    decreases messages.len(),
{
    if messages.len() == 0 {
        Seq::empty()
    } else if counts_as_update(messages.last(), today_five_am) {
        update_texts(messages.drop_last(), today_five_am).push(messages.last().content@)
    } else {
        update_texts(messages.drop_last(), today_five_am)
    }
}

/// The texts of a list of strings, in order.
pub open spec fn texts(strings: Seq<String>) -> Seq<Seq<char>> {
    strings.map_values(|s: String| s@)
}

/// Picks the messages that count as updates and keeps their texts.
pub fn valid_updates(messages: &Vec<Update>, today_five_am: Timestamp) -> (updates: Vec<String>)
    ensures
        texts(updates@) == update_texts(messages@, today_five_am),
{
    let mut updates: Vec<String> = Vec::new();
    let mut i: usize = 0;
    proof {
        assert(messages@.take(0) =~= Seq::<Update>::empty());
        assert(texts(updates@) =~= Seq::<Seq<char>>::empty());
    }
    while i < messages.len()
        invariant
            i <= messages.len(),
            texts(updates@) == update_texts(messages@.take(i as int), today_five_am),
        decreases messages.len() - i,
    {
        let ghost before = updates@;
        proof {
            assert(messages@.take(i + 1).drop_last() =~= messages@.take(i as int));
            assert(messages@.take(i + 1).last() == messages@[i as int]);
        }
        if in_window(messages[i].sent_at, today_five_am) {
            let lower: String = to_lowercase(messages[i].content.as_str());
            if carries_set_phrases(lower.as_str()) {
                updates.push(messages[i].content.clone());
                proof {
                    assert(texts(updates@) =~= texts(before).push(messages@[i as int].content@));
                }
            }
        }
        i = i + 1;
    }
    proof {
        assert(messages@.take(messages.len() as int) =~= messages@);
    }
    updates
}

/// The instant at which the day that counts ends: 5 AM on the local day
/// that holds `now`.
pub fn get_five_am_timestamp(now: Timestamp, zone: UtcOffset) -> (at: Option<Timestamp>)
    ensures
        match at {
            Some(t) => t.nanos == target_today(now, zone.seconds() as int, TimeOfDay::at(5, 0)),
            None => {
                ||| target_today(now, zone.seconds() as int, TimeOfDay::at(5, 0)) < i128::MIN
                ||| target_today(now, zone.seconds() as int, TimeOfDay::at(5, 0)) > i128::MAX
            },
        },
{
    occurrence_today(now, zone, TimeOfDay::at(5, 0))
}

/// The word at `position` among the words of a name, or the empty text if
/// the name has fewer words.
pub open spec fn word_at(words: Seq<Seq<char>>, position: int) -> Seq<char> {
    if 0 <= position < words.len() {
        words[position]
    } else {
        Seq::empty()
    }
}

/// Whether one of the updates names the member by first or by last name. A
/// name that is missing is the empty text, which every update holds.
pub open spec fn is_named(updates: Seq<Seq<char>>, first_name: Seq<char>, last_name: Seq<char>)
    -> bool {
    exists|i: int|
        0 <= i < updates.len() && (contains_text(#[trigger] updates[i], first_name)
            || contains_text(updates[i], last_name))
}

/// Whether a member has sent an update: one of the updates holds the first
/// or the second word of the member's name.
pub open spec fn has_sent_update(updates: Seq<Seq<char>>, member: Seq<char>) -> bool {
    is_named(updates, word_at(words_of(member), 0), word_at(words_of(member), 1))
}

/// Whether one of the updates names the member by first or by last name.
pub fn names_member(updates: &Vec<String>, first_name: &str, last_name: &str) -> (named: bool)
    ensures
        named == is_named(texts(updates@), first_name@, last_name@),
{
    let mut i: usize = 0;
    while i < updates.len()
        invariant
            i <= updates.len(),
            forall|k: int|
                0 <= k < i ==> !contains_text(#[trigger] texts(updates@)[k], first_name@)
                    && !contains_text(texts(updates@)[k], last_name@),
        decreases updates.len() - i,
    {
        proof {
            assert(texts(updates@)[i as int] == updates@[i as int]@);
        }
        if contains(updates[i].as_str(), first_name) || contains(updates[i].as_str(), last_name) {
            return true;
        }
        i = i + 1;
    }
    false
}

/// The members who have sent no update, in the order of the member list.
pub open spec fn missing_members(members: Seq<Seq<char>>, updates: Seq<Seq<char>>) -> Seq<
    Seq<char>,
>
    decreases members.len(),
{
    if members.len() == 0 {
        Seq::empty()
    } else if has_sent_update(updates, members.last()) {
        missing_members(members.drop_last(), updates)
    } else {
        missing_members(members.drop_last(), updates).push(members.last())
    }
}

/// Lists the members whom no update names.
pub fn find_missing_members(members: &Vec<String>, updates: &Vec<String>) -> (naughty_list: Vec<
    String,
>)
    ensures
        texts(naughty_list@) == missing_members(texts(members@), texts(updates@)),
{
    let ghost all = texts(members@);
    let mut naughty_list: Vec<String> = Vec::new();
    let mut i: usize = 0;
    proof {
        assert(all.take(0) =~= Seq::<Seq<char>>::empty());
        assert(texts(naughty_list@) =~= Seq::<Seq<char>>::empty());
    }
    while i < members.len()
        invariant
            i <= members.len(),
            all == texts(members@),
            texts(naughty_list@) == missing_members(all.take(i as int), texts(updates@)),
        decreases members.len() - i,
    {
        let ghost before = naughty_list@;
        proof {
            assert(all.take(i + 1).drop_last() =~= all.take(i as int));
            assert(all.take(i + 1).last() == members@[i as int]@);
        }
        let name_parts: Vec<String> = split_words(members[i].as_str());
        let empty: String = String::new();
        let first_name: &String = if name_parts.len() > 0 {
            &name_parts[0]
        } else {
            &empty
        };
        let last_name: &String = if name_parts.len() > 1 {
            &name_parts[1]
        } else {
            &empty
        };
        if !names_member(updates, first_name.as_str(), last_name.as_str()) {
            naughty_list.push(members[i].clone());
            proof {
                assert(texts(naughty_list@) =~= texts(before).push(members@[i as int]@));
            }
        }
        i = i + 1;
    }
    proof {
        assert(all.take(members.len() as int) =~= all);
    }
    naughty_list
}

/// The numbered lines of the report, one for each name as it is written
/// for the list, lines set apart by a line break.
pub open spec fn numbered_lines(written: Seq<Seq<char>>) -> Seq<char>
    decreases written.len(),
{
    if written.len() == 0 {
        Seq::empty()
    } else if written.len() == 1 {
        decimal_digits(1) + ". "@ + written[0]
    } else {
        numbered_lines(written.drop_last()) + "\n"@ + decimal_digits(written.len()) + ". "@
            + written.last()
    }
}

/// What is said when members are missing; `written` holds their names as
/// they are written for the list.
pub open spec fn missing_text(written: Seq<Seq<char>>) -> Seq<char> {
    "These members did not send their updates:\n"@ + numbered_lines(written)
}

/// Writes the report on the members whose names, as written for the list,
/// are `written`: that everyone sent an update, or the numbered list of
/// those who did not.
pub fn report_on(written: &Vec<String>) -> (report: String)
    ensures
        report@ == if written@.len() == 0 {
            EVERYONE_SENT@
        } else {
            missing_text(texts(written@))
        },
{
    if written.len() == 0 {
        return EVERYONE_SENT.to_owned();
    }
    let ghost all = texts(written@);
    let mut lines: String = String::new();
    let mut i: usize = 0;
    proof {
        assert(all.take(0) =~= Seq::<Seq<char>>::empty());
    }
    while i < written.len()
        invariant
            i <= written.len(),
            all == texts(written@),
            lines@ == numbered_lines(all.take(i as int)),
        decreases written.len() - i,
    {
        let ghost before = lines@;
        if i > 0 {
            lines.append("\n");
        }
        push_unsigned(&mut lines, (i as u64) + 1);
        lines.append(". ");
        lines.append(written[i].as_str());
        proof {
            assert(all.take(i + 1).drop_last() =~= all.take(i as int));
            assert(all.take(i + 1).last() == written@[i as int]@);
            assert(all.take(i + 1).len() == i + 1);
            if i > 0 {
                assert(lines@ =~= before + "\n"@ + decimal_digits((i + 1) as nat) + ". "@
                    + written@[i as int]@);
            } else {
                assert(all.take(1)[0] == written@[0]@);
                assert(lines@ =~= decimal_digits(1) + ". "@ + written@[0]@);
            }
        }
        i = i + 1;
    }
    proof {
        assert(all.take(written.len() as int) =~= all);
    }
    let mut report: String = String::new();
    report.append("These members did not send their updates:\n");
    report.append(lines.as_str());
    proof {
        assert(report@ =~= missing_text(all));
    }
    report
}

/// The names as the list shows them: each in double quotes, with escapes.
pub open spec fn quoted_names(names: Seq<Seq<char>>) -> Seq<Seq<char>> {
    names.map_values(|name: Seq<char>| quoted(name))
}

/// Writes the report on the members in `naughty_list`.
pub fn missing_report(naughty_list: &Vec<String>) -> (report: String)
    ensures
        report@ == if naughty_list@.len() == 0 {
            EVERYONE_SENT@
        } else {
            missing_text(quoted_names(texts(naughty_list@)))
        },
{
    let mut written: Vec<String> = Vec::new();
    let mut i: usize = 0;
    while i < naughty_list.len()
        invariant
            i <= naughty_list.len(),
            written@.len() == i,
            forall|k: int| 0 <= k < i ==> (#[trigger] written@[k])@ == quoted(naughty_list@[k]@),
        decreases naughty_list.len() - i,
    {
        written.push(quote(naughty_list[i].as_str()));
        i = i + 1;
    }
    proof {
        assert(texts(written@) =~= quoted_names(texts(naughty_list@)));
    }
    report_on(&written)
}

/// A job's delay depends on the job, the instant and the zone alone: two
/// calls of `run_in` on the same three return the same span, whichever job
/// it is and however often it is asked.
pub proof fn lemma_run_in_is_a_function<T: Task>(
    job: &T,
    now: Timestamp,
    zone: UtcOffset,
    first: Span,
    second: Span,
)
    requires
        call_ensures(T::run_in, (job, now, zone), first),
        call_ensures(T::run_in, (job, now, zone), second),
    ensures
        first == second,
{
}

/// Any of the jobs that this library knows.
#[derive(Clone, Copy, Debug)]
pub enum Job {
    /// The status-update check that keeps streaks.
    StatusUpdate(status_update::StatusUpdateCheck),
    /// The lab attendance report.
    Presence(lab_attendance::PresenseReport),
    /// The status-update check that goes by names.
    NamedStatusUpdate(StatusUpdateCheck),
}

impl Task for Job {
    open spec fn target(&self) -> TimeOfDay {
        match self {
            Job::StatusUpdate(job) => job.target(),
            Job::Presence(job) => job.target(),
            Job::NamedStatusUpdate(job) => job.target(),
        }
    }

    open spec fn label(&self) -> Seq<char> {
        match self {
            Job::StatusUpdate(job) => job.label(),
            Job::Presence(job) => job.label(),
            Job::NamedStatusUpdate(job) => job.label(),
        }
    }

    fn name(&self) -> (r: &'static str) {
        match self {
            Job::StatusUpdate(job) => job.name(),
            Job::Presence(job) => job.name(),
            Job::NamedStatusUpdate(job) => job.name(),
        }
    }

    fn due_at(&self) -> (t: TimeOfDay) {
        match self {
            Job::StatusUpdate(job) => job.due_at(),
            Job::Presence(job) => job.due_at(),
            Job::NamedStatusUpdate(job) => job.due_at(),
        }
    }

    fn run_in(&self, now: Timestamp, zone: UtcOffset) -> (r: Span) {
        match self {
            Job::StatusUpdate(job) => job.run_in(now, zone),
            Job::Presence(job) => job.run_in(now, zone),
            Job::NamedStatusUpdate(job) => job.run_in(now, zone),
        }
    }
}

/// The jobs that run every day: the status-update check at 5 AM and the
/// lab attendance report at 6 PM.
pub fn get_tasks() -> (tasks: Vec<Job>)
    ensures
        tasks@.len() == 2,
        tasks@[0] == Job::StatusUpdate(status_update::StatusUpdateCheck),
        tasks@[1] == Job::Presence(lab_attendance::PresenseReport),
        tasks@[0].target() == TimeOfDay::at(5, 0),
        tasks@[1].target() == TimeOfDay::at(18, 0),
{
    let mut tasks: Vec<Job> = Vec::new();
    tasks.push(Job::StatusUpdate(status_update::StatusUpdateCheck));
    tasks.push(Job::Presence(lab_attendance::PresenseReport));
    tasks
}

} // verus!
