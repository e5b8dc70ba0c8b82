//! The daily lab attendance report.

use vstd::prelude::*;
use vstd::string::*;
use crate::graphql::models::AttendanceRecord;
use crate::graphql::models::AttendanceView;
use crate::text::decimal;
use crate::text::lowercase_of;
use crate::text::push_signed;
use crate::text::push_unsigned;
use crate::text::to_lowercase;
use crate::clock::duration_until;
use crate::clock::Span;
use crate::clock::TimeOfDay;
use crate::clock::Timestamp;
use crate::clock::UtcOffset;
use crate::tasks::Task;

verus! {

/// Reports on lab attendance daily at 6 PM.
#[derive(Clone, Copy, Debug)]
pub struct PresenseReport;

impl Task for PresenseReport {
    open spec fn target(&self) -> TimeOfDay {
        TimeOfDay::at(18, 0)
    }

    open spec fn label(&self) -> Seq<char> {
        "Lab Attendance Check"@
    }

    fn name(&self) -> (r: &'static str) {
        "Lab Attendance Check"
    }

    fn due_at(&self) -> (t: TimeOfDay) {
        TimeOfDay::at(18, 0)
    }

    fn run_in(&self, now: Timestamp, zone: UtcOffset) -> (r: Span) {
        duration_until(now, zone, TimeOfDay::at(18, 0))
    }
}

/// Where the report's title and its author line point.
pub const TITLE_URL: &'static str = "https://www.amfoss.in/";

pub const AUTHOR_URL: &'static str = "https://github.com/amfoss/amd";

/// A member who arrives after this second of the day, 5:45 PM, is late.
pub const LATE_AFTER_SECONDS: u32 = 63_900;

/// The records of a list as values, in order.
pub open spec fn record_views(records: Seq<AttendanceRecord>) -> Seq<AttendanceView> {
    records.map_values(|r: AttendanceRecord| r@)
}

/// Where the fraction of a time starts: at its first full stop, or at its
/// end if it has none.
pub open spec fn fraction_start(text: Seq<char>) -> int
    decreases text.len(),
{
    if text.len() == 0 || text[0] == '.' {
        0
    } else {
        1 + fraction_start(text.drop_first())
    }
}

/// A time without its fraction.
pub open spec fn whole_part(text: Seq<char>) -> Seq<char> {
    text.subrange(0, fraction_start(text))
}

/// The fraction starts at the first full stop: no full stop stands before
/// it, and it is the end of the text or a full stop.
pub proof fn lemma_fraction_start(text: Seq<char>, at: int)
    requires
        0 <= at <= text.len(),
        forall|i: int| 0 <= i < at ==> text[i] != '.',
        at == text.len() || text[at] == '.',
    ensures
        fraction_start(text) == at,
    decreases at,
{
    if at > 0 {
        let rest = text.drop_first();
        assert forall|i: int| 0 <= i < at - 1 implies rest[i] != '.' by {
            assert(rest[i] == text[i + 1]);
        }
        lemma_fraction_start(rest, at - 1);
    }
}

/// Cuts the fraction off a time of arrival.
pub fn strip_fraction(time_str: &str) -> (whole: &str)
    ensures
        whole@ == whole_part(time_str@),
{
    let n: usize = time_str.unicode_len();
    let mut i: usize = 0;
    while i < n && time_str.get_char(i) != '.'
        invariant
            i <= n,
            n == time_str@.len(),
            forall|k: int| 0 <= k < i ==> time_str@[k] != '.',
        decreases n - i,
    {
        i = i + 1;
    }
    proof {
        lemma_fraction_start(time_str@, i as int);
    }
    time_str.substring_char(0, i)
}

/// The second of the day that a time written as `HH:MM:SS` names, as the
/// calendar library reads it; `None` where it reads no time.
pub uninterp spec fn clock_time_seconds(text: Seq<char>) -> Option<u32>;

/// `chrono::NaiveTime::parse_from_str` with the format `%H:%M:%S`, and
/// `chrono::Timelike::num_seconds_from_midnight` of the time it gives. The
/// parser reads the text alone, so equal texts give equal results.
#[verifier::external_body]
fn read_clock_time(text: &str) -> (seconds: Option<u32>)
    ensures
        seconds == clock_time_seconds(text@),
{
    match chrono::NaiveTime::parse_from_str(text, "%H:%M:%S") {
        Ok(time) => Some(chrono::Timelike::num_seconds_from_midnight(&time)),
        Err(_) => None,
    }
}

/// Reads a time of arrival, `HH:MM:SS` with an optional fraction, as a
/// second of the day.
pub fn parse_time(time_str: &str) -> (seconds: Option<u32>)
    ensures
        seconds == clock_time_seconds(whole_part(time_str@)),
{
    read_clock_time(strip_fraction(time_str))
}

/// Whether a record counts as absent: not marked present, or no time of
/// arrival.
pub open spec fn counts_absent(record: AttendanceView) -> bool {
    !record.is_present || record.time_in is None
}

/// Whether a record counts as late: present, and the time of arrival reads
/// as a time after 5:45 PM.
pub open spec fn counts_late(record: AttendanceView) -> bool {
    &&& !counts_absent(record)
    &&& clock_time_seconds(whole_part(record.time_in->0)) matches Some(seconds)
    &&& seconds > LATE_AFTER_SECONDS
}

/// Whether an arrival at `arrival`, as `parse_time` read it, is late.
pub fn is_late(arrival: Option<u32>) -> (late: bool)
    ensures
        late == (arrival matches Some(seconds) && seconds > LATE_AFTER_SECONDS),
{
    match arrival {
        Some(seconds) => seconds > LATE_AFTER_SECONDS,
        None => false,
    }
}

/// The absent among the records, in order.
pub open spec fn absent_records(records: Seq<AttendanceView>) -> Seq<AttendanceView>
    decreases records.len(),
{
    if records.len() == 0 {
        Seq::empty()
    } else if counts_absent(records.last()) {
        absent_records(records.drop_last()).push(records.last())
    } else {
        absent_records(records.drop_last())
    }
}

/// The late among the records, in order.
pub open spec fn late_records(records: Seq<AttendanceView>) -> Seq<AttendanceView>
    decreases records.len(),
{
    if records.len() == 0 {
        Seq::empty()
    } else if counts_late(records.last()) {
        late_records(records.drop_last()).push(records.last())
    } else {
        late_records(records.drop_last())
    }
}

/// What a day's attendance comes to.
#[derive(Debug)]
pub struct AttendanceCheck {
    /// The members who were absent.
    pub absent_list: Vec<AttendanceRecord>,
    /// The members who came late.
    pub late_list: Vec<AttendanceRecord>,
    /// How many records there were.
    pub total_count: usize,
    /// Whether everyone was absent, so that the lab counts as closed.
    pub lab_closed: bool,
}

/// There are no more absent members than records.
pub proof fn lemma_absent_at_most_all(records: Seq<AttendanceView>)
    ensures
        absent_records(records).len() <= records.len(),
    decreases records.len(),
{
    if records.len() > 0 {
        lemma_absent_at_most_all(records.drop_last());
    }
}

/// Goes through the day's records: who was absent, who came late, and
/// whether the lab was closed, which it was if everyone was absent.
pub fn check_lab_attendance(attendance: &Vec<AttendanceRecord>) -> (check: AttendanceCheck)
    ensures
        record_views(check.absent_list@) == absent_records(record_views(attendance@)),
        record_views(check.late_list@) == late_records(record_views(attendance@)),
        check.total_count == attendance@.len(),
        check.lab_closed == (check.absent_list@.len() == attendance@.len()),
        check.absent_list@.len() <= check.total_count,
{
    let ghost all = record_views(attendance@);
    let mut absent_list: Vec<AttendanceRecord> = Vec::new();
    let mut late_list: Vec<AttendanceRecord> = Vec::new();
    let mut i: usize = 0;
    proof {
        assert(all.take(0) =~= Seq::<AttendanceView>::empty());
        assert(record_views(absent_list@) =~= Seq::<AttendanceView>::empty());
        assert(record_views(late_list@) =~= Seq::<AttendanceView>::empty());
    }
    while i < attendance.len()
        invariant
            i <= attendance.len(),
            all == record_views(attendance@),
            record_views(absent_list@) == absent_records(all.take(i as int)),
            record_views(late_list@) == late_records(all.take(i as int)),
        decreases attendance.len() - i,
    {
        let record: &AttendanceRecord = &attendance[i];
        let ghost absent_before = absent_list@;
        let ghost late_before = late_list@;
        proof {
            assert(all.take(i + 1).drop_last() =~= all.take(i as int));
            assert(all.take(i + 1).last() == record@);
        }
        match &record.time_in {
            Some(time_str) => {
                if !record.is_present {
                    absent_list.push(record.clone());
                    proof {
                        assert(record_views(absent_list@) =~= record_views(absent_before).push(
                            record@,
                        ));
                    }
                } else if is_late(parse_time(time_str.as_str())) {
                    late_list.push(record.clone());
                    proof {
                        assert(record_views(late_list@) =~= record_views(late_before).push(
                            record@,
                        ));
                    }
                }
            },
            None => {
                absent_list.push(record.clone());
                proof {
                    assert(record_views(absent_list@) =~= record_views(absent_before).push(
                        record@,
                    ));
                }
            },
        }
        i = i + 1;
    }
    proof {
        assert(all.take(attendance.len() as int) =~= all);
        lemma_absent_at_most_all(all);
        assert(record_views(absent_list@).len() == absent_list@.len());
    }
    let total_count: usize = attendance.len();
    let lab_closed: bool = absent_list.len() == total_count;
    AttendanceCheck { absent_list, late_list, total_count, lab_closed }
}

/// The lines for the members of one year, in the order of the records.
pub open spec fn name_lines(records: Seq<AttendanceView>, year: int) -> Seq<char>
    decreases records.len(),
{
    if records.len() == 0 {
        Seq::empty()
    } else if records.last().year == year {
        name_lines(records.drop_last(), year) + ("- "@ + records.last().name + "\n"@)
    } else {
        name_lines(records.drop_last(), year)
    }
}

/// Whether a record of that year is among the records.
pub open spec fn has_year(records: Seq<AttendanceView>, year: int) -> bool {
    exists|i: int| 0 <= i < records.len() && (#[trigger] records[i]).year == year
}

/// The heading and lines for one year, or nothing if the year has no
/// record.
pub open spec fn year_section(records: Seq<AttendanceView>, year: int) -> Seq<char> {
    if has_year(records, year) {
        "### Year "@ + decimal(year) + "\n"@ + name_lines(records, year) + "\n"@
    } else {
        Seq::empty()
    }
}

/// A list that is not empty: the heading, then years one to three. Records
/// of other years are left out.
pub open spec fn attendance_list_text(title: Seq<char>, records: Seq<AttendanceView>) -> Seq<
    char,
> {
    "# "@ + title + "\n"@ + year_section(records, 1) + year_section(records, 2) + year_section(
        records,
        3,
    )
}

/// What stands in place of an empty list.
pub open spec fn empty_list_text(title: Seq<char>, lower_title: Seq<char>) -> Seq<char> {
    "**"@ + title + "**\nNo one is "@ + lower_title + " today! 🎉\n\n"@
}

/// A list under its title, as the report shows it.
pub open spec fn list_text(title: Seq<char>, records: Seq<AttendanceView>) -> Seq<char> {
    if records.len() == 0 {
        empty_list_text(title, lowercase_of(title))
    } else {
        attendance_list_text(title, records)
    }
}

/// Writes what stands in place of an empty list; `lower_title` is the
/// title in lowercase.
pub fn format_empty_list(title: &str, lower_title: &str) -> (text: String)
    ensures
        text@ == empty_list_text(title@, lower_title@),
{
    let mut text: String = String::new();
    text.append("**");
    text.append(title);
    text.append("**\nNo one is ");
    text.append(lower_title);
    text.append(" today! 🎉\n\n");
    proof {
        assert(text@ =~= empty_list_text(title@, lower_title@));
    }
    text
}

fn push_year_section(text: &mut String, list: &[AttendanceRecord], year: i32)
    requires
        year >= 0,
    ensures
        final(text)@ == old(text)@ + year_section(record_views(list@), year as int),
{
    let ghost all = record_views(list@);
    let mut lines: String = String::new();
    let mut found: bool = false;
    let mut i: usize = 0;
    proof {
        assert(all.take(0) =~= Seq::<AttendanceView>::empty());
    }
    while i < list.len()
        invariant
            i <= list.len(),
            all == record_views(list@),
            lines@ == name_lines(all.take(i as int), year as int),
            found == has_year(all.take(i as int), year as int),
        decreases list.len() - i,
    {
        let ghost before = lines@;
        proof {
            assert(all.take(i + 1).drop_last() =~= all.take(i as int));
            assert(all.take(i + 1).last() == list@[i as int]@);
        }
        if list[i].year == year {
            lines.append("- ");
            lines.append(list[i].name.as_str());
            lines.append("\n");
            found = true;
            proof {
                assert(lines@ =~= before + ("- "@ + list@[i as int]@.name + "\n"@));
                assert(all.take(i + 1)[i as int].year == year);
            }
        } else {
            proof {
                if has_year(all.take(i + 1), year as int) {
                    let k = choose|k: int|
                        0 <= k < all.take(i + 1).len() && (#[trigger] all.take(i + 1)[k]).year
                            == year;
                    assert(all.take(i as int)[k] == all.take(i + 1)[k]);
                }
                if has_year(all.take(i as int), year as int) {
                    let k = choose|k: int|
                        0 <= k < all.take(i as int).len() && (#[trigger] all.take(
                            i as int,
                        )[k]).year == year;
                    assert(all.take(i + 1)[k] == all.take(i as int)[k]);
                }
            }
        }
        i = i + 1;
    }
    proof {
        assert(all.take(list.len() as int) =~= all);
    }
    if found {
        let ghost before = text@;
        text.append("### Year ");
        push_signed(text, year as i64);
        text.append("\n");
        text.append(lines.as_str());
        text.append("\n");
        proof {
            assert(text@ =~= before + year_section(all, year as int));
        }
    } else {
        proof {
            assert(text@ =~= old(text)@ + year_section(all, year as int));
        }
    }
}

/// Writes a list of members under its title, year by year; if the list is
/// empty, a line that says so.
pub fn format_attendance_list(title: &str, list: &[AttendanceRecord]) -> (text: String)
    ensures
        text@ == list_text(title@, record_views(list@)),
{
    if list.len() == 0 {
        let lower: String = to_lowercase(title);
        return format_empty_list(title, lower.as_str());
    }
    let mut result: String = String::new();
    result.append("# ");
    result.append(title);
    result.append("\n");
    push_year_section(&mut result, list, 1);
    push_year_section(&mut result, list, 2);
    push_year_section(&mut result, list, 3);
    proof {
        assert(result@ =~= attendance_list_text(title@, record_views(list@)));
    }
    result
}

/// The figures at the head of the report.
pub open spec fn stats_text(present: int, percentage: int, absent: int, late: int) -> Seq<char> {
    "# Stats\n- Present: "@ + decimal(present) + " ("@ + decimal(percentage)
        + "%)\n- Absent: "@ + decimal(absent) + "\n- Late: "@ + decimal(late) + "\n\n"@
}

/// Writes the report for a day on which the lab was open: the figures,
/// then who was absent, then who was late. `percentage` is the share of
/// members present, in whole per cent.
pub fn attendance_description(
    absent_list: &Vec<AttendanceRecord>,
    late_list: &Vec<AttendanceRecord>,
    total_count: usize,
    percentage: i32,
) -> (description: String)
    requires
        absent_list@.len() <= total_count,
    ensures
        description@ == stats_text(
            total_count - absent_list@.len(),
            percentage as int,
            absent_list@.len() as int,
            late_list@.len() as int,
        ) + list_text("Absent"@, record_views(absent_list@)) + list_text(
            "Late"@,
            record_views(late_list@),
        ),
{
    let present: usize = total_count - absent_list.len();
    let mut description: String = String::new();
    description.append("# Stats\n- Present: ");
    push_unsigned(&mut description, present as u64);
    description.append(" (");
    push_signed(&mut description, percentage as i64);
    description.append("%)\n- Absent: ");
    push_unsigned(&mut description, absent_list.len() as u64);
    description.append("\n- Late: ");
    push_unsigned(&mut description, late_list.len() as u64);
    description.append("\n\n");
    proof {
        assert(description@ =~= stats_text(
            total_count - absent_list@.len(),
            percentage as int,
            absent_list@.len() as int,
            late_list@.len() as int,
        ));
    }
    description.append(format_attendance_list("Absent", absent_list.as_slice()).as_str());
    description.append(format_attendance_list("Late", late_list.as_slice()).as_str());
    description
}

/// What the report says on a day on which everyone was absent.
pub const LAB_CLOSED_MESSAGE: &'static str =
    "Uh-oh, seems like the lab is closed today! 🏖️ Everyone is absent!";

/// The day on which the instant `utc_secs` seconds after the epoch falls in
/// UTC, written as month name, day and year; `None` where the calendar
/// cannot hold the instant.
pub uninterp spec fn long_date(utc_secs: i64) -> Option<Seq<char>>;

/// `chrono::DateTime::from_timestamp`, then `chrono::DateTime::format` with
/// `%B %d, %Y`, written out. The text depends on the instant alone: the
/// month names are the library's own, in English.
#[verifier::external_body]
fn write_long_date(utc_secs: i64) -> (date: Option<String>)
    ensures
        match date {
            Some(text) => long_date(utc_secs) == Some(text@),
            None => long_date(utc_secs) is None,
        },
{
    let at = chrono::DateTime::from_timestamp(utc_secs, 0)?;
    Some(at.format("%B %d, %Y").to_string())
}

/// The report's title for a day written as `date`.
pub fn title_for(date: &str) -> (title: String)
    ensures
        title@ == "Presense Report - "@ + date@,
{
    let mut title: String = String::new();
    title.append("Presense Report - ");
    title.append(date);
    proof {
        assert(title@ =~= "Presense Report - "@ + date@);
    }
    title
}

/// The date at `now` in UTC, as the title shows it.
pub open spec fn date_at(now: Timestamp) -> Option<Seq<char>> {
    if i64::MIN <= now.whole_secs() <= i64::MAX {
        long_date(now.whole_secs() as i64)
    } else {
        None
    }
}

/// The title of the report made at `now`: it names the day in UTC.
pub fn report_title(now: Timestamp) -> (title: Option<String>)
    ensures
        match title {
            Some(text) => date_at(now) matches Some(date) && text@ == "Presense Report - "@
                + date,
            None => date_at(now) is None,
        },
{
    match now.secs() {
        Some(secs) => match write_long_date(secs) {
            Some(date) => Some(title_for(date.as_str())),
            None => None,
        },
        None => None,
    }
}

} // verus!
