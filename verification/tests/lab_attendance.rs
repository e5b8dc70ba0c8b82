use amd::clock::Timestamp;
use amd::graphql::models::AttendanceRecord;
use amd::tasks::lab_attendance::attendance_description;
use amd::tasks::lab_attendance::check_lab_attendance;
use amd::tasks::lab_attendance::format_attendance_list;
use amd::tasks::lab_attendance::format_empty_list;
use amd::tasks::lab_attendance::is_late;
use amd::tasks::lab_attendance::parse_time;
use amd::tasks::lab_attendance::report_title;
use amd::tasks::lab_attendance::strip_fraction;
use amd::tasks::lab_attendance::title_for;

fn record(name: &str, year: i32, present: bool, time_in: Option<&str>) -> AttendanceRecord {
    AttendanceRecord {
        name: name.to_string(),
        year,
        is_present: present,
        time_in: time_in.map(|t| t.to_string()),
    }
}

fn names(records: &[AttendanceRecord]) -> Vec<String> {
    records.iter().map(|r| r.name.clone()).collect()
}

#[test]
fn fraction_is_cut_at_the_first_full_stop() {
    assert_eq!(strip_fraction("17:45:01.123456"), "17:45:01");
    assert_eq!(strip_fraction("17:45:01"), "17:45:01");
    assert_eq!(strip_fraction("1.2.3"), "1");
    assert_eq!(strip_fraction(".5"), "");
    assert_eq!(strip_fraction(""), "");
    assert_eq!(strip_fraction("héllo.wörld"), "héllo");
}

#[test]
fn time_of_arrival_is_read_as_a_second_of_the_day() {
    assert_eq!(parse_time("00:00:00"), Some(0));
    assert_eq!(parse_time("17:45:00.000001"), Some(63_900));
    assert_eq!(parse_time("17:45:01.5"), Some(63_901));
    assert_eq!(parse_time("23:59:59"), Some(86_399));
    assert_eq!(parse_time("24:00:00"), None);
    assert_eq!(parse_time("17:45"), None);
    assert_eq!(parse_time("soon"), None);
    assert_eq!(parse_time(""), None);
}

#[test]
fn late_is_after_a_quarter_to_six() {
    assert!(!is_late(Some(63_900)));
    assert!(is_late(Some(63_901)));
    assert!(!is_late(Some(0)));
    assert!(!is_late(None));
}

#[test]
fn records_are_sorted_into_absent_and_late() {
    let attendance = vec![
        record("Asha", 1, true, Some("16:00:00.25")),
        record("Ravi", 2, false, Some("16:00:00")),
        record("Zed", 3, true, None),
        record("Yan", 1, true, Some("17:45:01")),
        record("Xi", 2, true, Some("17:45:00.999")),
        record("Wu", 2, true, Some("later")),
        record("Vik", 3, true, Some("18:30:00.1")),
    ];
    let check = check_lab_attendance(&attendance);
    assert_eq!(names(&check.absent_list), vec!["Ravi", "Zed"]);
    assert_eq!(names(&check.late_list), vec!["Yan", "Vik"]);
    assert_eq!(check.total_count, 7);
    assert!(!check.lab_closed);
    assert_eq!(check.late_list[1].year, 3);
    assert_eq!(check.late_list[1].time_in, Some("18:30:00.1".to_string()));
    assert!(check.late_list[1].is_present);
}

#[test]
fn lab_is_closed_when_everyone_is_absent() {
    let attendance = vec![record("Asha", 1, false, None), record("Ravi", 2, true, None)];
    let check = check_lab_attendance(&attendance);
    assert!(check.lab_closed);
    assert_eq!(check.absent_list.len(), 2);
    let none = check_lab_attendance(&vec![]);
    assert!(none.lab_closed);
    assert_eq!(none.total_count, 0);
}

#[test]
fn empty_list_says_so() {
    assert_eq!(format_attendance_list("Absent", &[]), "**Absent**\nNo one is absent today! 🎉\n\n");
    assert_eq!(format_attendance_list("Late", &[]), "**Late**\nNo one is late today! 🎉\n\n");
    assert_eq!(format_empty_list("A", "b"), "**A**\nNo one is b today! 🎉\n\n");
}

#[test]
fn list_is_written_year_by_year() {
    let list = [
        record("Zed", 3, false, None),
        record("Asha", 1, false, None),
        record("Old", 4, false, None),
        record("Ravi", 1, false, None),
        record("None", 0, false, None),
    ];
    assert_eq!(
        format_attendance_list("Absent", &list),
        "# Absent\n### Year 1\n- Asha\n- Ravi\n\n### Year 3\n- Zed\n\n"
    );
}

#[test]
fn list_of_other_years_only_is_a_bare_heading() {
    let list = [record("Old", 4, false, None)];
    assert_eq!(format_attendance_list("Late", &list), "# Late\n");
}

#[test]
fn description_starts_with_the_figures() {
    let absent = vec![record("Asha", 2, false, None)];
    let late = vec![];
    assert_eq!(
        attendance_description(&absent, &late, 4, 75),
        "# Stats\n- Present: 3 (75%)\n- Absent: 1\n- Late: 0\n\n\
         # Absent\n### Year 2\n- Asha\n\n**Late**\nNo one is late today! 🎉\n\n"
    );
}

#[test]
fn title_names_the_day() {
    assert_eq!(title_for("March 10, 2024"), "Presense Report - March 10, 2024");
    let now = Timestamp::new(1_710_028_800 + 18 * 3600, 5);
    assert_eq!(report_title(now), Some("Presense Report - March 10, 2024".to_string()));
    let first = Timestamp::new(-1, 0);
    assert_eq!(report_title(first), Some("Presense Report - December 31, 1969".to_string()));
    assert_eq!(report_title(Timestamp::from_nanos(i128::MAX)), None);
    assert_eq!(report_title(Timestamp::new(i64::MAX, 0)), None);
}
