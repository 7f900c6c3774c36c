use todo_txt::{Date, Marker, Todo};

fn date(y: i32, m: u32, d: u32) -> Date {
    Date::new(y, m, d).unwrap()
}

#[test]
fn parse_full_line() {
    let t = Todo::parse("x (A) 2024-01-02 2024-01-01 Buy milk +home @errand due:2024-01-05");
    assert!(t.completion);
    assert_eq!(t.priority, Some('A'));
    assert_eq!(t.completion_date, Some(date(2024, 1, 2)));
    assert_eq!(t.creation_date, Some(date(2024, 1, 1)));
    assert_eq!(t.description.content, "Buy milk");
    assert_eq!(t.description.project.as_deref(), Some("home"));
    assert_eq!(t.description.context.as_deref(), Some("errand"));
    assert_eq!(t.description.due, Some(date(2024, 1, 5)));
    assert_eq!(t.description.supplement.as_deref(), Some("due:2024-01-05"));
}

#[test]
fn parse_creation_date_only() {
    let t = Todo::parse("2024-01-01 Call mom");
    assert!(!t.completion);
    assert_eq!(t.priority, None);
    assert_eq!(t.completion_date, None);
    assert_eq!(t.creation_date, Some(date(2024, 1, 1)));
    assert_eq!(t.description.content, "Call mom");
}

#[test]
fn completed_with_one_date_takes_it_as_creation() {
    let t = Todo::parse("x 2024-03-04 Pay rent");
    assert!(t.completion);
    assert_eq!(t.completion_date, None);
    assert_eq!(t.creation_date, Some(date(2024, 3, 4)));
    assert_eq!(t.description.content, "Pay rent");
}

#[test]
fn open_task_with_two_dates_keeps_the_second_in_content() {
    let t = Todo::parse("2024-01-01 2024-01-02 Plan");
    assert_eq!(t.completion_date, None);
    assert_eq!(t.creation_date, Some(date(2024, 1, 1)));
    assert_eq!(t.description.content, "2024-01-02 Plan");
}

#[test]
fn later_tags_overwrite_earlier_ones() {
    let t = Todo::parse("Read +a +b @x @y");
    assert_eq!(t.description.project.as_deref(), Some("b"));
    assert_eq!(t.description.context.as_deref(), Some("y"));
    assert_eq!(t.description.content, "Read");
}

#[test]
fn only_the_first_key_value_word_is_the_supplement() {
    let t = Todo::parse("Call a:b c=d now");
    assert_eq!(t.description.supplement.as_deref(), Some("a:b"));
    assert_eq!(t.description.content, "Call c=d now");
}

#[test]
fn unreadable_due_is_kept_as_supplement() {
    let t = Todo::parse("Ship due:2024-13-01");
    assert_eq!(t.description.due, None);
    assert_eq!(t.description.supplement.as_deref(), Some("due:2024-13-01"));
    assert_eq!(t.description.content, "Ship");
}

#[test]
fn priority_needs_a_letter_in_parentheses() {
    let t = Todo::parse("(1) Odd");
    assert_eq!(t.priority, None);
    assert_eq!(t.description.content, "(1) Odd");
    let u = Todo::parse("(b) Lower");
    assert_eq!(u.priority, Some('b'));
}

#[test]
fn any_white_space_separates_words() {
    let t = Todo::parse("  x\t(B)\u{3000}Walk   dog\n");
    assert!(t.completion);
    assert_eq!(t.priority, Some('B'));
    assert_eq!(t.description.content, "Walk dog");
}

#[test]
fn empty_line_gives_empty_task() {
    let t = Todo::parse("");
    assert!(!t.completion);
    assert_eq!(t.description.content, "");
    assert_eq!(t.format(), "");
}

#[test]
fn format_writes_fields_in_order() {
    let line = "x (A) 2024-01-02 2024-01-01 Buy milk +home @errand due:2024-01-05";
    assert_eq!(Todo::parse(line).format(), line);
    let moved = Todo::parse("@errand Buy +home milk (A)");
    assert_eq!(moved.format(), "Buy milk (A) +home @errand");
}

#[test]
fn round_trip_of_canonical_line() {
    let line = "x (C) 2023-12-31 2023-12-01 File taxes +admin @desk note:late";
    let t = Todo::parse(line);
    let text = t.format();
    assert_eq!(text, line);
    let u = Todo::parse(&text);
    assert_eq!(u.completion, t.completion);
    assert_eq!(u.priority, t.priority);
    assert_eq!(u.completion_date, t.completion_date);
    assert_eq!(u.creation_date, t.creation_date);
    assert_eq!(u.description.content, t.description.content);
    assert_eq!(u.description.project, t.description.project);
    assert_eq!(u.description.context, t.description.context);
    assert_eq!(u.description.supplement, t.description.supplement);
    assert_eq!(u.description.due, t.description.due);
}

#[test]
fn date_text_pads_and_signs_years() {
    assert_eq!(date(5, 1, 9).to_text(), "0005-01-09");
    assert_eq!(date(2024, 11, 30).to_text(), "2024-11-30");
    assert_eq!(date(10000, 1, 1).to_text(), "+10000-01-01");
    assert_eq!(date(-5, 1, 1).to_text(), "-0005-01-01");
}

#[test]
fn date_new_rejects_days_that_do_not_exist() {
    assert!(Date::new(2024, 2, 29).is_some());
    assert!(Date::new(2023, 2, 29).is_none());
    assert!(Date::new(1900, 2, 29).is_none());
    assert!(Date::new(2000, 2, 29).is_some());
    assert!(Date::new(2024, 13, 1).is_none());
    assert!(Date::new(2024, 4, 31).is_none());
}

#[test]
fn mark_done_on_is_idempotent() {
    let mut t = Todo::parse("Water plants");
    t.mark_done_on(date(2024, 5, 1));
    assert!(t.completion);
    assert_eq!(t.completion_date, Some(date(2024, 5, 1)));
    t.mark_done_on(date(2024, 6, 1));
    assert_eq!(t.completion_date, Some(date(2024, 5, 1)));
}

#[test]
fn mark_done_uses_a_date() {
    let mut t = Todo::parse("Water plants");
    t.mark_done();
    assert!(t.completion);
    assert!(t.completion_date.is_some());
}

#[test]
fn from_add_stamps_creation_date() {
    let t = Todo::from_add_on("Water plants", date(2024, 2, 3)).unwrap();
    assert_eq!(t.creation_date, Some(date(2024, 2, 3)));
    let kept = Todo::from_add_on("2020-01-01 Old", date(2024, 2, 3)).unwrap();
    assert_eq!(kept.creation_date, Some(date(2020, 1, 1)));
    let now = Todo::from_add("Later").unwrap();
    assert!(now.creation_date.is_some());
}

#[test]
fn from_add_refuses_empty_content() {
    let e = Todo::from_add_on("+home @errand", date(2024, 2, 3)).unwrap_err();
    assert_eq!(e, "Task must include non-empty description");
    assert!(Todo::from_add("").is_err());
}

#[test]
fn uncompleted_getters() {
    let open = Todo::parse("(A) Do due:2024-01-05");
    assert_eq!(open.due_uncompleted(), Some(date(2024, 1, 5)));
    assert_eq!(open.priority_uncompleted(), Some('A'));
    let closed = Todo::parse("x (A) Do due:2024-01-05");
    assert_eq!(closed.due_uncompleted(), None);
    assert_eq!(closed.priority_uncompleted(), None);
}

#[test]
fn marker_follows_days_left() {
    let today = date(2024, 1, 1);
    assert_eq!(Todo::parse("a due:2024-01-04").marker_color(today), Marker::Red);
    assert_eq!(Todo::parse("a due:2023-12-25").marker_color(today), Marker::Red);
    assert_eq!(Todo::parse("a due:2024-01-05").marker_color(today), Marker::Yellow);
    assert_eq!(Todo::parse("a due:2024-01-08").marker_color(today), Marker::Yellow);
    assert_eq!(Todo::parse("a due:2024-01-09").marker_color(today), Marker::Green);
    assert_eq!(Todo::parse("a due:2025-01-01").marker_color(today), Marker::Green);
    assert_eq!(Todo::parse("a").marker_color(today), Marker::Gray);
}

#[test]
fn marker_counts_across_a_leap_day() {
    let today = date(2024, 2, 26);
    assert_eq!(Todo::parse("a due:2024-03-01").marker_color(today), Marker::Yellow);
    let plain = date(2023, 2, 26);
    assert_eq!(Todo::parse("a due:2023-03-01").marker_color(plain), Marker::Red);
}
