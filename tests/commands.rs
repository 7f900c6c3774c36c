use todo_txt::command::all_positions_of;
use todo_txt::{execute_command, execute_command_on, Command, Date, ErrorKind, Storage, Todo};

fn date(y: i32, m: u32, d: u32) -> Date {
    Date::new(y, m, d).unwrap()
}

fn list(lines: &[&str]) -> Vec<Todo> {
    lines.iter().map(|l| Todo::parse(l)).collect()
}

fn contents(todos: &[Todo]) -> Vec<String> {
    todos.iter().map(|t| t.description.content.clone()).collect()
}

#[test]
fn parse_commands() {
    assert!(matches!(Command::parse("   "), Command::Empty));
    assert!(matches!(Command::parse("list"), Command::List));
    assert!(matches!(Command::parse("add  Buy  milk "), Command::Add(ref s) if s == "Buy milk"));
    assert!(matches!(Command::parse("done 3"), Command::Done(3)));
    assert!(matches!(Command::parse("done +3"), Command::Done(3)));
    assert!(matches!(Command::parse("remove 2"), Command::Remove(2)));
    assert!(matches!(Command::parse("rm 2"), Command::Remove(2)));
    assert!(matches!(Command::parse("closest"), Command::Closest));
    assert!(matches!(Command::parse("sd"), Command::Closest));
    assert!(matches!(Command::parse("important"), Command::Important));
    assert!(matches!(Command::parse("sp"), Command::Important));
    assert!(matches!(Command::parse("add"), Command::Malformed(ref s) if s == "add"));
    assert!(matches!(Command::parse("done -1"), Command::Malformed(ref s) if s == "done"));
    assert!(matches!(Command::parse("done x"), Command::Malformed(_)));
    assert!(matches!(Command::parse("done 99999999999999999999999"), Command::Malformed(_)));
    assert!(matches!(Command::parse("fly away"), Command::Unknown(ref s) if s == "fly"));
}

#[test]
fn add_with_empty_argument_is_usage_error() {
    let mut todos = list(&["a"]);
    let mut view = vec![0];
    let r = execute_command_on(&mut todos, &mut view, "add ", date(2024, 1, 1));
    assert_eq!(r.kind, Some(ErrorKind::Usage));
    assert_eq!(r.error.as_deref(), Some("Missing or invalid argument for add"));
    assert_eq!(r.storage, Storage::Unchanged);
    assert_eq!(contents(&todos), vec!["a".to_string()]);
    assert_eq!(view, vec![0]);
}

#[test]
fn add_to_empty_list() {
    let mut todos = Vec::new();
    let mut view = Vec::new();
    let today = date(2024, 4, 2);
    let r = execute_command_on(&mut todos, &mut view, "add Water plants", today);
    assert_eq!(r.kind, None);
    assert_eq!(r.error, None);
    assert_eq!(r.storage, Storage::Append);
    assert_eq!(todos.len(), 1);
    assert_eq!(todos[0].creation_date, Some(today));
    assert_eq!(todos[0].description.content, "Water plants");
    assert_eq!(view, vec![0]);
}

#[test]
fn add_without_content_is_validation_error() {
    let mut todos = Vec::new();
    let mut view = Vec::new();
    let r = execute_command_on(&mut todos, &mut view, "add +home", date(2024, 4, 2));
    assert_eq!(r.kind, Some(ErrorKind::Validation));
    assert!(todos.is_empty());
}

#[test]
fn done_follows_the_view() {
    let mut todos = list(&["a", "b", "c"]);
    let mut view = vec![2, 0, 1];
    let today = date(2024, 4, 2);
    let r = execute_command_on(&mut todos, &mut view, "done 1", today);
    assert_eq!(r.kind, None);
    assert_eq!(r.storage, Storage::Rewrite);
    assert!(todos[2].completion);
    assert_eq!(todos[2].completion_date, Some(today));
    assert!(!todos[0].completion);
    assert!(!todos[1].completion);
    assert_eq!(view, vec![0, 1, 2]);
}

#[test]
fn closest_orders_open_tasks_by_due_date() {
    let mut todos = list(&[
        "March due:2024-03-01",
        "x January due:2024-01-01",
        "February due:2024-02-01",
        "None",
    ]);
    let mut view = all_positions_of(todos.len());
    let r = execute_command_on(&mut todos, &mut view, "closest", date(2024, 1, 1));
    assert_eq!(r.kind, None);
    assert_eq!(r.storage, Storage::Unchanged);
    assert_eq!(view, vec![2, 0]);
}

#[test]
fn closest_keeps_list_order_for_equal_dates() {
    let mut todos = list(&["b due:2024-05-01", "a due:2024-04-01", "c due:2024-05-01"]);
    let mut view = vec![];
    execute_command_on(&mut todos, &mut view, "sd", date(2024, 1, 1));
    assert_eq!(view, vec![1, 0, 2]);
}

#[test]
fn important_orders_by_priority() {
    let mut todos = list(&["(C) c", "(A) a", "x (A) done", "none", "(B) b", "(A) a2"]);
    let mut view = vec![];
    let r = execute_command_on(&mut todos, &mut view, "important", date(2024, 1, 1));
    assert_eq!(r.kind, None);
    assert_eq!(view, vec![1, 5, 4, 0]);
}

#[test]
fn remove_out_of_range_is_range_error() {
    let mut todos = list(&["a", "b", "c"]);
    let mut view = vec![0, 1, 2];
    let r = execute_command_on(&mut todos, &mut view, "remove 99", date(2024, 1, 1));
    assert_eq!(r.kind, Some(ErrorKind::Range));
    assert_eq!(r.error.as_deref(), Some("Invalid ID"));
    assert_eq!(r.storage, Storage::Unchanged);
    assert_eq!(contents(&todos), vec!["a", "b", "c"]);
    assert_eq!(view, vec![0, 1, 2]);
}

#[test]
fn position_zero_is_range_error() {
    let mut todos = list(&["a"]);
    let mut view = vec![0];
    let r = execute_command_on(&mut todos, &mut view, "done 0", date(2024, 1, 1));
    assert_eq!(r.kind, Some(ErrorKind::Range));
    assert!(!todos[0].completion);
}

#[test]
fn remove_follows_the_view() {
    let mut todos = list(&["a", "b", "c"]);
    let mut view = vec![2, 1];
    let r = execute_command_on(&mut todos, &mut view, "rm 2", date(2024, 1, 1));
    assert_eq!(r.kind, None);
    assert_eq!(r.storage, Storage::Rewrite);
    assert_eq!(contents(&todos), vec!["a", "c"]);
    assert_eq!(view, vec![0, 1]);
}

#[test]
fn done_twice_changes_nothing_the_second_time() {
    let mut todos = list(&["a", "b"]);
    let mut view = vec![0, 1];
    execute_command_on(&mut todos, &mut view, "done 2", date(2024, 1, 1));
    assert_eq!(todos[1].completion_date, Some(date(2024, 1, 1)));
    let r = execute_command_on(&mut todos, &mut view, "done 2", date(2024, 2, 1));
    assert_eq!(r.kind, None);
    assert!(todos[1].completion);
    assert_eq!(todos[1].completion_date, Some(date(2024, 1, 1)));
    assert!(!todos[0].completion);
}

#[test]
fn unknown_command_reports_its_word() {
    let mut todos = list(&["a"]);
    let mut view = vec![0];
    let r = execute_command_on(&mut todos, &mut view, "fly away", date(2024, 1, 1));
    assert_eq!(r.kind, Some(ErrorKind::UnknownCommand));
    assert_eq!(r.error.as_deref(), Some("Unknown command: fly"));
    assert_eq!(view, vec![0]);
}

#[test]
fn malformed_position_is_usage_error() {
    let mut todos = list(&["a"]);
    let mut view = vec![0];
    let r = execute_command_on(&mut todos, &mut view, "done first", date(2024, 1, 1));
    assert_eq!(r.kind, Some(ErrorKind::Usage));
    assert_eq!(r.error.as_deref(), Some("Missing or invalid argument for done"));
}

#[test]
fn empty_input_and_list() {
    let mut todos = list(&["a", "b"]);
    let mut view = vec![1];
    let r = execute_command_on(&mut todos, &mut view, "  ", date(2024, 1, 1));
    assert_eq!(r.kind, None);
    assert_eq!(r.storage, Storage::Unchanged);
    assert_eq!(view, vec![1]);
    let r = execute_command_on(&mut todos, &mut view, "list", date(2024, 1, 1));
    assert_eq!(r.storage, Storage::Reload);
    assert_eq!(view, vec![0, 1]);
}

#[test]
fn execute_command_dates_with_today() {
    let mut todos = Vec::new();
    let mut view = Vec::new();
    let r = execute_command(&mut todos, &mut view, "add Water plants");
    assert_eq!(r.kind, None);
    assert!(todos[0].creation_date.is_some());
    assert_eq!(view, vec![0]);
}
