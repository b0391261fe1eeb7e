use task_cli::clock::Timestamp;
use task_cli::id::TaskId;
use task_cli::status::Status;
use task_cli::task::{format_line, Task};

fn at(secs: i64) -> Timestamp {
    Timestamp { secs, nanos: 0 }
}

#[test]
fn new_task_is_not_started_and_stamped_once() {
    let now = Timestamp { secs: 1_700_000_000, nanos: 123_456_789 };
    let task = Task::new(TaskId(7), String::from("buy milk"), now);
    assert_eq!(task.id, TaskId(7));
    assert_eq!(task.description, "buy milk");
    assert_eq!(task.status, Status::ToDo);
    assert_eq!(task.created_at, now);
    assert_eq!(task.updated_at, now);
}

#[test]
fn line_is_id_description_and_status() {
    assert_eq!(format_line("A", "b", Status::Done), "A. b (done)");
    assert_eq!(
        format_line("01D39ZY06FGSCTVN4T2V9PKHFZ", "buy milk", Status::ToDo),
        "01D39ZY06FGSCTVN4T2V9PKHFZ. buy milk (todo)"
    );
    assert_eq!(format_line("", "", Status::InProgress), ".  (in-progress)");
}

#[test]
fn task_line_uses_the_identifier_text() {
    let mut task = Task::new(TaskId(31), String::from("write report"), at(5));
    assert_eq!(task.line(), "0000000000000000000000000Z. write report (todo)");
    task.status = Status::InProgress;
    assert_eq!(task.line(), "0000000000000000000000000Z. write report (in-progress)");
    task.status = Status::Done;
    assert_eq!(task.line(), "0000000000000000000000000Z. write report (done)");
}

#[test]
fn line_keeps_the_description_as_it_is() {
    let task = Task::new(TaskId(0), String::from("caf\u{e9} (with friends). today"), at(5));
    assert_eq!(
        task.line(),
        "00000000000000000000000000. caf\u{e9} (with friends). today (todo)"
    );
}

#[test]
fn clone_copies_every_field() {
    let mut task = Task::new(TaskId(9), String::from("x"), at(1));
    task.status = Status::Done;
    task.updated_at = at(2);
    let copy = task.clone();
    assert_eq!(copy, task);
    assert_eq!(copy.updated_at, at(2));
    assert_eq!(copy.created_at, at(1));
}
