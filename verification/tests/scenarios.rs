use task_cli::dispatch::{execute, parse_args, Outcome};
use task_cli::error::CliError;
use task_cli::list::TaskList;
use task_cli::status::Status;

fn run(words: &[&str], store: &mut TaskList) -> Result<Outcome, CliError> {
    let mut args = vec![String::from("task-cli")];
    for word in words {
        args.push(word.to_string());
    }
    let request = parse_args(&args)?;
    Ok(execute(request, store))
}

#[test]
fn add_mark_list_delete() {
    let mut store = TaskList::new();

    let out = run(&["add", "buy milk"], &mut store).unwrap();
    assert!(out.save);
    assert!(out.lines.is_empty());
    assert_eq!(store.len(), 1);
    assert_eq!(store.tasks[0].description, "buy milk");
    assert_eq!(store.tasks[0].status, Status::ToDo);
    assert_eq!(store.tasks[0].status.to_string(), "todo");
    let created = store.tasks[0].clone();
    let id = created.id.to_string();

    let out = run(&["mark", &id, "done"], &mut store).unwrap();
    assert!(out.save);
    assert_eq!(store.len(), 1);
    assert_eq!(store.tasks[0].status, Status::Done);
    assert_eq!(store.tasks[0].id, created.id);
    assert_eq!(store.tasks[0].description, created.description);
    assert_eq!(store.tasks[0].created_at, created.created_at);
    assert_eq!(store.tasks[0].updated_at, created.updated_at);

    let out = run(&["list"], &mut store).unwrap();
    assert!(!out.save);
    assert_eq!(out.lines, vec![format!("{}. buy milk (done)", id)]);

    let out = run(&["delete", &id], &mut store).unwrap();
    assert!(out.save);
    assert_eq!(store, TaskList::new());
}

#[test]
fn list_done_after_three_adds_and_one_mark() {
    let mut store = TaskList::new();
    run(&["add", "first"], &mut store).unwrap();
    run(&["add", "second"], &mut store).unwrap();
    run(&["add", "third"], &mut store).unwrap();
    let id = store.tasks[1].id.to_string();
    run(&["mark", &id, "done"], &mut store).unwrap();

    let out = run(&["list", "done"], &mut store).unwrap();
    assert_eq!(out.lines, vec![format!("{}. second (done)", id)]);
    assert!(!out.save);

    let out = run(&["list", "todo"], &mut store).unwrap();
    assert_eq!(
        out.lines,
        vec![
            format!("{}. first (todo)", store.tasks[0].id.to_string()),
            format!("{}. third (todo)", store.tasks[2].id.to_string()),
        ]
    );
    let out = run(&["list", "in-progress"], &mut store).unwrap();
    assert!(out.lines.is_empty());
}

#[test]
fn list_with_a_bad_status_fails_and_touches_nothing() {
    let mut store = TaskList::new();
    run(&["add", "keep me"], &mut store).unwrap();
    let before = store.duplicate();
    assert_eq!(run(&["list", "badstatus"], &mut store), Err(CliError::InvalidArgs));
    assert_eq!(store, before);
}

#[test]
fn failed_commands_touch_nothing() {
    let mut store = TaskList::new();
    run(&["add", "keep me"], &mut store).unwrap();
    let before = store.duplicate();
    let id = store.tasks[0].id.to_string();
    assert_eq!(run(&["mark", &id, "finished"], &mut store), Err(CliError::InvalidArgs));
    assert_eq!(run(&["mark", "bad-id", "done"], &mut store), Err(CliError::InvalidId));
    assert_eq!(run(&["delete", "bad-id"], &mut store), Err(CliError::InvalidId));
    assert_eq!(run(&["update", "bad-id", "x"], &mut store), Err(CliError::InvalidId));
    assert_eq!(run(&["add"], &mut store), Err(CliError::WrongArgCount));
    assert_eq!(run(&["frobnicate"], &mut store), Err(CliError::InvalidCommand));
    assert_eq!(store, before);
}

#[test]
fn update_by_the_listed_id_changes_that_task() {
    let mut store = TaskList::new();
    run(&["add", "first"], &mut store).unwrap();
    run(&["add", "second"], &mut store).unwrap();
    let id = store.tasks[0].id.to_string();
    let out = run(&["update", &id.to_lowercase(), "first, revised"], &mut store).unwrap();
    assert!(out.save);
    assert_eq!(store.tasks[0].description, "first, revised");
    assert_eq!(store.tasks[1].description, "second");
}
