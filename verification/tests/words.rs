use task_cli::command::Commands;
use task_cli::error::CliError;
use task_cli::status::Status;
use task_cli::text::str_eq;

#[test]
fn each_command_word_is_recognised() {
    assert_eq!(Commands::from_str("add"), Ok(Commands::Add));
    assert_eq!(Commands::from_str("update"), Ok(Commands::Update));
    assert_eq!(Commands::from_str("delete"), Ok(Commands::Delete));
    assert_eq!(Commands::from_str("mark"), Ok(Commands::Mark));
    assert_eq!(Commands::from_str("list"), Ok(Commands::List));
}

#[test]
fn other_words_are_invalid_commands() {
    assert_eq!(Commands::from_str(""), Err(CliError::InvalidCommand));
    assert_eq!(Commands::from_str("Add"), Err(CliError::InvalidCommand));
    assert_eq!(Commands::from_str("LIST"), Err(CliError::InvalidCommand));
    assert_eq!(Commands::from_str("lists"), Err(CliError::InvalidCommand));
    assert_eq!(Commands::from_str("ad"), Err(CliError::InvalidCommand));
    assert_eq!(Commands::from_str(" add"), Err(CliError::InvalidCommand));
    assert_eq!(Commands::from_str("remove"), Err(CliError::InvalidCommand));
}

#[test]
fn each_status_keyword_is_recognised() {
    assert_eq!(Status::from_str("in-progress"), Ok(Status::InProgress));
    assert_eq!(Status::from_str("done"), Ok(Status::Done));
    assert_eq!(Status::from_str("todo"), Ok(Status::ToDo));
}

#[test]
fn other_status_words_are_invalid_args() {
    assert_eq!(Status::from_str(""), Err(CliError::InvalidArgs));
    assert_eq!(Status::from_str("to-do"), Err(CliError::InvalidArgs));
    assert_eq!(Status::from_str("Done"), Err(CliError::InvalidArgs));
    assert_eq!(Status::from_str("in progress"), Err(CliError::InvalidArgs));
    assert_eq!(Status::from_str("inprogress"), Err(CliError::InvalidArgs));
    assert_eq!(Status::from_str("badstatus"), Err(CliError::InvalidArgs));
}

#[test]
fn status_is_written_as_its_keyword() {
    assert_eq!(Status::Done.to_string(), "done");
    assert_eq!(Status::ToDo.to_string(), "todo");
    assert_eq!(Status::InProgress.to_string(), "in-progress");
    assert_eq!(Status::Done.as_str(), "done");
    assert_eq!(Status::ToDo.as_str(), "todo");
    assert_eq!(Status::InProgress.as_str(), "in-progress");
}

#[test]
fn status_keyword_reads_back_as_the_status() {
    for status in [Status::InProgress, Status::Done, Status::ToDo] {
        assert_eq!(Status::from_str(&status.to_string()), Ok(status));
    }
}

#[test]
fn str_eq_compares_characters() {
    assert!(str_eq("", ""));
    assert!(str_eq("add", "add"));
    assert!(!str_eq("add", "adD"));
    assert!(!str_eq("add", "ad"));
    assert!(!str_eq("ad", "add"));
    assert!(!str_eq("", "a"));
    assert!(str_eq("caf\u{e9} \u{1f600}", "caf\u{e9} \u{1f600}"));
    assert!(!str_eq("caf\u{e9}", "cafe"));
    assert!(!str_eq("\u{e9}", "\u{e8}"));
}

#[test]
fn error_messages_and_fatality() {
    assert_eq!(CliError::InvalidCommand.message(), "Invalid command");
    assert_eq!(CliError::InvalidArgs.message(), "invalid status");
    assert_eq!(CliError::InvalidId.message(), "invalid id format");
    assert_eq!(CliError::WrongArgCount.message(), "wrong number of arguments");
    assert!(!CliError::InvalidCommand.is_fatal());
    assert!(CliError::InvalidArgs.is_fatal());
    assert!(CliError::InvalidId.is_fatal());
    assert!(CliError::WrongArgCount.is_fatal());
}
