use zexp::error::ScriptError;
use zexp::task::Task;

fn words(list: &[&str]) -> Vec<String> {
    list.iter().map(|s| s.to_string()).collect()
}

fn task(name: &str, cmd: &str, args: &[&str]) -> Task {
    Task { name: name.to_string(), cmd: cmd.to_string(), args: words(args) }
}

#[test]
fn a_task_without_a_sigil_is_complete() {
    assert!(task("t", "echo", &["hello", "world"]).is_completed());
    assert!(task("t", "echo", &[]).is_completed());
    assert!(task("t", "", &[""]).is_completed());
}

#[test]
fn a_sigil_in_the_executable_makes_a_task_incomplete() {
    assert!(!task("t", "$app", &["hello"]).is_completed());
    assert!(!task("t", "bin/$app", &[]).is_completed());
}

#[test]
fn a_sigil_in_an_argument_makes_a_task_incomplete() {
    assert!(!task("t", "echo", &["$x"]).is_completed());
    assert!(!task("t", "echo", &["a", "b", "c$"]).is_completed());
    assert!(!task("t", "echo", &["a", "--x=$y", "c"]).is_completed());
}

#[test]
fn the_name_of_a_task_does_not_count() {
    assert!(task("$name", "echo", &["x"]).is_completed());
}

#[test]
fn the_output_file_bears_the_name_of_the_task() {
    assert_eq!(task("binarysearch", "x", &[]).output_file(), "binarysearch.out");
    assert_eq!(task("", "x", &[]).output_file(), ".out");
    assert_eq!(task("a.b", "x", &[]).output_file(), "a.b.out");
}

#[test]
fn the_first_token_is_the_executable() {
    assert_eq!(
        Task::from_tokens("t".to_string(), &words(&["echo", "a", "b"])),
        Ok(task("t", "echo", &["a", "b"]))
    );
    assert_eq!(Task::from_tokens("t".to_string(), &words(&["echo"])), Ok(task("t", "echo", &[])));
}

#[test]
fn no_token_makes_no_task() {
    assert_eq!(Task::from_tokens("t".to_string(), &vec![]), Err(ScriptError::EmptyCommand));
}

#[test]
fn each_error_has_its_message() {
    let s = |x: &str| x.to_string();
    assert_eq!(ScriptError::Syntax(s("bad")).message(), "invalid configuration document: bad");
    assert_eq!(ScriptError::MissingField(s("CMD")).message(), "missing field: CMD");
    assert_eq!(ScriptError::TypeMismatch(s("CMD")).message(), "field of the wrong type: CMD");
    assert_eq!(ScriptError::UnknownPlaceholder(s("$x")).message(), "unknown placeholder: $x");
    assert_eq!(
        ScriptError::UnresolvedPlaceholder(s("$x")).message(),
        "no provider for placeholder: $x"
    );
    assert_eq!(ScriptError::DuplicateClaim(s("$x")).message(), "placeholder claimed twice: $x");
    assert_eq!(
        ScriptError::IncompleteTask { name: s("t"), remaining_args: words(&["a", "$b"]) }.message(),
        "command not completed: t a $b "
    );
    assert_eq!(
        ScriptError::IncompleteTask { name: s("t"), remaining_args: vec![] }.message(),
        "command not completed: t "
    );
    assert_eq!(ScriptError::EmptyCommand.message(), "the command is empty");
    assert_eq!(ScriptError::MissingMainLoader.message(), "no main loader is registered");
    assert_eq!(
        ScriptError::MissingDescription(s("/d.toml")).message(),
        "benchmark description not loaded: /d.toml"
    );
}
