use zarr_cli::args::{parse_cli_args, CliArgs};
use zarr_cli::batch::{batch_inputs, statements_of, BatchInput};

fn args(words: &[&str]) -> CliArgs {
    parse_cli_args(&words.iter().map(|w| w.to_string()).collect()).unwrap()
}

fn order(words: &[&str], piped: bool) -> Vec<String> {
    batch_inputs(&args(words), piped).iter().map(|i| format!("{i:?}")).collect()
}

#[test]
fn commands_then_files() {
    assert_eq!(
        order(&["a", "-c", "x", "b", "-c", "y"], true),
        vec!["Command(\"x\")", "Command(\"y\")", "File(\"a\")", "File(\"b\")"]
    );
}

#[test]
fn piped_input_is_read_only_without_files() {
    assert_eq!(order(&["-c", "x"], true), vec!["Command(\"x\")", "Stdin"]);
    assert_eq!(order(&["-c", "x"], false), vec!["Command(\"x\")"]);
    assert_eq!(order(&[], true), vec!["Stdin"]);
    assert_eq!(order(&["a"], true), vec!["File(\"a\")"]);
    assert!(order(&[], false).is_empty());
}

#[test]
fn inputs_are_split_into_statements() {
    let text = Ok("b; c".to_string());
    let command = BatchInput::Command("a; 'x;'".to_string());
    assert_eq!(statements_of(&command, text.clone()).unwrap(), vec!["a", "'x;'"]);
    let file = BatchInput::File("f.sql".to_string());
    assert_eq!(statements_of(&file, text.clone()).unwrap(), vec!["b", "c"]);
    assert_eq!(statements_of(&BatchInput::Stdin, text).unwrap(), vec!["b", "c"]);
}

#[test]
fn unreadable_inputs_are_told() {
    let error = Err("no such file".to_string());
    let file = BatchInput::File("f.sql".to_string());
    assert_eq!(
        statements_of(&file, error.clone()).unwrap_err(),
        "Error reading f.sql: no such file"
    );
    assert_eq!(
        statements_of(&BatchInput::Stdin, error).unwrap_err(),
        "Error reading stdin: no such file"
    );
}
