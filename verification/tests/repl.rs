use zarr_cli::repl::{react, ReplAction, ReplTurn, Typed};

fn line(s: &str) -> ReplTurn {
    react(Typed::Line(s.to_string()))
}

#[test]
fn blank_lines_leave_no_trace() {
    let turn = line(" \t");
    assert_eq!(turn.history, None);
    assert!(matches!(turn.action, ReplAction::Ask));
}

#[test]
fn statements_are_remembered_and_executed() {
    let turn = line("  SELECT 1;  ");
    assert_eq!(turn.history.as_deref(), Some("SELECT 1;"));
    assert!(matches!(&turn.action, ReplAction::Execute(s) if s == "SELECT 1;"));
    let again = line("SELECT 1;");
    assert_eq!(format!("{turn:?}"), format!("{again:?}"));
}

#[test]
fn words_that_are_no_sql() {
    for word in ["quit", "EXIT", " Quit "] {
        let turn = line(word);
        assert_eq!(turn.history.as_deref(), Some(word.trim()));
        assert!(matches!(turn.action, ReplAction::Leave));
    }
    let turn = line("HELP");
    assert_eq!(turn.history.as_deref(), Some("HELP"));
    assert!(matches!(turn.action, ReplAction::Help));
    assert!(matches!(line("quit;").action, ReplAction::Execute(_)));
}

#[test]
fn ends_and_interruptions() {
    let turn = react(Typed::Interrupted);
    assert_eq!(turn.history, None);
    assert!(matches!(&turn.action, ReplAction::Print(s) if s == "^C"));
    assert!(matches!(react(Typed::Eof).action, ReplAction::Leave));
    let turn = react(Typed::Failed("gone".to_string()));
    assert!(matches!(&turn.action, ReplAction::LeaveWith(s) if s == "Error: gone"));
}
