use zarr_cli::execution::{
    begin_statement, begin_with, is_answer, step, Outcome, Phase, Report, Request, Turn,
};
use zarr_cli::statement::Statement;
use zarr_cli::stats::IoSummary;

fn failed() -> Outcome {
    Outcome::Failed("boom".to_string())
}

fn ends_with_error(turn: Turn, message: &str) {
    assert!(matches!(turn.phase, Phase::Finished));
    assert!(matches!(turn.request, Request::Stop));
    match turn.report {
        Report::Error(m) => assert_eq!(m, message),
        other => panic!("{other:?}"),
    }
}

#[test]
fn blank_statements_are_over_at_once() {
    let turn = begin_statement("  ");
    assert!(matches!(turn.phase, Phase::Finished));
    assert!(matches!(turn.report, Report::Nothing));
    assert!(matches!(turn.request, Request::Stop));
    assert!(matches!(begin_with(Statement::Blank).request, Request::Stop));
}

#[test]
fn commands_show_a_query() {
    let turn = begin_statement("\\d");
    assert!(matches!(&turn.request, Request::Sql(s) if s == "SHOW TABLES"));
    let turn = step(turn.phase, Outcome::Accepted);
    assert!(matches!(turn.request, Request::Show));
    let turn = step(turn.phase, Outcome::Accepted);
    assert!(matches!(turn.report, Report::Nothing));
    assert!(matches!(turn.request, Request::Stop));
    let turn = begin_statement("DESC t");
    assert!(matches!(&turn.request, Request::Sql(s) if s == "SELECT * FROM zarr_describe('t')"));
}

#[test]
fn definitions_tell_their_time() {
    let turn = begin_statement("DROP TABLE t");
    assert!(matches!(&turn.request, Request::Sql(s) if s == "DROP TABLE t"));
    let turn = step(turn.phase, Outcome::Accepted);
    assert!(matches!(turn.request, Request::Collect));
    let turn = step(turn.phase, Outcome::Defined { elapsed: "0.250".to_string() });
    assert!(matches!(turn.request, Request::Stop));
    assert!(matches!(&turn.report, Report::Out(s) if s == "OK (0.250s)"));
}

fn query(counts_reads: bool, tty: bool) -> Turn {
    let turn = begin_statement("SELECT 1");
    let turn = step(turn.phase, Outcome::Accepted);
    assert!(matches!(turn.request, Request::Plan));
    step(turn.phase, Outcome::Planned { counts_reads, tty })
}

#[test]
fn queries_run_to_their_numbers() {
    let turn = query(true, false);
    assert!(matches!(turn.request, Request::Run { live: false }));
    let turn = step(turn.phase, Outcome::Ran);
    assert!(matches!(turn.request, Request::Print { clear: false }));
    let io = IoSummary { coord_arrays: 1, data_arrays: 1, disk: None, mem: "8 B".to_string() };
    let outcome = Outcome::Printed { rows: 1, elapsed: "0.001".to_string(), io: Some(io) };
    let turn = step(turn.phase, outcome);
    assert!(matches!(turn.request, Request::Stop));
    assert!(matches!(
        &turn.report,
        Report::Out(s) if s == "\n1 row · 2 arrays · n/a disk · 8 B mem · 0.001s"
    ));
}

#[test]
fn progress_needs_a_terminal_and_counts() {
    for (counts_reads, tty) in [(false, false), (false, true), (true, false), (true, true)] {
        let turn = query(counts_reads, tty);
        let shown = counts_reads && tty;
        assert!(matches!(turn.request, Request::Run { live } if live == shown));
        let turn = step(turn.phase, Outcome::Ran);
        assert!(matches!(turn.request, Request::Print { clear } if clear == shown));
    }
}

#[test]
fn failures_are_told_and_final() {
    ends_with_error(step(Phase::AskingToShow, failed()), "Error: boom");
    ends_with_error(step(Phase::Showing, failed()), "Error: boom");
    ends_with_error(step(Phase::Asking { ddl: false }, failed()), "SQL Error: boom");
    ends_with_error(step(Phase::Asking { ddl: true }, failed()), "SQL Error: boom");
    ends_with_error(step(Phase::Defining, failed()), "Error: boom");
    ends_with_error(step(Phase::Planning, failed()), "Error creating plan: boom");
    ends_with_error(step(Phase::Running { live: true }, failed()), "Error executing query: boom");
    ends_with_error(step(Phase::Printing, failed()), "Error displaying results: boom");
}

#[test]
fn outcomes_answer_their_requests() {
    assert!(is_answer(&Phase::Planning, &failed()));
    assert!(is_answer(&Phase::Running { live: false }, &Outcome::Ran));
    assert!(!is_answer(&Phase::Running { live: false }, &Outcome::Accepted));
    assert!(!is_answer(&Phase::Finished, &failed()));
    assert!(!is_answer(&Phase::Defining, &Outcome::Accepted));
}
