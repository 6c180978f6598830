//! The course of a statement: which request goes to the SQL engine next, and what
//! is told of each outcome.

use vstd::prelude::*;

use crate::statement::{
    ascii_start, classified, classify_statement, ddl_keyword, defines, describe_keyword,
    described_by, second_word, unterminated, Statement, StatementView,
};
use crate::stats::{opt_io, stats_line, stats_text, IoSummary, IoView};
use crate::text::{decimal, trimmed, upper_case};

verus! {

/// How far a statement has come.
#[derive(Debug)]
pub enum Phase {
    /// The query behind a command was handed to the engine.
    AskingToShow,
    /// Its result is being shown.
    Showing,
    /// SQL was handed to the engine; `ddl` where it gives no rows.
    Asking { ddl: bool },
    /// A definition is being carried out.
    Defining,
    /// A query is being planned.
    Planning,
    /// A query is running; `live` where its progress is being shown.
    Running { live: bool },
    /// The rows of a query are being printed.
    Printing,
    /// There is nothing left to do.
    Finished,
}

/// What the engine or the terminal is to do next.
#[derive(Debug)]
pub enum Request {
    /// Nothing: the statement is done.
    Stop,
    /// Hand the text to the engine.
    Sql(String),
    /// Show the result.
    Show,
    /// Carry the definition out, and drop its empty result.
    Collect,
    /// Plan the query.
    Plan,
    /// Run the plan; with `live`, show its progress meanwhile.
    Run { live: bool },
    /// Print the rows; with `clear`, wipe the line of progress first.
    Print { clear: bool },
}

/// What came of a request.
#[derive(Debug)]
pub enum Outcome {
    /// It failed, and this is the error's text.
    Failed(String),
    /// The engine took the SQL, or the result was shown.
    Accepted,
    /// The definition was carried out, so many seconds after it was asked for.
    Defined { elapsed: String },
    /// There is a plan. `counts_reads`: it counts what it reads. `tty`: the output is a
    /// terminal.
    Planned { counts_reads: bool, tty: bool },
    /// The query ran.
    Ran,
    /// The rows were printed.
    Printed { rows: usize, elapsed: String, io: Option<IoSummary> },
}

/// A line to tell.
#[derive(Debug)]
pub enum Report {
    Nothing,
    /// On the standard output.
    Out(String),
    /// On the standard error output.
    Error(String),
}

/// What follows an outcome.
#[derive(Debug)]
pub struct Turn {
    pub phase: Phase,
    pub report: Report,
    pub request: Request,
}

/// [`Outcome`], over texts.
pub ghost enum OutcomeView {
    Failed(Seq<char>),
    Accepted,
    Defined { elapsed: Seq<char> },
    Planned { counts_reads: bool, tty: bool },
    Ran,
    Printed { rows: nat, elapsed: Seq<char>, io: Option<IoView> },
}

/// [`Request`], over texts.
pub ghost enum RequestView {
    Stop,
    Sql(Seq<char>),
    Show,
    Collect,
    Plan,
    Run { live: bool },
    Print { clear: bool },
}

/// [`Report`], over texts.
pub ghost enum ReportView {
    Nothing,
    Out(Seq<char>),
    Error(Seq<char>),
}

/// [`Turn`], over texts.
pub ghost struct TurnView {
    pub phase: Phase,
    pub report: ReportView,
    pub request: RequestView,
}

impl View for Outcome {
    type V = OutcomeView;

    open spec fn view(&self) -> OutcomeView {
        match self {
            Outcome::Failed(e) => OutcomeView::Failed(e@),
            Outcome::Accepted => OutcomeView::Accepted,
            Outcome::Defined { elapsed } => OutcomeView::Defined { elapsed: elapsed@ },
            Outcome::Planned { counts_reads, tty } => OutcomeView::Planned {
                counts_reads: *counts_reads,
                tty: *tty,
            },
            Outcome::Ran => OutcomeView::Ran,
            Outcome::Printed { rows, elapsed, io } => OutcomeView::Printed {
                rows: *rows as nat,
                elapsed: elapsed@,
                io: opt_io(*io),
            },
        }
    }
}

impl View for Request {
    type V = RequestView;

    open spec fn view(&self) -> RequestView {
        match self {
            Request::Stop => RequestView::Stop,
            Request::Sql(s) => RequestView::Sql(s@),
            Request::Show => RequestView::Show,
            Request::Collect => RequestView::Collect,
            Request::Plan => RequestView::Plan,
            Request::Run { live } => RequestView::Run { live: *live },
            Request::Print { clear } => RequestView::Print { clear: *clear },
        }
    }
}

impl View for Report {
    type V = ReportView;

    open spec fn view(&self) -> ReportView {
        match self {
            Report::Nothing => ReportView::Nothing,
            Report::Out(s) => ReportView::Out(s@),
            Report::Error(s) => ReportView::Error(s@),
        }
    }
}

impl View for Turn {
    type V = TurnView;

    open spec fn view(&self) -> TurnView {
        TurnView { phase: self.phase, report: self.report@, request: self.request@ }
    }
}

/// A turn that asks for something more.
pub open spec fn go_on(phase: Phase, request: RequestView) -> TurnView {
    TurnView { phase, report: ReportView::Nothing, request }
}

/// A turn that ends the statement.
pub open spec fn end_with(report: ReportView) -> TurnView {
    TurnView { phase: Phase::Finished, report, request: RequestView::Stop }
}

/// The first turn of a statement.
pub open spec fn first_turn(s: StatementView) -> TurnView {
    match s {
        StatementView::Blank => end_with(ReportView::Nothing),
        StatementView::Show(sql) => go_on(Phase::AskingToShow, RequestView::Sql(sql)),
        StatementView::Run { sql, ddl } => go_on(Phase::Asking { ddl }, RequestView::Sql(sql)),
    }
}

/// What an error's text is put behind, by the phase that it comes in.
pub open spec fn error_lead(phase: Phase) -> Seq<char> {
    match phase {
        Phase::Asking { .. } => "SQL Error: "@,
        Phase::Planning => "Error creating plan: "@,
        Phase::Running { .. } => "Error executing query: "@,
        Phase::Printing => "Error displaying results: "@,
        _ => "Error: "@,
    }
}

/// The outcome is one of the request that the phase stands for.
pub open spec fn accepts(phase: Phase, outcome: OutcomeView) -> bool {
    match phase {
        Phase::Finished => false,
        Phase::AskingToShow | Phase::Showing | Phase::Asking { .. } => outcome is Failed
            || outcome is Accepted,
        Phase::Defining => outcome is Failed || outcome is Defined,
        Phase::Planning => outcome is Failed || outcome is Planned,
        Phase::Running { .. } => outcome is Failed || outcome is Ran,
        Phase::Printing => outcome is Failed || outcome is Printed,
    }
}

/// The turn that follows an outcome.
pub open spec fn next_turn(phase: Phase, outcome: OutcomeView) -> TurnView {
    match (phase, outcome) {
        (_, OutcomeView::Failed(e)) => end_with(ReportView::Error(error_lead(phase) + e)),
        (Phase::AskingToShow, _) => go_on(Phase::Showing, RequestView::Show),
        (Phase::Asking { ddl }, _) => if ddl {
            go_on(Phase::Defining, RequestView::Collect)
        } else {
            go_on(Phase::Planning, RequestView::Plan)
        },
        (Phase::Defining, OutcomeView::Defined { elapsed }) => end_with(
            ReportView::Out("OK ("@ + elapsed + "s)"@),
        ),
        (Phase::Planning, OutcomeView::Planned { counts_reads, tty }) => go_on(
            Phase::Running { live: counts_reads && tty },
            RequestView::Run { live: counts_reads && tty },
        ),
        (Phase::Running { live }, _) => go_on(
            Phase::Printing,
            RequestView::Print { clear: live },
        ),
        (Phase::Printing, OutcomeView::Printed { rows, elapsed, io }) => end_with(
            ReportView::Out("\n"@ + stats_text(rows, elapsed, io)),
        ),
        _ => end_with(ReportView::Nothing),
    }
}

/// Whether the outcome is one of the request that the phase stands for.
pub fn is_answer(phase: &Phase, outcome: &Outcome) -> (r: bool)
    ensures
        r == accepts(*phase, outcome@),
{
    match (phase, outcome) {
        (Phase::Finished, _) => false,
        (_, Outcome::Failed(_)) => true,
        (Phase::AskingToShow, Outcome::Accepted) => true,
        (Phase::Showing, Outcome::Accepted) => true,
        (Phase::Asking { .. }, Outcome::Accepted) => true,
        (Phase::Defining, Outcome::Defined { .. }) => true,
        (Phase::Planning, Outcome::Planned { .. }) => true,
        (Phase::Running { .. }, Outcome::Ran) => true,
        (Phase::Printing, Outcome::Printed { .. }) => true,
        _ => false,
    }
}

/// The first turn of a statement that is known.
pub fn begin_with(statement: Statement) -> (t: Turn)
    ensures
        t@ == first_turn(statement@),
{
    match statement {
        Statement::Blank => Turn {
            phase: Phase::Finished,
            report: Report::Nothing,
            request: Request::Stop,
        },
        Statement::Show(sql) => Turn {
            phase: Phase::AskingToShow,
            report: Report::Nothing,
            request: Request::Sql(sql),
        },
        Statement::Run { sql, ddl } => Turn {
            phase: Phase::Asking { ddl },
            report: Report::Nothing,
            request: Request::Sql(sql),
        },
    }
}

/// Begins a statement.
pub fn begin_statement(line: &str) -> (t: Turn)
    ensures
        t@ == first_turn(
            classified(line@, described_by(line@), defines(upper_case(trimmed(line@)))),
        ),
        describe_keyword(unterminated(line@)) ==> described_by(line@) == second_word(
            unterminated(line@),
        ),
        ascii_start(unterminated(line@), 9) && !describe_keyword(unterminated(line@))
            ==> described_by(line@) is None,
        ddl_keyword(trimmed(line@)) ==> defines(upper_case(trimmed(line@))),
        ascii_start(trimmed(line@), 7) && !ddl_keyword(trimmed(line@)) ==> !defines(
            upper_case(trimmed(line@)),
        ),
{
    begin_with(classify_statement(line))
}

/// Ends a statement with a line to tell.
fn finish(report: Report) -> (t: Turn)
    ensures
        t@ == end_with(report@),
{
    Turn { phase: Phase::Finished, report, request: Request::Stop }
}

/// Ends a statement with an error.
fn fail(phase: &Phase, e: &str) -> (t: Turn)
    ensures
        t@ == end_with(ReportView::Error(error_lead(*phase) + e@)),
{
    let lead = match phase {
        Phase::Asking { .. } => "SQL Error: ",
        Phase::Planning => "Error creating plan: ",
        Phase::Running { .. } => "Error executing query: ",
        Phase::Printing => "Error displaying results: ",
        _ => "Error: ",
    };
    let mut message = lead.to_owned();
    message.append(e);
    finish(Report::Error(message))
}

/// Goes on with a statement after the outcome of its last request.
pub fn step(phase: Phase, outcome: Outcome) -> (t: Turn)
    requires
        accepts(phase, outcome@),
        outcome matches Outcome::Printed { io: Some(i), .. } ==> i.countable(),
    ensures
        t@ == next_turn(phase, outcome@),
{
    match (phase, outcome) {
        (phase, Outcome::Failed(e)) => fail(&phase, e.as_str()),
        (Phase::AskingToShow, _) => Turn {
            phase: Phase::Showing,
            report: Report::Nothing,
            request: Request::Show,
        },
        (Phase::Asking { ddl }, _) => if ddl {
            Turn { phase: Phase::Defining, report: Report::Nothing, request: Request::Collect }
        } else {
            Turn { phase: Phase::Planning, report: Report::Nothing, request: Request::Plan }
        },
        (Phase::Defining, Outcome::Defined { elapsed }) => {
            let mut line = "OK (".to_owned();
            line.append(elapsed.as_str());
            line.append("s)");
            finish(Report::Out(line))
        },
        (Phase::Planning, Outcome::Planned { counts_reads, tty }) => {
            let live = counts_reads && tty;
            Turn {
                phase: Phase::Running { live },
                report: Report::Nothing,
                request: Request::Run { live },
            }
        },
        (Phase::Running { live }, _) => Turn {
            phase: Phase::Printing,
            report: Report::Nothing,
            request: Request::Print { clear: live },
        },
        (Phase::Printing, Outcome::Printed { rows, elapsed, io }) => {
            let mut line = "\n".to_owned();
            line.append(stats_line(rows, elapsed.as_str(), &io).as_str());
            finish(Report::Out(line))
        },
        _ => finish(Report::Nothing),
    }
}

/// The most outcomes that a statement may still wait for.
pub open spec fn steps_left(phase: Phase) -> nat {
    match phase {
        Phase::Asking { .. } => 4,
        Phase::Planning => 3,
        Phase::AskingToShow | Phase::Running { .. } => 2,
        Phase::Showing | Phase::Defining | Phase::Printing => 1,
        Phase::Finished => 0,
    }
}

/// Every outcome brings a statement closer to its end, and a request is made exactly
/// while it has not ended.
pub proof fn statements_come_to_an_end(phase: Phase, outcome: OutcomeView)
    requires
        accepts(phase, outcome),
    ensures
        steps_left(next_turn(phase, outcome).phase) < steps_left(phase),
        next_turn(phase, outcome).request is Stop <==> next_turn(phase, outcome).phase is Finished,
{
}

/// A statement begins with a request to the engine unless it is blank, and then
/// waits for at most four outcomes.
pub proof fn statements_begin_with_sql(s: StatementView)
    ensures
        first_turn(s).request is Sql <==> s !is Blank,
        first_turn(s).phase is Finished <==> s is Blank,
        steps_left(first_turn(s).phase) <= 4,
{
}

/// Any failure is told on the error output and ends the statement, and nothing but a
/// failure is told there.
pub proof fn failures_are_told_and_final(phase: Phase, outcome: OutcomeView)
    requires
        accepts(phase, outcome),
    ensures
        outcome matches OutcomeView::Failed(e) ==> next_turn(phase, outcome) == end_with(
            ReportView::Error(error_lead(phase) + e),
        ),
        next_turn(phase, outcome).report is Error ==> outcome is Failed,
{
}

/// A definition shows no rows: once the engine took it, it is carried out, and its
/// time told.
pub proof fn definitions_show_no_rows(elapsed: Seq<char>)
    ensures
        next_turn(Phase::Asking { ddl: true }, OutcomeView::Accepted) == go_on(
            Phase::Defining,
            RequestView::Collect,
        ),
        next_turn(Phase::Defining, OutcomeView::Defined { elapsed }) == end_with(
            ReportView::Out("OK ("@ + elapsed + "s)"@),
        ),
{
}

/// Progress is shown only on a terminal and for a plan that counts what it reads, and
/// the line that it leaves is wiped exactly then.
pub proof fn progress_is_wiped_where_shown(counts_reads: bool, tty: bool)
    ensures
        ({
            let live = counts_reads && tty;
            let t = next_turn(Phase::Planning, OutcomeView::Planned { counts_reads, tty });
            &&& t.request == RequestView::Run { live }
            &&& next_turn(t.phase, OutcomeView::Ran).request == RequestView::Print { clear: live }
        }),
{
}

/// Every query whose rows were printed ends with a line on the standard output that begins
/// with the number of rows and ends with the time, whether or not its reads were counted.
pub proof fn printed_queries_tell_rows_and_time(
    rows: nat,
    elapsed: Seq<char>,
    io: Option<IoView>,
)
    ensures
        ({
            let t = next_turn(Phase::Printing, OutcomeView::Printed { rows, elapsed, io });
            let text = t.report->Out_0;
            let end = elapsed + seq!['s'];
            &&& t.phase is Finished && t.request is Stop
            &&& t.report is Out
            &&& text == seq!['\n'] + stats_text(rows, elapsed, io)
            &&& (seq!['\n'] + decimal(rows)).is_prefix_of(text)
            &&& text.len() >= end.len()
            &&& text.skip(text.len() - end.len()) == end
        }),
{
    reveal_strlit("\n");
    reveal_strlit("s");
    assert("\n"@ =~= seq!['\n']);
    assert("s"@ =~= seq!['s']);
    let text = "\n"@ + stats_text(rows, elapsed, io);
    let end = elapsed + seq!['s'];
    let head = seq!['\n'] + decimal(rows);
    assert(text.subrange(0, head.len() as int) =~= head);
    assert(text.skip(text.len() - end.len()) =~= end);
}

/// What is told of a failure begins with the step that failed and ends with the error's
/// text, and nothing more is asked for.
pub proof fn failures_name_their_step(phase: Phase, e: Seq<char>)
    ensures
        ({
            let t = next_turn(phase, OutcomeView::Failed(e));
            let lead = match phase {
                Phase::Asking { .. } => "SQL Error: "@,
                Phase::Planning => "Error creating plan: "@,
                Phase::Running { .. } => "Error executing query: "@,
                Phase::Printing => "Error displaying results: "@,
                Phase::AskingToShow | Phase::Showing | Phase::Defining | Phase::Finished => {
                    "Error: "@
                },
            };
            &&& t.report == ReportView::Error(lead + e)
            &&& t.phase is Finished
            &&& t.request is Stop
        }),
{
}

/// An outcome answers the one request that it is an outcome of, and a failure any request;
/// once a statement has ended nothing does.
pub proof fn outcomes_answer_their_request(phase: Phase, outcome: OutcomeView)
    ensures
        outcome is Failed ==> (accepts(phase, outcome) <==> phase !is Finished),
        outcome is Accepted ==> (accepts(phase, outcome) <==> phase is AskingToShow
            || phase is Showing || phase is Asking),
        outcome is Defined ==> (accepts(phase, outcome) <==> phase is Defining),
        outcome is Planned ==> (accepts(phase, outcome) <==> phase is Planning),
        outcome is Ran ==> (accepts(phase, outcome) <==> phase is Running),
        outcome is Printed ==> (accepts(phase, outcome) <==> phase is Printing),
{
}

/// The course of a query: its text goes to the engine as it is, then it is planned, run and
/// printed, one step upon the other, and nothing is told before the line of numbers.
pub proof fn queries_are_planned_run_and_printed(
    sql: Seq<char>,
    counts_reads: bool,
    tty: bool,
    rows: nat,
    elapsed: Seq<char>,
    io: Option<IoView>,
)
    ensures
        ({
            let a = first_turn(StatementView::Run { sql, ddl: false });
            let b = next_turn(a.phase, OutcomeView::Accepted);
            let planned = OutcomeView::Planned { counts_reads, tty };
            let c = next_turn(b.phase, planned);
            let d = next_turn(c.phase, OutcomeView::Ran);
            let printed = OutcomeView::Printed { rows, elapsed, io };
            let e = next_turn(d.phase, printed);
            &&& a.request == RequestView::Sql(sql) && a.report is Nothing
            &&& accepts(a.phase, OutcomeView::Accepted)
            &&& b.request is Plan && b.report is Nothing
            &&& accepts(b.phase, planned)
            &&& c.request == RequestView::Run { live: counts_reads && tty } && c.report is Nothing
            &&& accepts(c.phase, OutcomeView::Ran)
            &&& d.request == RequestView::Print { clear: counts_reads && tty }
            &&& d.report is Nothing
            &&& accepts(d.phase, printed)
            &&& e.request is Stop && e.phase is Finished
            &&& e.report == ReportView::Out(seq!['\n'] + stats_text(rows, elapsed, io))
        }),
{
    printed_queries_tell_rows_and_time(rows, elapsed, io);
}

/// The course of a definition: its text goes to the engine as it is, it is carried out, and
/// its time is told; no rows are asked for or printed.
pub proof fn definitions_are_carried_out(sql: Seq<char>, elapsed: Seq<char>)
    ensures
        ({
            let a = first_turn(StatementView::Run { sql, ddl: true });
            let b = next_turn(a.phase, OutcomeView::Accepted);
            let defined = OutcomeView::Defined { elapsed };
            let c = next_turn(b.phase, defined);
            &&& a.request == RequestView::Sql(sql) && a.report is Nothing
            &&& accepts(a.phase, OutcomeView::Accepted)
            &&& b.request is Collect && b.report is Nothing
            &&& accepts(b.phase, defined)
            &&& c.request is Stop && c.phase is Finished
            &&& c.report == ReportView::Out("OK ("@ + elapsed + "s)"@)
        }),
{
}

/// The course of a command: the query that it stands for goes to the engine and its result is
/// shown, and nothing more is told. A blank statement asks for nothing and tells nothing.
pub proof fn commands_are_shown(sql: Seq<char>)
    ensures
        ({
            let a = first_turn(StatementView::Show(sql));
            let b = next_turn(a.phase, OutcomeView::Accepted);
            let c = next_turn(b.phase, OutcomeView::Accepted);
            &&& a.request == RequestView::Sql(sql) && a.report is Nothing
            &&& accepts(a.phase, OutcomeView::Accepted)
            &&& b.request is Show && b.report is Nothing
            &&& accepts(b.phase, OutcomeView::Accepted)
            &&& c.request is Stop && c.phase is Finished && c.report is Nothing
        }),
        ({
            let n = first_turn(StatementView::Blank);
            n.request is Stop && n.phase is Finished && n.report is Nothing
        }),
{
}

/// Wherever a statement fails on its way, the step that it had come to is the one that is
/// named.
pub proof fn failures_on_the_way_are_told(
    sql: Seq<char>,
    counts_reads: bool,
    tty: bool,
    e: Seq<char>,
)
    ensures
        ({
            let failed = OutcomeView::Failed(e);
            let a = first_turn(StatementView::Run { sql, ddl: false });
            let b = next_turn(a.phase, OutcomeView::Accepted);
            let c = next_turn(b.phase, OutcomeView::Planned { counts_reads, tty });
            let d = next_turn(c.phase, OutcomeView::Ran);
            &&& next_turn(a.phase, failed).report == ReportView::Error("SQL Error: "@ + e)
            &&& next_turn(b.phase, failed).report == ReportView::Error(
                "Error creating plan: "@ + e,
            )
            &&& next_turn(c.phase, failed).report == ReportView::Error(
                "Error executing query: "@ + e,
            )
            &&& next_turn(d.phase, failed).report == ReportView::Error(
                "Error displaying results: "@ + e,
            )
        }),
        ({
            let failed = OutcomeView::Failed(e);
            let a = first_turn(StatementView::Run { sql, ddl: true });
            let b = next_turn(a.phase, OutcomeView::Accepted);
            &&& next_turn(a.phase, failed).report == ReportView::Error("SQL Error: "@ + e)
            &&& next_turn(b.phase, failed).report == ReportView::Error("Error: "@ + e)
        }),
        ({
            let failed = OutcomeView::Failed(e);
            let a = first_turn(StatementView::Show(sql));
            let b = next_turn(a.phase, OutcomeView::Accepted);
            &&& next_turn(a.phase, failed).report == ReportView::Error("Error: "@ + e)
            &&& next_turn(b.phase, failed).report == ReportView::Error("Error: "@ + e)
        }),
{
}

/// The views show outcomes and turns as they are.
pub proof fn turns_are_shown_whole(
    s: String,
    n: usize,
    a: bool,
    b: bool,
    io: Option<IoSummary>,
    t: Turn,
)
    ensures
        Outcome::Failed(s)@ == OutcomeView::Failed(s@),
        Outcome::Accepted@ is Accepted,
        Outcome::Ran@ is Ran,
        (Outcome::Defined { elapsed: s })@ == (OutcomeView::Defined { elapsed: s@ }),
        (Outcome::Planned { counts_reads: a, tty: b })@ == (OutcomeView::Planned {
            counts_reads: a,
            tty: b,
        }),
        (Outcome::Printed { rows: n, elapsed: s, io })@ == (OutcomeView::Printed {
            rows: n as nat,
            elapsed: s@,
            io: opt_io(io),
        }),
        t@.phase == t.phase,
        t@.report == t.report@,
        t@.request == t.request@,
        t.report is Nothing <==> t.report@ is Nothing,
        Report::Out(s)@ == ReportView::Out(s@),
        Report::Error(s)@ == ReportView::Error(s@),
        Request::Sql(s)@ == RequestView::Sql(s@),
        (Request::Run { live: a })@ == (RequestView::Run { live: a }),
        (Request::Print { clear: a })@ == (RequestView::Print { clear: a }),
        t.request is Stop <==> t.request@ is Stop,
        t.request is Show <==> t.request@ is Show,
        t.request is Collect <==> t.request@ is Collect,
        t.request is Plan <==> t.request@ is Plan,
{
}

} // verus!
