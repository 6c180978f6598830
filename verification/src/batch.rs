//! Running what the command line gives.

use vstd::prelude::*;

use crate::args::{mode_of, ArgsView, CliArgs};
use crate::script::{script_statements, split_sql_statements};
use crate::text::texts;

verus! {

/// Where statements come from.
#[derive(Debug)]
pub enum BatchInput {
    /// The text itself.
    Command(String),
    /// A file, by its path.
    File(String),
    Stdin,
}

/// [`BatchInput`], over texts.
pub ghost enum InputView {
    Command(Seq<char>),
    File(Seq<char>),
    Stdin,
}

impl View for BatchInput {
    type V = InputView;

    open spec fn view(&self) -> InputView {
        match self {
            BatchInput::Command(s) => InputView::Command(s@),
            BatchInput::File(s) => InputView::File(s@),
            BatchInput::Stdin => InputView::Stdin,
        }
    }
}

/// The views of a sequence of inputs.
pub open spec fn inputs(v: Seq<BatchInput>) -> Seq<InputView> {
    v.map_values(|b: BatchInput| b@)
}

proof fn lemma_inputs_push(v: Seq<BatchInput>, b: BatchInput)
    ensures
        inputs(v.push(b)) == inputs(v).push(b@),
{
    assert(inputs(v.push(b)) =~= inputs(v).push(b@));
}

/// What runs, in order: commands, then files, then what is piped in, the last only
/// where no file was named.
pub open spec fn batch_order(args: ArgsView, piped: bool) -> Seq<InputView> {
    args.commands.map_values(|s: Seq<char>| InputView::Command(s)) + args.files.map_values(
        |s: Seq<char>| InputView::File(s),
    ) + (if args.files.len() == 0 && piped {
        seq![InputView::Stdin]
    } else {
        seq![]
    })
}

/// What runs, in order.
pub fn batch_inputs(args: &CliArgs, piped: bool) -> (r: Vec<BatchInput>)
    ensures
        inputs(r@) == batch_order(args@, piped),
{
    let ghost commands = args@.commands.map_values(|s: Seq<char>| InputView::Command(s));
    let ghost files = args@.files.map_values(|s: Seq<char>| InputView::File(s));
    let mut r: Vec<BatchInput> = Vec::new();
    let mut i: usize = 0;
    while i < args.commands.len()
        invariant
            i <= args.commands@.len(),
            commands == args@.commands.map_values(|s: Seq<char>| InputView::Command(s)),
            inputs(r@) =~= commands.take(i as int),
        decreases args.commands@.len() - i,
    {
        let ghost before = r@;
        let input = BatchInput::Command(args.commands[i].clone());
        r.push(input);
        proof {
            lemma_inputs_push(before, input);
            assert(commands[i as int] == input@);
            assert(commands.take(i + 1) =~= commands.take(i as int).push(input@));
        }
        i = i + 1;
    }
    let mut j: usize = 0;
    while j < args.files.len()
        invariant
            i == args.commands@.len(),
            commands == args@.commands.map_values(|s: Seq<char>| InputView::Command(s)),
            j <= args.files@.len(),
            files == args@.files.map_values(|s: Seq<char>| InputView::File(s)),
            inputs(r@) =~= commands + files.take(j as int),
        decreases args.files@.len() - j,
    {
        let ghost before = r@;
        let input = BatchInput::File(args.files[j].clone());
        r.push(input);
        proof {
            lemma_inputs_push(before, input);
            assert(files[j as int] == input@);
            assert(commands + files.take(j + 1) =~= (commands + files.take(j as int)).push(
                input@,
            ));
        }
        j = j + 1;
    }
    if args.files.len() == 0 && piped {
        r.push(BatchInput::Stdin);
    }
    assert(inputs(r@) =~= batch_order(args@, piped));
    r
}

/// The statements of an input, given what reading it gave, or the message that says
/// why there are none.
pub open spec fn input_statements(input: InputView, read: Result<Seq<char>, Seq<char>>) -> Result<
    Seq<Seq<char>>,
    Seq<char>,
> {
    match (input, read) {
        (InputView::Command(s), _) => Ok(script_statements(s)),
        (_, Ok(s)) => Ok(script_statements(s)),
        (InputView::File(path), Err(e)) => Err("Error reading "@ + path + ": "@ + e),
        (InputView::Stdin, Err(e)) => Err("Error reading stdin: "@ + e),
    }
}

/// What was read, over texts.
pub open spec fn read_view(read: Result<String, String>) -> Result<Seq<char>, Seq<char>> {
    match read {
        Ok(s) => Ok(s@),
        Err(e) => Err(e@),
    }
}

/// The statements of an input, given what reading it gave: its content or the error's
/// text. A command needs no reading, so there `read` has no say.
pub fn statements_of(input: &BatchInput, read: Result<String, String>) -> (r: Result<
    Vec<String>,
    String,
>)
    ensures
        match input_statements(input@, read_view(read)) {
            Ok(v) => r matches Ok(s) && texts(s@) == v,
            Err(m) => r matches Err(e) && e@ == m,
        },
{
    match (input, read) {
        (BatchInput::Command(s), _) => Ok(split_sql_statements(s.as_str())),
        (_, Ok(s)) => Ok(split_sql_statements(s.as_str())),
        (BatchInput::File(path), Err(e)) => {
            let mut m = "Error reading ".to_owned();
            m.append(path.as_str());
            m.append(": ");
            m.append(e.as_str());
            Err(m)
        },
        (BatchInput::Stdin, Err(e)) => {
            let mut m = "Error reading stdin: ".to_owned();
            m.append(e.as_str());
            Err(m)
        },
    }
}

/// Commands run before any file, and files before what is piped in.
pub proof fn commands_run_first(args: ArgsView, piped: bool, i: int, j: int)
    requires
        0 <= i < j < batch_order(args, piped).len(),
    ensures
        batch_order(args, piped)[j] is Command ==> batch_order(args, piped)[i] is Command,
        batch_order(args, piped)[j] is File ==> batch_order(args, piped)[i] !is Stdin,
        batch_order(args, piped)[i] !is Stdin,
{
}

/// Where a file was named, what is piped in is not read.
pub proof fn files_shut_out_stdin(args: ArgsView, piped: bool)
    requires
        args.files.len() > 0,
    ensures
        !batch_order(args, piped).contains(InputView::Stdin),
{
}

/// Every command runs, then every file, each once and in the order given, and behind them
/// what is piped in where no file was named; nothing else runs.
pub proof fn everything_given_runs_once(args: ArgsView, piped: bool)
    ensures
        ({
            let n = args.commands.len() as int;
            let m = args.files.len() as int;
            let all = batch_order(args, piped);
            &&& m > 0 || !piped ==> all.len() == n + m
            &&& m == 0 && piped ==> all.len() == n + 1 && all[n] is Stdin
            &&& forall|i: int|
                0 <= i < n ==> #[trigger] all[i] == InputView::Command(args.commands[i])
            &&& forall|j: int|
                0 <= j < m ==> #[trigger] all[n + j] == InputView::File(args.files[j])
        }),
{
}

/// The program runs statements only where there is an input to take them from.
pub proof fn batches_have_an_input(args: ArgsView, piped: bool)
    ensures
        mode_of(args, piped) is Batch ==> batch_order(args, piped).len() > 0,
        mode_of(args, piped) is Interactive ==> batch_order(args, piped).len() == 0,
{
}

/// The same text holds the same statements, those that it is cut into, wherever it comes
/// from; a command needs no reading, so a failed one does not matter.
pub proof fn the_source_does_not_matter(
    s: Seq<char>,
    path: Seq<char>,
    read: Result<Seq<char>, Seq<char>>,
)
    ensures
        input_statements(InputView::Command(s), read) == Ok::<Seq<Seq<char>>, Seq<char>>(
            script_statements(s),
        ),
        input_statements(InputView::File(path), Ok(s)) == Ok::<Seq<Seq<char>>, Seq<char>>(
            script_statements(s),
        ),
        input_statements(InputView::Stdin, Ok(s)) == Ok::<Seq<Seq<char>>, Seq<char>>(
            script_statements(s),
        ),
{
}

/// What cannot be read gives no statements, and the message names the file, or the standard
/// input, and the error.
pub proof fn unreadable_inputs_are_named(path: Seq<char>, e: Seq<char>)
    ensures
        input_statements(InputView::File(path), Err(e)) == Err::<Seq<Seq<char>>, Seq<char>>(
            "Error reading "@ + path + ": "@ + e,
        ),
        input_statements(InputView::Stdin, Err(e)) == Err::<Seq<Seq<char>>, Seq<char>>(
            "Error reading stdin: "@ + e,
        ),
{
}

/// The views show inputs and what was read as they are.
pub proof fn inputs_are_shown_whole(v: Seq<BatchInput>, s: String)
    ensures
        inputs(v).len() == v.len(),
        forall|i: int| 0 <= i < v.len() ==> #[trigger] inputs(v)[i] == v[i]@,
        BatchInput::Command(s)@ == InputView::Command(s@),
        BatchInput::File(s)@ == InputView::File(s@),
        BatchInput::Stdin@ is Stdin,
        read_view(Ok(s)) == Ok::<Seq<char>, Seq<char>>(s@),
        read_view(Err(s)) == Err::<Seq<char>, Seq<char>>(s@),
{
}

} // verus!
