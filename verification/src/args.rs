//! The command line's arguments.

use vstd::prelude::*;

use crate::text::{chars_of, same_text, texts};

verus! {

/// Parsed command-line arguments.
#[derive(Debug)]
pub struct CliArgs {
    /// `.sql` files to execute, in order.
    pub files: Vec<String>,
    /// Inline statements, which run before any files.
    pub commands: Vec<String>,
    /// Show usage and exit.
    pub help: bool,
    /// Show version and exit.
    pub version: bool,
}

/// [`CliArgs`], over texts.
pub ghost struct ArgsView {
    pub files: Seq<Seq<char>>,
    pub commands: Seq<Seq<char>>,
    pub help: bool,
    pub version: bool,
}

impl View for CliArgs {
    type V = ArgsView;

    open spec fn view(&self) -> ArgsView {
        ArgsView {
            files: texts(self.files@),
            commands: texts(self.commands@),
            help: self.help,
            version: self.version,
        }
    }
}

impl ArgsView {
    /// No arguments.
    pub open spec fn none() -> ArgsView {
        ArgsView { files: seq![], commands: seq![], help: false, version: false }
    }

    /// The arguments of `self` and, behind them, those of `other`.
    pub open spec fn then_also(self, other: ArgsView) -> ArgsView {
        ArgsView {
            files: self.files + other.files,
            commands: self.commands + other.commands,
            help: self.help || other.help,
            version: self.version || other.version,
        }
    }

    /// The arguments of `self` before those that were read behind them.
    pub open spec fn before(self, rest: Result<ArgsView, Seq<char>>) -> Result<
        ArgsView,
        Seq<char>,
    > {
        match rest {
            Ok(r) => Ok(self.then_also(r)),
            Err(e) => Err(e),
        }
    }
}

/// What the first word of a command line is.
pub enum Word {
    Help,
    Version,
    /// A file stands in the next word.
    File,
    /// A statement stands in the next word.
    Command,
    Unknown,
    /// A file's path.
    Path,
}

/// What a word of the command line is, where a new argument begins. A lone `-` is a
/// path.
pub open spec fn word_of(a: Seq<char>) -> Word {
    if a == "-h"@ || a == "--help"@ {
        Word::Help
    } else if a == "-V"@ || a == "--version"@ {
        Word::Version
    } else if a == "-f"@ || a == "--file"@ {
        Word::File
    } else if a == "-c"@ || a == "--command"@ {
        Word::Command
    } else if a.len() > 1 && a[0] == '-' {
        Word::Unknown
    } else {
        Word::Path
    }
}

/// What a command line says, or the message that says what is wrong with it.
pub open spec fn parsed(args: Seq<Seq<char>>) -> Result<ArgsView, Seq<char>>
    decreases args.len(),
{
    let none = ArgsView::none();
    if args.len() == 0 {
        Ok(none)
    } else {
        let a = args[0];
        match word_of(a) {
            Word::Help => ArgsView { help: true, ..none }.before(parsed(args.skip(1))),
            Word::Version => ArgsView { version: true, ..none }.before(parsed(args.skip(1))),
            Word::File => if args.len() < 2 {
                Err(a + " requires a path argument"@)
            } else {
                ArgsView { files: seq![args[1]], ..none }.before(parsed(args.skip(2)))
            },
            Word::Command => if args.len() < 2 {
                Err(a + " requires a SQL argument"@)
            } else {
                ArgsView { commands: seq![args[1]], ..none }.before(parsed(args.skip(2)))
            },
            Word::Unknown => Err("Unknown option: "@ + a + " (try --help)"@),
            Word::Path => ArgsView { files: seq![a], ..none }.before(parsed(args.skip(1))),
        }
    }
}

/// What a word of the command line is, where a new argument begins.
fn read_word(a: &str) -> (w: Word)
    ensures
        w == word_of(a@),
{
    if same_text(a, "-h") || same_text(a, "--help") {
        Word::Help
    } else if same_text(a, "-V") || same_text(a, "--version") {
        Word::Version
    } else if same_text(a, "-f") || same_text(a, "--file") {
        Word::File
    } else if same_text(a, "-c") || same_text(a, "--command") {
        Word::Command
    } else {
        let v = chars_of(a);
        if v.len() > 1 && v[0] == '-' {
            Word::Unknown
        } else {
            Word::Path
        }
    }
}

/// The message that `option` lacks its value.
fn missing(option: &str, what: &str) -> (m: String)
    ensures
        m@ == option@ + what@,
{
    let mut m = option.to_owned();
    m.append(what);
    m
}

/// Parse the arguments behind the program's name. Bare words are file paths.
pub fn parse_cli_args(args: &Vec<String>) -> (r: Result<CliArgs, String>)
    ensures
        match parsed(texts(args@)) {
            Ok(v) => r matches Ok(a) && a@ == v,
            Err(m) => r matches Err(e) && e@ == m,
        },
{
    let ghost all = texts(args@);
    let mut a = CliArgs { files: Vec::new(), commands: Vec::new(), help: false, version: false };
    let mut i: usize = 0;
    proof {
        assert(all.skip(0) =~= all);
        lemma_before_none(a@, parsed(all));
    }
    while i < args.len()
        invariant
            all == texts(args@),
            i <= args@.len(),
            parsed(all) == a@.before(parsed(all.skip(i as int))),
        decreases args@.len() - i,
    {
        let ghost rest = all.skip(i as int);
        let ghost before = a@;
        proof {
            assert(rest[0] == args@[i as int]@);
            assert(rest.skip(1) =~= all.skip(i + 1));
            if i + 1 < args@.len() {
                assert(rest[1] == args@[i + 1]@);
                assert(rest.skip(2) =~= all.skip(i + 2));
            }
        }
        match read_word(args[i].as_str()) {
            Word::Help => {
                a.help = true;
                proof {
                    lemma_before(
                        before,
                        ArgsView { help: true, ..ArgsView::none() },
                        a@,
                        parsed(rest.skip(1)),
                    );
                }
                i = i + 1;
            },
            Word::Version => {
                a.version = true;
                proof {
                    lemma_before(
                        before,
                        ArgsView { version: true, ..ArgsView::none() },
                        a@,
                        parsed(rest.skip(1)),
                    );
                }
                i = i + 1;
            },
            Word::File => {
                if i + 1 >= args.len() {
                    return Err(missing(args[i].as_str(), " requires a path argument"));
                }
                a.files.push(args[i + 1].clone());
                proof {
                    lemma_before(
                        before,
                        ArgsView { files: seq![rest[1]], ..ArgsView::none() },
                        a@,
                        parsed(rest.skip(2)),
                    );
                }
                i = i + 2;
            },
            Word::Command => {
                if i + 1 >= args.len() {
                    return Err(missing(args[i].as_str(), " requires a SQL argument"));
                }
                a.commands.push(args[i + 1].clone());
                proof {
                    lemma_before(
                        before,
                        ArgsView { commands: seq![rest[1]], ..ArgsView::none() },
                        a@,
                        parsed(rest.skip(2)),
                    );
                }
                i = i + 2;
            },
            Word::Unknown => {
                let mut m = "Unknown option: ".to_owned();
                m.append(args[i].as_str());
                m.append(" (try --help)");
                return Err(m);
            },
            Word::Path => {
                a.files.push(args[i].clone());
                proof {
                    lemma_before(
                        before,
                        ArgsView { files: seq![rest[0]], ..ArgsView::none() },
                        a@,
                        parsed(rest.skip(1)),
                    );
                }
                i = i + 1;
            },
        }
    }
    proof {
        assert(all.skip(i as int) =~= seq![]);
        assert(a@.then_also(ArgsView::none()).files =~= a@.files);
        assert(a@.then_also(ArgsView::none()).commands =~= a@.commands);
    }
    Ok(a)
}

proof fn lemma_before_none(v: ArgsView, r: Result<ArgsView, Seq<char>>)
    requires
        v.files.len() == 0,
        v.commands.len() == 0,
        !v.help,
        !v.version,
    ensures
        v.before(r) == r,
{
    if let Ok(w) = r {
        assert(v.then_also(w).files =~= w.files);
        assert(v.then_also(w).commands =~= w.commands);
    }
}

/// Reading one argument `one` behind `before` gives `after`.
proof fn lemma_before(
    before: ArgsView,
    one: ArgsView,
    after: ArgsView,
    r: Result<ArgsView, Seq<char>>,
)
    requires
        after.files =~= before.files + one.files,
        after.commands =~= before.commands + one.commands,
        after.help == (before.help || one.help),
        after.version == (before.version || one.version),
    ensures
        before.before(one.before(r)) == after.before(r),
{
    if let Ok(w) = r {
        assert(before.then_also(one.then_also(w)).files =~= after.then_also(w).files);
        assert(before.then_also(one.then_also(w)).commands =~= after.then_also(w).commands);
    }
}

/// Arguments add up: what stands behind a complete command line is read as if it
/// stood alone, and comes behind what was said before.
pub proof fn arguments_add_up(a: Seq<Seq<char>>, b: Seq<Seq<char>>)
    requires
        parsed(a) is Ok,
    ensures
        parsed(a + b) == parsed(a)->Ok_0.before(parsed(b)),
    decreases a.len(),
{
    let none = ArgsView::none();
    if a.len() == 0 {
        assert(a + b =~= b);
        lemma_before_none(none, parsed(b));
    } else {
        let ab = a + b;
        assert(ab[0] == a[0]);
        assert(ab.skip(1) =~= a.skip(1) + b);
        let n: int = match word_of(a[0]) {
            Word::File | Word::Command => 2,
            _ => 1,
        };
        if n == 2 {
            assert(ab[1] == a[1]);
            assert(ab.skip(2) =~= a.skip(2) + b);
        }
        let one = match word_of(a[0]) {
            Word::Help => ArgsView { help: true, ..none },
            Word::Version => ArgsView { version: true, ..none },
            Word::File => ArgsView { files: seq![a[1]], ..none },
            Word::Command => ArgsView { commands: seq![a[1]], ..none },
            _ => ArgsView { files: seq![a[0]], ..none },
        };
        assert(parsed(a) == one.before(parsed(a.skip(n))));
        arguments_add_up(a.skip(n), b);
        assert(parsed(ab) == one.before(parsed(a.skip(n) + b)));
        let rest = parsed(a.skip(n))->Ok_0;
        lemma_before(one, rest, parsed(a)->Ok_0, parsed(b));
    }
}

/// An option that is not known is refused by name, whatever stands behind it.
pub proof fn unknown_options_are_refused(a: Seq<Seq<char>>, option: Seq<char>, b: Seq<Seq<char>>)
    requires
        parsed(a) is Ok,
        word_of(option) is Unknown,
    ensures
        parsed(a + seq![option] + b) == Err::<ArgsView, Seq<char>>(
            "Unknown option: "@ + option + " (try --help)"@,
        ),
{
    let t = seq![option] + b;
    assert(a + seq![option] + b =~= a + t);
    assert(t[0] == option);
    arguments_add_up(a, t);
}

/// A file may be named with or without `-f` or `--file` before it.
pub proof fn file_option_is_a_path(option: Seq<char>, path: Seq<char>, rest: Seq<Seq<char>>)
    requires
        option == "-f"@ || option == "--file"@,
        word_of(path) is Path,
    ensures
        parsed(seq![option, path] + rest) == parsed(seq![path] + rest),
{
    reveal_strlit("-f");
    reveal_strlit("--file");
    reveal_strlit("-h");
    reveal_strlit("--help");
    reveal_strlit("-V");
    reveal_strlit("--version");
    let a = seq![option, path] + rest;
    let b = seq![path] + rest;
    assert(a[0] == option);
    assert(a[1] == path);
    assert(b[0] == path);
    assert(a.skip(2) =~= rest);
    assert(b.skip(1) =~= rest);
    assert(option.len() == 2 || option.len() == 6);
    assert(option[1] != 'h' && option[1] != 'V');
    assert(option.len() == 6 ==> option[2] != 'h');
    assert(word_of(option) is File);
}

/// What the program does.
#[derive(Debug)]
pub enum Mode {
    /// Tell the version.
    Version,
    /// Tell how it is used.
    Help,
    /// Run the statements that were given, and exit.
    Batch,
    /// Ask for statements.
    Interactive,
}

/// What the program does with its arguments; `piped` where its input is no terminal.
pub open spec fn mode_of(args: ArgsView, piped: bool) -> Mode {
    if args.version {
        Mode::Version
    } else if args.help {
        Mode::Help
    } else if args.files.len() > 0 || args.commands.len() > 0 || piped {
        Mode::Batch
    } else {
        Mode::Interactive
    }
}

/// What the program does with its arguments; `piped` where its input is no terminal.
pub fn startup_mode(args: &CliArgs, piped: bool) -> (m: Mode)
    ensures
        m == mode_of(args@, piped),
{
    if args.version {
        Mode::Version
    } else if args.help {
        Mode::Help
    } else if args.files.len() > 0 || args.commands.len() > 0 || piped {
        Mode::Batch
    } else {
        Mode::Interactive
    }
}

/// The file, in the directory of [`history_dir`], that holds what was typed.
pub const HISTORY_FILE: &'static str = ".zarr_cli_history";

/// The directory of the history file: the home directory, or the current one where
/// there is no home.
pub fn history_dir(home: Option<String>) -> (d: String)
    ensures
        home matches Some(h) ==> d@ == h@,
        home is None ==> d@ == "."@,
{
    match home {
        Some(h) => h,
        None => ".".to_owned(),
    }
}

/// `w` is none of the options that are known.
pub open spec fn no_option(w: Seq<char>) -> bool {
    &&& w != "-h"@ && w != "--help"@ && w != "-V"@ && w != "--version"@
    &&& w != "-f"@ && w != "--file"@ && w != "-c"@ && w != "--command"@
}

proof fn lemma_options_differ()
    ensures
        word_of("-h"@) is Help,
        word_of("--help"@) is Help,
        word_of("-V"@) is Version,
        word_of("--version"@) is Version,
        word_of("-f"@) is File,
        word_of("--file"@) is File,
        word_of("-c"@) is Command,
        word_of("--command"@) is Command,
{
    reveal_strlit("-h");
    reveal_strlit("--help");
    reveal_strlit("-V");
    reveal_strlit("--version");
    reveal_strlit("-f");
    reveal_strlit("--file");
    reveal_strlit("-c");
    reveal_strlit("--command");
    assert("-V"@[1] != "-h"@[1]);
    assert("-f"@[1] != "-h"@[1] && "-f"@[1] != "-V"@[1]);
    assert("-c"@[1] != "-h"@[1] && "-c"@[1] != "-V"@[1] && "-c"@[1] != "-f"@[1]);
    assert("--file"@[2] != "--help"@[2]);
    assert("--version"@[2] != "--command"@[2]);
}

proof fn lemma_word_without_dash(w: Seq<char>)
    requires
        w.len() <= 1 || w[0] != '-',
    ensures
        word_of(w) is Path,
{
    reveal_strlit("-h");
    reveal_strlit("--help");
    reveal_strlit("-V");
    reveal_strlit("--version");
    reveal_strlit("-f");
    reveal_strlit("--file");
    reveal_strlit("-c");
    reveal_strlit("--command");
    assert("-h"@[0] == '-' && "--help"@[0] == '-' && "-V"@[0] == '-' && "--version"@[0] == '-');
    assert("-f"@[0] == '-' && "--file"@[0] == '-' && "-c"@[0] == '-' && "--command"@[0] == '-');
}

/// A word that does not begin with `-`, or is no more than that, is a file's path, whatever
/// else stands in it.
pub proof fn bare_words_are_files(w: Seq<char>)
    requires
        w.len() <= 1 || w[0] != '-',
    ensures
        parsed(seq![w]) == Ok::<ArgsView, Seq<char>>(
            (ArgsView { files: seq![w], commands: seq![], help: false, version: false }),
        ),
{
    lemma_word_without_dash(w);
    let args = seq![w];
    assert(args.skip(1) =~= seq![]);
    assert(parsed(args.skip(1)) == Ok::<ArgsView, Seq<char>>(ArgsView::none()));
    assert(seq![w] + Seq::<Seq<char>>::empty() =~= seq![w]);
    assert(Seq::<Seq<char>>::empty() + Seq::<Seq<char>>::empty() =~= seq![]);
}

/// The word behind `-f` or `--file` is a file's path and the one behind `-c` or `--command` a
/// statement, whatever it is, even where it looks like an option.
pub proof fn options_take_the_next_word(option: Seq<char>, value: Seq<char>)
    ensures
        option == "-f"@ || option == "--file"@ ==> parsed(seq![option, value]) == Ok::<
            ArgsView,
            Seq<char>,
        >((ArgsView { files: seq![value], commands: seq![], help: false, version: false })),
        option == "-c"@ || option == "--command"@ ==> parsed(seq![option, value]) == Ok::<
            ArgsView,
            Seq<char>,
        >((ArgsView { files: seq![], commands: seq![value], help: false, version: false })),
{
    lemma_options_differ();
    let args = seq![option, value];
    assert(args.skip(2) =~= seq![]);
    assert(parsed(args.skip(2)) == Ok::<ArgsView, Seq<char>>(ArgsView::none()));
    assert(seq![value] + Seq::<Seq<char>>::empty() =~= seq![value]);
    assert(Seq::<Seq<char>>::empty() + Seq::<Seq<char>>::empty() =~= seq![]);
}

/// Help and version are asked for by a word of their own, and that word says nothing else.
pub proof fn help_and_version_stand_alone(option: Seq<char>)
    ensures
        option == "-h"@ || option == "--help"@ ==> parsed(seq![option]) == Ok::<
            ArgsView,
            Seq<char>,
        >((ArgsView { files: seq![], commands: seq![], help: true, version: false })),
        option == "-V"@ || option == "--version"@ ==> parsed(seq![option]) == Ok::<
            ArgsView,
            Seq<char>,
        >((ArgsView { files: seq![], commands: seq![], help: false, version: true })),
        parsed(seq![]) == Ok::<ArgsView, Seq<char>>(
            (ArgsView { files: seq![], commands: seq![], help: false, version: false }),
        ),
{
    lemma_options_differ();
    let args = seq![option];
    assert(args.skip(1) =~= seq![]);
    assert(parsed(args.skip(1)) == Ok::<ArgsView, Seq<char>>(ArgsView::none()));
    assert(Seq::<Seq<char>>::empty() + Seq::<Seq<char>>::empty() =~= seq![]);
}

/// An option that ends the command line without the value that it takes is refused, with
/// the option as it was written, whatever stands before it.
pub proof fn options_without_a_value_are_refused(a: Seq<Seq<char>>, option: Seq<char>)
    requires
        parsed(a) is Ok,
    ensures
        option == "-f"@ || option == "--file"@ ==> parsed(a + seq![option]) == Err::<
            ArgsView,
            Seq<char>,
        >(option + " requires a path argument"@),
        option == "-c"@ || option == "--command"@ ==> parsed(a + seq![option]) == Err::<
            ArgsView,
            Seq<char>,
        >(option + " requires a SQL argument"@),
{
    lemma_options_differ();
    arguments_add_up(a, seq![option]);
}

/// Any other word that begins with `-` and goes on is refused by name, behind any complete
/// command line and whatever follows it.
pub proof fn other_options_are_refused(a: Seq<Seq<char>>, option: Seq<char>, b: Seq<Seq<char>>)
    requires
        parsed(a) is Ok,
        option.len() > 1,
        option[0] == '-',
        no_option(option),
    ensures
        parsed(a + seq![option] + b) == Err::<ArgsView, Seq<char>>(
            "Unknown option: "@ + option + " (try --help)"@,
        ),
{
    unknown_options_are_refused(a, option, b);
}

/// Of two complete command lines, one behind the other, files come behind files and commands
/// behind commands, and help or version is asked for where either asks. What is wrong with
/// the second is wrong with both.
pub proof fn nothing_said_is_lost(a: Seq<Seq<char>>, b: Seq<Seq<char>>)
    requires
        parsed(a) is Ok,
    ensures
        match parsed(b) {
            Ok(y) => {
                let x = parsed(a)->Ok_0;
                let z = parsed(a + b)->Ok_0;
                &&& parsed(a + b) is Ok
                &&& z.files == x.files + y.files
                &&& z.commands == x.commands + y.commands
                &&& z.help == (x.help || y.help)
                &&& z.version == (x.version || y.version)
            },
            Err(e) => parsed(a + b) == Err::<ArgsView, Seq<char>>(e),
        },
{
    arguments_add_up(a, b);
}

/// The version is told where it was asked for, else the usage where that was; else
/// statements run where there is a file, a command or a pipe, and only where there is none
/// of them are statements asked for.
pub proof fn asking_comes_before_running(args: ArgsView, piped: bool)
    ensures
        mode_of(args, piped) is Version <==> args.version,
        mode_of(args, piped) is Help <==> args.help && !args.version,
        mode_of(args, piped) is Interactive <==> !args.version && !args.help && args.files.len()
            == 0 && args.commands.len() == 0 && !piped,
{
}

/// The view of arguments shows every field as it is.
pub proof fn arguments_are_shown_whole(a: CliArgs)
    ensures
        a@.help == a.help,
        a@.version == a.version,
        a@.files.len() == a.files@.len(),
        a@.commands.len() == a.commands@.len(),
        forall|i: int| 0 <= i < a.files@.len() ==> #[trigger] a@.files[i] == a.files@[i]@,
        forall|i: int| 0 <= i < a.commands@.len() ==> #[trigger] a@.commands[i] == a.commands@[i]@,
{
}

} // verus!
