//! Asking for statements, one line at a time.

use vstd::prelude::*;

use crate::text::{
    ascii_upper, eq_ignore_ascii_case, opt_text, same_but_ascii_case, trim, trimmed,
    trimming_is_idempotent,
};

verus! {

/// What the line editor gave.
#[derive(Debug)]
pub enum Typed {
    Line(String),
    /// The line was broken off.
    Interrupted,
    /// There are no more lines.
    Eof,
    /// The editor failed, and this is the error's text.
    Failed(String),
}

/// What is to be done.
#[derive(Debug)]
pub enum ReplAction {
    /// Ask for the next line.
    Ask,
    /// Show the commands, and ask again.
    Help,
    /// Execute the statement, and ask again.
    Execute(String),
    /// Print the line, and ask again.
    Print(String),
    /// Leave.
    Leave,
    /// Print the line on the error output, and leave.
    LeaveWith(String),
}

/// What follows a line: what goes into the history, and what is to be done then.
#[derive(Debug)]
pub struct ReplTurn {
    pub history: Option<String>,
    pub action: ReplAction,
}

/// [`Typed`], over texts.
pub ghost enum TypedView {
    Line(Seq<char>),
    Interrupted,
    Eof,
    Failed(Seq<char>),
}

/// [`ReplAction`], over texts.
pub ghost enum ActionView {
    Ask,
    Help,
    Execute(Seq<char>),
    Print(Seq<char>),
    Leave,
    LeaveWith(Seq<char>),
}

/// [`ReplTurn`], over texts.
pub ghost struct ReplView {
    pub history: Option<Seq<char>>,
    pub action: ActionView,
}

impl View for Typed {
    type V = TypedView;

    open spec fn view(&self) -> TypedView {
        match self {
            Typed::Line(s) => TypedView::Line(s@),
            Typed::Interrupted => TypedView::Interrupted,
            Typed::Eof => TypedView::Eof,
            Typed::Failed(e) => TypedView::Failed(e@),
        }
    }
}

impl View for ReplAction {
    type V = ActionView;

    open spec fn view(&self) -> ActionView {
        match self {
            ReplAction::Ask => ActionView::Ask,
            ReplAction::Help => ActionView::Help,
            ReplAction::Execute(s) => ActionView::Execute(s@),
            ReplAction::Print(s) => ActionView::Print(s@),
            ReplAction::Leave => ActionView::Leave,
            ReplAction::LeaveWith(s) => ActionView::LeaveWith(s@),
        }
    }
}

impl View for ReplTurn {
    type V = ReplView;

    open spec fn view(&self) -> ReplView {
        ReplView { history: opt_text(self.history), action: self.action@ }
    }
}

/// What is to be done for a line that is not blank.
pub open spec fn line_action(line: Seq<char>) -> ActionView {
    if same_but_ascii_case(line, "quit"@) || same_but_ascii_case(line, "exit"@) {
        ActionView::Leave
    } else if same_but_ascii_case(line, "help"@) {
        ActionView::Help
    } else {
        ActionView::Execute(line)
    }
}

/// What follows what the editor gave. Lines are taken without the white space around
/// them, and blank ones leave no trace.
pub open spec fn reaction(typed: TypedView) -> ReplView {
    match typed {
        TypedView::Line(s) => if trimmed(s).len() == 0 {
            ReplView { history: None, action: ActionView::Ask }
        } else {
            ReplView { history: Some(trimmed(s)), action: line_action(trimmed(s)) }
        },
        TypedView::Interrupted => ReplView { history: None, action: ActionView::Print("^C"@) },
        TypedView::Eof => ReplView { history: None, action: ActionView::Leave },
        TypedView::Failed(e) => ReplView {
            history: None,
            action: ActionView::LeaveWith("Error: "@ + e),
        },
    }
}

/// What follows what the editor gave.
pub fn react(typed: Typed) -> (t: ReplTurn)
    ensures
        t@ == reaction(typed@),
{
    match typed {
        Typed::Line(s) => {
            let line = trim(s.as_str());
            if line.as_str().is_empty() {
                return ReplTurn { history: None, action: ReplAction::Ask };
            }
            let action = if eq_ignore_ascii_case(line.as_str(), "quit") || eq_ignore_ascii_case(
                line.as_str(),
                "exit",
            ) {
                ReplAction::Leave
            } else if eq_ignore_ascii_case(line.as_str(), "help") {
                ReplAction::Help
            } else {
                ReplAction::Execute(line.clone())
            };
            ReplTurn { history: Some(line), action }
        },
        Typed::Interrupted => {
            ReplTurn { history: None, action: ReplAction::Print("^C".to_owned()) }
        },
        Typed::Eof => ReplTurn { history: None, action: ReplAction::Leave },
        Typed::Failed(e) => {
            let mut m = "Error: ".to_owned();
            m.append(e.as_str());
            ReplTurn { history: None, action: ReplAction::LeaveWith(m) }
        },
    }
}

/// Whatever is executed is in the history, word for word.
pub proof fn executed_lines_are_remembered(typed: TypedView)
    ensures
        reaction(typed).action matches ActionView::Execute(s) ==> reaction(typed).history == Some(
            s,
        ),
{
}

/// White space around a line changes nothing.
pub proof fn surrounding_space_is_ignored(s: Seq<char>)
    ensures
        reaction(TypedView::Line(trimmed(s))) == reaction(TypedView::Line(s)),
{
    trimming_is_idempotent(s);
}

/// Every line that is not blank and, without the white space around it, is none of `quit`,
/// `exit` and `help` in letters of either case, is executed as it stands.
pub proof fn other_lines_are_executed(s: Seq<char>)
    requires
        trimmed(s).len() > 0,
        !same_but_ascii_case(trimmed(s), "quit"@),
        !same_but_ascii_case(trimmed(s), "exit"@),
        !same_but_ascii_case(trimmed(s), "help"@),
    ensures
        reaction(TypedView::Line(s)).action == ActionView::Execute(trimmed(s)),
{
}

/// `quit` and `exit` leave and `help` shows the commands, in letters of either case; no
/// other line does.
pub proof fn words_for_the_prompt_itself(s: Seq<char>)
    ensures
        reaction(TypedView::Line(s)).action is Leave <==> same_but_ascii_case(trimmed(s), "quit"@)
            || same_but_ascii_case(trimmed(s), "exit"@),
        reaction(TypedView::Line(s)).action is Help <==> same_but_ascii_case(trimmed(s), "help"@),
{
    reveal_strlit("quit");
    reveal_strlit("exit");
    reveal_strlit("help");
    assert("help"@[0] == 'h' && "quit"@[0] == 'q' && "exit"@[0] == 'e');
    let t = trimmed(s);
    if same_but_ascii_case(t, "help"@) {
        assert(ascii_upper(t[0]) == ascii_upper('h'));
    }
}

/// A line goes into the history exactly where it is not blank, without the white space
/// around it; a blank one is passed over.
pub proof fn lines_are_remembered_unless_blank(s: Seq<char>)
    ensures
        trimmed(s).len() > 0 ==> reaction(TypedView::Line(s)).history == Some(trimmed(s)),
        trimmed(s).len() == 0 ==> reaction(TypedView::Line(s)).history is None,
        trimmed(s).len() == 0 <==> reaction(TypedView::Line(s)).action is Ask,
{
}

/// Where there is no line nothing is remembered or executed: a break is shown and the next
/// line asked for, the end of the lines leaves, and an error is told and leaves.
pub proof fn without_a_line_nothing_is_executed(e: Seq<char>)
    ensures
        reaction(TypedView::Interrupted) == (ReplView {
            history: None,
            action: ActionView::Print("^C"@),
        }),
        reaction(TypedView::Eof) == (ReplView { history: None, action: ActionView::Leave }),
        reaction(TypedView::Failed(e)) == (ReplView {
            history: None,
            action: ActionView::LeaveWith("Error: "@ + e),
        }),
{
}

/// The views show what was typed and what is to be done as it is.
pub proof fn turns_are_shown_whole(s: String, t: ReplTurn)
    ensures
        Typed::Line(s)@ == TypedView::Line(s@),
        Typed::Failed(s)@ == TypedView::Failed(s@),
        Typed::Interrupted@ is Interrupted,
        Typed::Eof@ is Eof,
        t@.history is None <==> t.history is None,
        t.history matches Some(h) ==> t@.history == Some(h@),
        t@.action == t.action@,
        ReplAction::Execute(s)@ == ActionView::Execute(s@),
        ReplAction::Print(s)@ == ActionView::Print(s@),
        ReplAction::LeaveWith(s)@ == ActionView::LeaveWith(s@),
        t.action is Ask <==> t.action@ is Ask,
        t.action is Help <==> t.action@ is Help,
        t.action is Leave <==> t.action@ is Leave,
{
}

} // verus!
