//! The log of an update: lines below each other.

use crate::update_list::with_line;
use vstd::prelude::*;

verus! {

/// What can happen to the log.
#[derive(Debug, Clone)]
pub enum LogViewInput {
    /// A line is added at the end.
    AppendLine(String),
    /// The log is emptied.
    Clear,
}

/// What an input holds.
pub enum LogViewInputView {
    AppendLine(Seq<char>),
    Clear,
}

impl View for LogViewInput {
    type V = LogViewInputView;

    open spec fn view(&self) -> LogViewInputView {
        match self {
            LogViewInput::AppendLine(line) => LogViewInputView::AppendLine(line@),
            LogViewInput::Clear => LogViewInputView::Clear,
        }
    }
}

/// The log after an input.
pub open spec fn log_after(log: Seq<char>, input: LogViewInputView) -> Seq<char> {
    match input {
        LogViewInputView::AppendLine(line) => with_line(log, line),
        LogViewInputView::Clear => Seq::empty(),
    }
}

/// What to write at the end of a log to add a line to it.
pub open spec fn added_text(log_is_empty: bool, line: Seq<char>) -> Seq<char> {
    if log_is_empty {
        line
    } else {
        seq!['\n'] + line
    }
}

/// What to write at the end of a log to add a line to it.
pub fn text_to_append(log_is_empty: bool, line: &str) -> (res: String)
    ensures
        res@ == added_text(log_is_empty, line@),
{
    if log_is_empty {
        line.to_owned()
    } else {
        let mut text: String = "\n".to_owned();
        text.append(line);
        proof {
            reveal_strlit("\n");
            assert("\n"@ =~= seq!['\n']);
        }
        text
    }
}

/// Writing the added text at the end of a log gives the log with that line.
pub proof fn law_log_grows_at_end(log: Seq<char>, line: Seq<char>)
    ensures
        log_after(log, LogViewInputView::AppendLine(line)) == log + added_text(
            log.len() == 0,
            line,
        ),
{
    assert(log.push('\n') + line =~= log + (seq!['\n'] + line));
    if log.len() == 0 {
        assert(log + line =~= line);
    }
}

/// An empty log gets the line alone, another one gets it on a line of its own; clearing
/// leaves nothing.
pub proof fn law_log_lines(log: Seq<char>, line: Seq<char>)
    ensures
        added_text(true, line) == line,
        added_text(false, line) == "\n"@ + line,
        log_after(log, LogViewInputView::Clear).len() == 0,
{
    reveal_strlit("\n");
    assert("\n"@ =~= seq!['\n']);
}

} // verus!
