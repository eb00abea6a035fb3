//! What the user interface is told while a session and its transfers run.

use crate::text::{begins_with, outcome_view, starts_with};
use vstd::prelude::*;

verus! {

// ---------------------------------------------------------------------------
// The log
// ---------------------------------------------------------------------------

/// A line of the log.
#[derive(Debug)]
pub struct LogLine {
    /// "status", "command", "response" or "error".
    pub kind: String,
    pub text: String,
}

/// What a [`LogLine`] says.
pub struct LineView {
    pub kind: Seq<char>,
    pub text: Seq<char>,
}

impl View for LogLine {
    type V = LineView;

    open spec fn view(&self) -> LineView {
        LineView { kind: self.kind@, text: self.text@ }
    }
}

/// A line that says how things stand.
pub open spec fn status_line(text: Seq<char>) -> LineView {
    LineView { kind: "status"@, text }
}

/// A line that says what went wrong.
pub open spec fn error_line(text: Seq<char>) -> LineView {
    LineView { kind: "error"@, text }
}

/// A line that says how things stand.
pub fn status(text: String) -> (r: LogLine)
    ensures
        r@ == status_line(text@),
{
    LogLine { kind: "status".to_owned(), text }
}

/// A line that says what went wrong.
pub fn error(text: String) -> (r: LogLine)
    ensures
        r@ == error_line(text@),
{
    LogLine { kind: "error".to_owned(), text }
}

/// What the log shows of a message that some part of the program wrote: only
/// what the FTP client writes, its commands apart from what the server answers.
pub open spec fn shown_line(target: Seq<char>, message: Seq<char>) -> Option<LineView> {
    if !begins_with(target, "suppaftp"@) {
        None
    } else if begins_with(message, "CMD "@) {
        Some(LineView { kind: "command"@, text: message.skip(4) })
    } else {
        Some(LineView { kind: "response"@, text: message })
    }
}

/// Whether what this part of the program writes goes to the log.
pub fn logs_target(target: &str) -> (r: bool)
    ensures
        r == begins_with(target@, "suppaftp"@),
{
    starts_with(target, "suppaftp")
}

/// What the log shows of a message.
pub fn log_line(target: &str, message: &str) -> (r: Option<LogLine>)
    ensures
        match shown_line(target@, message@) {
            Some(v) => r matches Some(l) && l@ == v,
            None => r is None,
        },
{
    if !logs_target(target) {
        return None;
    }
    if starts_with(message, "CMD ") {
        proof {
            reveal_strlit("CMD ");
        }
        let n: usize = message.unicode_len();
        let rest = message.substring_char(4, n);
        proof {
            assert(rest@ =~= message@.skip(4));
        }
        Some(LogLine { kind: "command".to_owned(), text: rest.to_owned() })
    } else {
        Some(LogLine { kind: "response".to_owned(), text: message.to_owned() })
    }
}

/// Every command of the FTP client is shown as a command, without the mark that
/// the client puts before it.
pub proof fn law_command_is_shown(target: Seq<char>, command: Seq<char>)
    requires
        begins_with(target, "suppaftp"@),
    ensures
        shown_line(target, "CMD "@ + command) == Some(
            LineView { kind: "command"@, text: command },
        ),
{
    reveal_strlit("CMD ");
    let message = "CMD "@ + command;
    assert(message.take(4) =~= "CMD "@);
    assert(message.skip(4) =~= command);
}

/// Nothing that the FTP client writes is lost: the line, with the mark of a
/// command before it where it is one, is the message.
pub proof fn law_nothing_lost(target: Seq<char>, message: Seq<char>)
    requires
        begins_with(target, "suppaftp"@),
    ensures
        shown_line(target, message) matches Some(l) && message == if l.kind == "command"@ {
            "CMD "@ + l.text
        } else {
            l.text
        },
{
    reveal_strlit("CMD ");
    reveal_strlit("command");
    reveal_strlit("response");
    assert("command"@ != "response"@) by {
        assert("command"@.len() == 7);
        assert("response"@.len() == 8);
    }
    if begins_with(message, "CMD "@) {
        assert(message =~= "CMD "@ + message.skip(4));
    }
}

// ---------------------------------------------------------------------------
// Progress
// ---------------------------------------------------------------------------

/// Which way a transfer goes.
#[derive(Debug, Clone, Copy, PartialEq, Eq, Structural)]
pub enum Direction {
    Download,
    Upload,
}

/// The name of a direction.
pub open spec fn direction_name(d: Direction) -> Seq<char> {
    match d {
        Direction::Download => "download"@,
        Direction::Upload => "upload"@,
    }
}

/// How far a transfer has come.
#[derive(Debug)]
pub struct TransferProgress {
    /// "download" or "upload".
    pub kind: String,
    /// "progress", "done" or "error".
    pub state: String,
    /// The file that is being transferred.
    pub name: String,
    pub transferred: u64,
    pub total: u64,
}

/// What a [`TransferProgress`] says.
pub struct ProgressView {
    pub kind: Seq<char>,
    pub state: Seq<char>,
    pub name: Seq<char>,
    pub transferred: u64,
    pub total: u64,
}

impl View for TransferProgress {
    type V = ProgressView;

    open spec fn view(&self) -> ProgressView {
        ProgressView {
            kind: self.kind@,
            state: self.state@,
            name: self.name@,
            transferred: self.transferred,
            total: self.total,
        }
    }
}

/// So many bytes of a file, of so many in all, were transferred.
pub open spec fn file_at(d: Direction, name: Seq<char>, transferred: u64, total: u64) -> ProgressView {
    ProgressView { kind: direction_name(d), state: "progress"@, name, transferred, total }
}

/// A report that is not about the bytes of a file.
pub open spec fn marked(d: Direction, state: Seq<char>, name: Seq<char>) -> ProgressView {
    ProgressView { kind: direction_name(d), state, name, transferred: 0, total: 0 }
}

/// A report about a transfer.
pub fn progress(d: Direction, state: &str, name: &str, transferred: u64, total: u64) -> (r:
    TransferProgress)
    ensures
        r@ == (ProgressView {
            kind: direction_name(d),
            state: state@,
            name: name@,
            transferred,
            total,
        }),
{
    TransferProgress {
        kind: match d {
            Direction::Download => "download".to_owned(),
            Direction::Upload => "upload".to_owned(),
        },
        state: state.to_owned(),
        name: name.to_owned(),
        transferred,
        total,
    }
}

/// What is reported around the transfer of a file: before it, that nothing has
/// been transferred; behind one that went well, that all of it has; behind one
/// that failed, nothing.
pub open spec fn reported(
    d: Direction,
    name: Seq<char>,
    size: u64,
    outcome: Option<Result<(), Seq<char>>>,
) -> Option<ProgressView> {
    match outcome {
        None => Some(file_at(d, name, 0, size)),
        Some(Ok(_)) => Some(file_at(d, name, size, size)),
        Some(Err(_)) => None,
    }
}

/// What is reported around the transfer of a file; it has no outcome before it
/// was tried.
pub fn file_report(
    d: Direction,
    name: &str,
    size: u64,
    outcome: &Option<Result<(), String>>,
) -> (r: Option<TransferProgress>)
    ensures
        match reported(
            d,
            name@,
            size,
            match *outcome {
                Some(o) => Some(outcome_view(o)),
                None => None,
            },
        ) {
            Some(v) => r matches Some(p) && p@ == v,
            None => r is None,
        },
{
    match outcome {
        None => Some(progress(d, "progress", name, 0, size)),
        Some(Ok(_)) => Some(progress(d, "progress", name, size, size)),
        Some(Err(_)) => None,
    }
}

/// What is reported before a file is transferred.
pub(crate) fn opening_report(d: Direction, name: &str, size: u64) -> (r: TransferProgress)
    ensures
        r@ == file_at(d, name@, 0, size),
{
    file_report(d, name, size, &None).unwrap()
}

/// What is reported behind a file that was transferred.
pub(crate) fn closing_report(d: Direction, name: &str, size: u64) -> (r: TransferProgress)
    ensures
        r@ == file_at(d, name@, size, size),
{
    file_report(d, name, size, &Some(Ok(()))).unwrap()
}

/// How long reports keep apart, in nanoseconds.
pub const REPORT_GAP: u128 = 80_000_000;

/// What is reported on the way, so many nanoseconds after the last report:
/// nothing where that was less than 80 ms ago.
pub fn file_advanced(d: Direction, name: &str, transferred: u64, size: u64, elapsed: u128) -> (r:
    Option<TransferProgress>)
    ensures
        r is Some <==> elapsed >= REPORT_GAP,
        r matches Some(p) ==> p@ == file_at(d, name@, transferred, size),
{
    if elapsed >= REPORT_GAP {
        Some(progress(d, "progress", name, transferred, size))
    } else {
        None
    }
}

/// What a line says is its text, and its kind is `status` or `error`.
pub proof fn law_lines(text: Seq<char>)
    ensures
        status_line(text) == (LineView { kind: "status"@, text }),
        error_line(text) == (LineView { kind: "error"@, text }),
{
}

/// Nothing but what the FTP client writes is shown; what does not bear the mark of
/// a command is shown whole, as a response.
pub proof fn law_responses_are_shown(target: Seq<char>, message: Seq<char>)
    ensures
        !begins_with(target, "suppaftp"@) ==> shown_line(target, message) is None,
        begins_with(target, "suppaftp"@) && !begins_with(message, "CMD "@) ==> shown_line(
            target,
            message,
        ) == Some(LineView { kind: "response"@, text: message }),
{
}

/// A report names its direction, the file and how much of how much there is. It is
/// made before a file, with nothing transferred, and behind one that went well,
/// with all of it; behind one that failed there is none.
pub proof fn law_reports_of_a_file(d: Direction, name: Seq<char>, n: u64, size: u64, e: Seq<char>)
    ensures
        direction_name(Direction::Download) == "download"@,
        direction_name(Direction::Upload) == "upload"@,
        ({
            let p = file_at(d, name, n, size);
            &&& p.kind == direction_name(d)
            &&& p.state == "progress"@
            &&& p.name == name
            &&& p.transferred == n
            &&& p.total == size
        }),
        reported(d, name, size, None) == Some(file_at(d, name, 0, size)),
        reported(d, name, size, Some(Ok(()))) == Some(file_at(d, name, size, size)),
        reported(d, name, size, Some(Err(e))) is None,
        REPORT_GAP == 80_000_000,
{
}

} // verus!
