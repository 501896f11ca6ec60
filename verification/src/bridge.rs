//! Moving a terminal's bytes to the server and back.

use vstd::prelude::*;

verus! {

/// How many bytes are moved at a time, at most.
pub const CHUNK: usize = 8192;

/// What came of waiting, or of writing.
#[derive(Debug, Clone, Copy, PartialEq, Eq, Structural)]
pub enum Arrived {
    /// So many bytes came from the server; none where it has closed the channel.
    FromServer(usize),
    /// Nothing can be read from the server.
    ServerFailed,
    /// So many bytes came from the terminal; none where it is closed.
    FromTerminal(usize),
    /// Nothing can be read from the terminal.
    TerminalFailed,
    /// The terminal has so many columns and rows.
    Resized(u32, u32),
    /// The server was told the size, or could not be.
    SizeTold(bool),
    /// What came was written to the other side, or could not be.
    Written(bool),
}

/// What is to be done next.
#[derive(Debug, Clone, Copy, PartialEq, Eq, Structural)]
pub enum Next {
    /// The first so many bytes that came are to be written to the terminal.
    ToTerminal(usize),
    /// The first so many bytes that came are to be written to the server.
    ToServer(usize),
    /// The server is to be told the size.
    TellSize(u32, u32),
    /// More is to be waited for, from either side.
    Wait,
    /// It is over.
    Stop,
}

/// What is to be done next. It is over once a side is closed, or cannot be read or written; that
/// the server cannot be told the size is no reason.
pub open spec fn following(arrived: Arrived) -> Next {
    match arrived {
        Arrived::FromServer(n) => if n == 0 {
            Next::Stop
        } else {
            Next::ToTerminal(n)
        },
        Arrived::FromTerminal(n) => if n == 0 {
            Next::Stop
        } else {
            Next::ToServer(n)
        },
        Arrived::ServerFailed | Arrived::TerminalFailed => Next::Stop,
        Arrived::Resized(cols, rows) => Next::TellSize(cols, rows),
        Arrived::SizeTold(_) => Next::Wait,
        Arrived::Written(done) => if done {
            Next::Wait
        } else {
            Next::Stop
        },
    }
}

/// What is to be done next.
pub fn pump(arrived: Arrived) -> (r: Next)
    ensures
        r == following(arrived),
{
    match arrived {
        Arrived::FromServer(n) => if n == 0 {
            Next::Stop
        } else {
            Next::ToTerminal(n)
        },
        Arrived::FromTerminal(n) => if n == 0 {
            Next::Stop
        } else {
            Next::ToServer(n)
        },
        Arrived::ServerFailed | Arrived::TerminalFailed => Next::Stop,
        Arrived::Resized(cols, rows) => Next::TellSize(cols, rows),
        Arrived::SizeTold(_) => Next::Wait,
        Arrived::Written(done) => if done {
            Next::Wait
        } else {
            Next::Stop
        },
    }
}

/// What a terminal reports.
#[derive(Debug, Clone, Copy, PartialEq, Eq, Structural)]
pub enum TerminalCall {
    /// A selection is begun.
    SelectStart,
    /// A selection goes on.
    SelectUpdate,
    /// The mouse is reported to what runs in the terminal.
    MouseReport,
    /// The terminal is scrolled.
    Scroll,
    /// A link is pointed at or opened.
    ProcessLink,
    /// Something is typed.
    Write,
    /// Its size changes.
    Resize,
    /// What runs in the terminal put something out.
    Output,
}

/// Whether a report shows that the user is at the terminal. What runs in it may put something out
/// while the user is somewhere else.
pub open spec fn by_user(call: TerminalCall) -> bool {
    !(call is Resize) && !(call is Output)
}

/// Whether a report shows that the user is at the terminal.
pub fn is_user_interaction(call: TerminalCall) -> (r: bool)
    ensures
        r == by_user(call),
{
    match call {
        TerminalCall::SelectStart
        | TerminalCall::SelectUpdate
        | TerminalCall::MouseReport
        | TerminalCall::Scroll
        | TerminalCall::ProcessLink
        | TerminalCall::Write => true,
        TerminalCall::Resize | TerminalCall::Output => false,
    }
}

/// What comes from one side goes to the other, all of it, and never back to the side it came from.
pub proof fn law_bytes_go_to_the_other_side(arrived: Arrived, n: usize)
    ensures
        following(arrived) == Next::ToTerminal(n) <==> arrived == Arrived::FromServer(n) && n > 0,
        following(arrived) == Next::ToServer(n) <==> arrived == Arrived::FromTerminal(n) && n > 0,
{
}

/// The end of either side, a failure of either, and bytes that could not be written end it all;
/// nothing else does. A new size is told to the server as it is.
pub proof fn law_an_end_on_either_side_ends_all(arrived: Arrived)
    ensures
        following(arrived) == Next::Stop <==> arrived == Arrived::FromServer(0) || arrived
            == Arrived::FromTerminal(0) || arrived is ServerFailed || arrived is TerminalFailed
            || arrived == Arrived::Written(false),
        arrived matches Arrived::Resized(cols, rows) ==> following(arrived) == Next::TellSize(
            cols,
            rows,
        ),
        arrived is SizeTold || arrived == Arrived::Written(true) ==> following(arrived)
            == Next::Wait,
{
}

/// What the terminal does by itself is no sign of the user; all that is done to it is.
pub proof fn law_output_is_no_sign_of_the_user(call: TerminalCall)
    ensures
        by_user(call) <==> call is SelectStart || call is SelectUpdate || call is MouseReport
            || call is Scroll || call is ProcessLink || call is Write,
{
}

} // verus!
