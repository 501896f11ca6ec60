//! The window: what is to be done before it closes.
//!
//! The size that it opens in again is the one it had when it was not maximized.

use vstd::prelude::*;

verus! {

/// What is known of the window.
#[derive(Debug, Clone, Copy, PartialEq, Eq, Structural)]
pub struct State {
    id: Option<u64>,
}

impl View for State {
    type V = Option<u64>;

    closed spec fn view(&self) -> Option<u64> {
        self.id
    }
}

/// What happened to the window.
#[derive(Debug, Clone, Copy, PartialEq, Eq, Structural)]
pub enum Message {
    /// It was opened.
    Opened(u64),
    /// The user wants to close it.
    CloseRequested(u64),
    /// It is maximized, or not, and is to be closed.
    MaximizedForClose(u64, bool),
    /// It has this width and height, and is to be closed: the bits of single-precision numbers.
    SizeForClose(u64, u32, u32),
}

/// What is to be done.
#[derive(Debug, Clone, Copy, PartialEq, Eq, Structural)]
pub enum Event {
    /// Whether it is maximized is to be found out.
    QueryMaximized(u64),
    /// Its size is to be found out.
    QuerySize(u64),
    /// It is to be closed.
    Close(u64),
    /// Its size is to be kept, and it is to be closed.
    PersistAndClose(u64, u32, u32),
}

/// What becomes of what is known, and what is to be done. `remember` is whether the size is to be
/// kept.
pub open spec fn step(id: Option<u64>, msg: Message, remember: bool) -> (
    Option<u64>,
    Option<Event>,
) {
    match msg {
        Message::Opened(w) => (Some(w), None),
        Message::CloseRequested(w) => (
            Some(w),
            Some(
                if remember {
                    Event::QueryMaximized(w)
                } else {
                    Event::Close(w)
                },
            ),
        ),
        Message::MaximizedForClose(w, maximized) => (
            id,
            Some(
                if maximized {
                    Event::Close(w)
                } else {
                    Event::QuerySize(w)
                },
            ),
        ),
        Message::SizeForClose(w, width, height) => (
            id,
            Some(Event::PersistAndClose(w, width, height)),
        ),
    }
}

impl Default for State {
    fn default() -> (r: State)
        ensures
            r@ is None,
    {
        State::new()
    }
}

impl State {
    /// Nothing is known of the window yet.
    pub fn new() -> (r: State)
        ensures
            r@ is None,
    {
        State { id: None }
    }

    /// The window.
    pub fn id(&self) -> (r: Option<u64>)
        ensures
            r == self@,
    {
        self.id
    }

    /// Something happened to the window; what is to be done is told.
    pub fn update(&mut self, msg: Message, remember_window_size: bool) -> (r: Option<Event>)
        ensures
            (final(self)@, r) == step(old(self)@, msg, remember_window_size),
    {
        match msg {
            Message::Opened(w) => {
                self.id = Some(w);
                None
            },
            Message::CloseRequested(w) => {
                self.id = Some(w);
                if remember_window_size {
                    Some(Event::QueryMaximized(w))
                } else {
                    Some(Event::Close(w))
                }
            },
            Message::MaximizedForClose(w, maximized) => if maximized {
                Some(Event::Close(w))
            } else {
                Some(Event::QuerySize(w))
            },
            Message::SizeForClose(w, width, height) => Some(
                Event::PersistAndClose(w, width, height),
            ),
        }
    }
}

/// The size of a maximized window is not kept: closing one goes on without its size being asked
/// for. However it goes, what is to be done next is about the window that is closing.
pub proof fn law_a_maximized_size_is_not_kept(id: Option<u64>, w: u64, remember: bool)
    ensures
        step(id, Message::MaximizedForClose(w, true), remember).1 == Some(Event::Close(w)),
        step(id, Message::MaximizedForClose(w, false), remember).1 == Some(Event::QuerySize(w)),
        step(id, Message::CloseRequested(w), false).1 == Some(Event::Close(w)),
        step(id, Message::CloseRequested(w), true).1 == Some(Event::QueryMaximized(w)),
{
}

/// The size that is kept is the one that the window had when it closed, and then it closes; the
/// window that is known is the one that was opened or is closing.
pub proof fn law_the_last_size_is_kept(id: Option<u64>, w: u64, width: u32, height: u32, remember: bool)
    ensures
        step(id, Message::SizeForClose(w, width, height), remember) == (
            id,
            Some(Event::PersistAndClose(w, width, height)),
        ),
        step(id, Message::Opened(w), remember) == (Some(w), None::<Event>),
        step(id, Message::CloseRequested(w), remember).0 == Some(w),
        step(id, Message::MaximizedForClose(w, true), remember).0 == id,
        step(id, Message::MaximizedForClose(w, false), remember).0 == id,
{
}

} // verus!
