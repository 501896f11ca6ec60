//! How long a connection may take to open.
//!
//! While the user is asked about the host's key the time does not count: once there is an answer
//! it starts anew.

use crate::i18n::{Text, TextView, Wording};
use crate::i18n;
use vstd::prelude::*;

verus! {

/// How long a connection may still take.
#[derive(Debug, Clone, Copy, PartialEq, Eq, Structural)]
pub struct Deadline {
    /// The seconds it may take in all; 0 is without a bound.
    pub timeout: u64,
    /// Until when it may take, in milliseconds.
    pub until: Option<u64>,
    /// Whether the user is being asked.
    pub asking: bool,
}

/// Until when a connection may take that may take so many seconds from now on.
pub open spec fn until(timeout: u64, now: u64) -> Option<u64> {
    if timeout == 0 {
        None
    } else if now + timeout * 1000 <= u64::MAX {
        Some((now + timeout * 1000) as u64)
    } else {
        Some(u64::MAX)
    }
}

/// Until when a connection may take that may take so many seconds from now on.
pub fn connect_deadline(timeout: u64, now: u64) -> (r: Option<u64>)
    ensures
        r == until(timeout, now),
{
    if timeout == 0 {
        return None;
    }
    if timeout > u64::MAX / 1000 {
        return Some(u64::MAX);
    }
    let span: u64 = timeout * 1000;
    if now > u64::MAX - span {
        Some(u64::MAX)
    } else {
        Some(now + span)
    }
}

/// Whether the time is over.
pub open spec fn over(d: Deadline, now: u64) -> bool {
    !d.asking && match d.until {
        Some(t) => now >= t,
        None => false,
    }
}

impl Deadline {
    /// The time starts.
    pub fn new(timeout: u64, now: u64) -> (r: Deadline)
        ensures
            r == (Deadline { timeout, until: until(timeout, now), asking: false }),
    {
        Deadline { timeout, until: connect_deadline(timeout, now), asking: false }
    }

    /// The user is asked.
    pub fn ask(&mut self)
        ensures
            *final(self) == (Deadline { asking: true, ..*old(self) }),
    {
        self.asking = true;
    }

    /// The user answered: the time starts anew.
    pub fn answered(&mut self, now: u64)
        ensures
            *final(self) == (Deadline {
                until: until(old(self).timeout, now),
                asking: false,
                ..*old(self)
            }),
    {
        self.until = connect_deadline(self.timeout, now);
        self.asking = false;
    }

    /// Whether the time is over.
    pub fn is_over(&self, now: u64) -> (r: bool)
        ensures
            r == over(*self, now),
    {
        if self.asking {
            return false;
        }
        match self.until {
            Some(t) => now >= t,
            None => false,
        }
    }
}

/// How opening a connection ended.
pub enum Ended {
    /// It came to an end: the handle of the connection, or why there is none.
    Finished(Result<u64, Wording>),
    /// What was to open it broke off, with words on why.
    Broken(String),
    /// The time was over.
    TimedOut,
}

/// What is told of the end: the handle of the connection, or why there is none.
pub open spec fn outcome_of(e: Ended) -> Result<u64, TextView> {
    match e {
        Ended::Finished(Ok(conn)) => Ok(conn),
        Ended::Finished(Err(w)) => Err(i18n::plain(w@)),
        Ended::Broken(words) => Err(i18n::plain(i18n::entry_with("app.connect_task_error"@, words@))),
        Ended::TimedOut => Err(i18n::plain(i18n::entry("app.connect_timeout"@))),
    }
}

/// What is told of the end.
pub fn outcome(e: Ended) -> (r: Result<u64, Text>)
    ensures
        match r {
            Ok(conn) => outcome_of(e) == Ok::<u64, TextView>(conn),
            Err(t) => outcome_of(e) == Err::<u64, TextView>(t@),
        },
{
    match e {
        Ended::Finished(Ok(conn)) => Ok(conn),
        Ended::Finished(Err(w)) => Err(Text { prefix: None, body: w }),
        Ended::Broken(words) => Err(Text::entry_with("app.connect_task_error", words)),
        Ended::TimedOut => Err(Text::entry("app.connect_timeout")),
    }
}

/// The time that the user takes to answer does not count: while the user is asked the time is not
/// over, and after the answer it is the whole time again.
pub proof fn law_waiting_for_the_user_takes_no_time(d: Deadline, asked: u64, now: u64)
    ensures
        !over(Deadline { asking: true, ..d }, now),
        d.timeout > 0 && asked + d.timeout * 1000 <= u64::MAX ==> (over(
            Deadline { until: until(d.timeout, asked), asking: false, ..d },
            now,
        ) <==> now >= asked + d.timeout * 1000),
{
}

/// Without a bound the time is never over.
pub proof fn law_no_bound_is_never_over(start: u64, now: u64)
    ensures
        !over(Deadline { timeout: 0, until: until(0, start), asking: false }, now),
{
}

/// A connection that may take some seconds is given up no sooner and no later.
pub proof fn law_the_time_is_the_one_that_is_set(timeout: u64, start: u64, now: u64)
    requires
        timeout > 0,
        start + timeout * 1000 <= u64::MAX,
    ensures
        over(Deadline { timeout, until: until(timeout, start), asking: false }, now) <==> now - start
            >= 1000 * timeout,
{
}

/// A connection that was opened is told by its handle, and what kept it from being opened is told as
/// such: the words of the failure, that what was to open it broke off, or that the time was over.
pub proof fn law_the_end_is_told_as_it_was(e: Ended)
    ensures
        match e {
            Ended::Finished(Ok(conn)) => outcome_of(e) == Ok::<u64, TextView>(conn),
            Ended::Finished(Err(w)) => outcome_of(e) == Err::<u64, TextView>(
                TextView { prefix: None, body: w@ },
            ),
            Ended::Broken(words) => outcome_of(e) == Err::<u64, TextView>(
                i18n::plain(i18n::entry_with("app.connect_task_error"@, words@)),
            ),
            Ended::TimedOut => outcome_of(e) == Err::<u64, TextView>(
                i18n::plain(i18n::entry("app.connect_timeout"@)),
            ),
        },
{
}

} // verus!
