//! How often progress is reported.

use vstd::prelude::*;

verus! {

/// The longest time between two reports of a transfer that moves, in nanoseconds.
pub const REPORT_INTERVAL_NS: u64 = 100_000_000;

/// The most bytes between two reports.
pub const REPORT_BYTES: u64 = 1_048_576;

/// What was last reported of a copy.
#[derive(Debug, Clone, Copy, PartialEq, Eq, Structural)]
pub struct Meter {
    /// Whether nothing was reported yet.
    pub first: bool,
    /// When the last report was made, in nanoseconds on a clock that only goes forward.
    pub last_report: u64,
    /// The bytes of the last report.
    pub reported: u64,
}

/// `a` less `b`, and nothing where `b` is more.
pub open spec fn less(a: u64, b: u64) -> int {
    if a >= b {
        a - b
    } else {
        0
    }
}

/// Whether a report is due: the first, the last, and in between after a while or after enough
/// bytes.
pub open spec fn due(m: Meter, now: u64, transferred: u64, total: u64) -> bool {
    m.first || transferred == total || less(now, m.last_report) >= REPORT_INTERVAL_NS || less(
        transferred,
        m.reported,
    ) >= REPORT_BYTES
}

impl Meter {
    /// A copy that begins now.
    pub fn new(now: u64) -> (r: Meter)
        ensures
            r == (Meter { first: true, last_report: now, reported: 0 }),
    {
        Meter { first: true, last_report: now, reported: 0 }
    }

    /// Says whether a report is due, and takes it as made. The end of a copy is always reported.
    pub fn report(&mut self, now: u64, transferred: u64, total: u64) -> (r: bool)
        ensures
            r == due(*old(self), now, transferred, total),
            r ==> *final(self) == (Meter {
                first: false,
                last_report: now,
                reported: transferred,
            }),
            !r ==> *final(self) == *old(self),
            transferred == total ==> r,
    {
        let waited: u64 = if now >= self.last_report {
            now - self.last_report
        } else {
            0
        };
        let moved: u64 = if transferred >= self.reported {
            transferred - self.reported
        } else {
            0
        };
        if self.first || transferred == total || waited >= REPORT_INTERVAL_NS || moved
            >= REPORT_BYTES {
            self.first = false;
            self.last_report = now;
            self.reported = transferred;
            true
        } else {
            false
        }
    }
}

/// Reports come often enough and no oftener: the first and the last are always made, and in between
/// one is made exactly when a tenth of a second has gone by since the last or a mebibyte was
/// copied.
pub proof fn law_reports_are_made_now_and_then(m: Meter, now: u64, transferred: u64, total: u64)
    requires
        m.last_report <= now,
        m.reported <= transferred,
    ensures
        m.first ==> due(m, now, transferred, total),
        transferred == total ==> due(m, now, transferred, total),
        !m.first && transferred != total ==> (due(m, now, transferred, total) <==> now
            - m.last_report >= 100_000_000 || transferred - m.reported >= 1_048_576),
{
}

} // verus!
