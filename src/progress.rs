//! Progress of a background job: a clamped fraction, a status message and a
//! bounded ring of log lines.
use vstd::prelude::*;
use crate::text::{push_char, push_str};

verus! {

/// Progress is kept in thousandths: 0 is nothing done, 1000 is complete.
pub const PROGRESS_SCALE: i64 = 1000;

/// How many log lines are kept; older ones are dropped first.
pub const MAX_LOGS: usize = 10;

pub struct ProgressBar {
    /// Fraction done, in thousandths, within `0..=1000`.
    pub progress: u32,
    pub message: String,
    pub logs: Vec<String>,
    pub max_logs: usize,
}

/// A fraction in thousandths, clamped to `0..=1000`.
pub open spec fn clamped(p: i64) -> u32 {
    if p < 0 {
        0
    } else if p > PROGRESS_SCALE {
        PROGRESS_SCALE as u32
    } else {
        p as u32
    }
}

/// The log ring after appending `entry`: the oldest entry goes once the ring
/// is over its bound.
pub open spec fn ring_push(logs: Seq<Seq<char>>, entry: Seq<char>, max: nat) -> Seq<Seq<char>> {
    let l = logs.push(entry);
    if l.len() > max {
        l.drop_first()
    } else {
        l
    }
}

/// A log entry: `[stamp] text`.
pub open spec fn log_entry(stamp: Seq<char>, text: Seq<char>) -> Seq<char> {
    seq!['['] + stamp + seq![']', ' '] + text
}

impl ProgressBar {
    pub open spec fn wf(&self) -> bool {
        &&& self.progress <= 1000
        &&& self.max_logs >= 1
        &&& self.logs@.len() <= self.max_logs
    }

    pub open spec fn logs_view(&self) -> Seq<Seq<char>> {
        self.logs@.map_values(|s: String| s@)
    }

    pub fn new() -> (r: ProgressBar)
        ensures
            r.wf(),
            r.progress == 0,
            r.message@ == Seq::<char>::empty(),
            r.logs@.len() == 0,
            r.max_logs == MAX_LOGS,
    {
        ProgressBar { progress: 0, message: String::new(), logs: Vec::new(), max_logs: MAX_LOGS }
    }

    /// Records progress, clamping whatever was sent into `0..=1000`.
    pub fn set_progress(&mut self, progress: i64)
        requires
            old(self).wf(),
        ensures
            final(self).wf(),
            final(self).progress == clamped(progress),
            final(self).message == old(self).message,
            final(self).logs == old(self).logs,
            final(self).max_logs == old(self).max_logs,
    {
        self.progress = if progress < 0 {
            0
        } else if progress > PROGRESS_SCALE {
            PROGRESS_SCALE as u32
        } else {
            progress as u32
        };
    }

    pub fn set_message(&mut self, message: String)
        requires
            old(self).wf(),
        ensures
            final(self).wf(),
            final(self).message == message,
            final(self).progress == old(self).progress,
            final(self).logs == old(self).logs,
            final(self).max_logs == old(self).max_logs,
    {
        self.message = message;
    }

    /// Appends a log line stamped with `stamp`, dropping the oldest line once
    /// the ring is full.
    pub fn add_log_at(&mut self, stamp: &str, log: &str)
        requires
            old(self).wf(),
        ensures
            final(self).wf(),
            final(self).logs_view() == ring_push(
                old(self).logs_view(),
                log_entry(stamp@, log@),
                old(self).max_logs as nat,
            ),
            final(self).progress == old(self).progress,
            final(self).message == old(self).message,
            final(self).max_logs == old(self).max_logs,
    {
        let mut entry = String::new();
        push_char(&mut entry, '[');
        push_str(&mut entry, stamp);
        push_char(&mut entry, ']');
        push_char(&mut entry, ' ');
        push_str(&mut entry, log);
        assert(entry@ =~= log_entry(stamp@, log@));
        let ghost before = self.logs_view();
        self.logs.push(entry);
        assert(self.logs_view() =~= before.push(entry@));
        if self.logs.len() > self.max_logs {
            let ghost pushed = self.logs_view();
            self.logs.remove(0);
            assert(self.logs_view() =~= pushed.drop_first());
        }
    }

    /// Clears progress, message and log.
    pub fn reset(&mut self)
        requires
            old(self).wf(),
        ensures
            final(self).wf(),
            final(self).progress == 0,
            final(self).message@ == Seq::<char>::empty(),
            final(self).logs@.len() == 0,
            final(self).max_logs == old(self).max_logs,
    {
        self.progress = 0;
        self.message = String::new();
        self.logs = Vec::new();
    }
}

} // verus!
