//! The application log shown in the status bar: the most recent messages,
//! at most 500 of them.

use vstd::prelude::*;
use std::collections::VecDeque;

verus! {

/// How many messages the log keeps.
pub const LOG_CAPACITY: usize = 500;

/// The level a message is logged at.
#[derive(Debug, Clone, Copy, PartialEq, Eq, Structural)]
pub enum LogLevel {
    Trace,
    Debug,
    Info,
    Warn,
    Error,
}

/// Is a message of this level shown as an error: warnings and errors are.
pub fn counts_as_error(level: LogLevel) -> (b: bool)
    ensures
        b == (level == LogLevel::Warn || level == LogLevel::Error),
{
    match level {
        LogLevel::Warn | LogLevel::Error => true,
        _ => false,
    }
}

/// One logged message.
pub struct LogEntry {
    pub message: String,
    /// Was it logged at warning or error level?
    pub is_error: bool,
}

impl LogEntry {
    /// A copy of the entry.
    pub fn copy(&self) -> (r: LogEntry)
        ensures
            r.message@ == self.message@,
            r.is_error == self.is_error,
    {
        LogEntry { message: self.message.clone(), is_error: self.is_error }
    }
}

/// A bounded log of messages, oldest first.
pub struct AppLog {
    entries: VecDeque<LogEntry>,
}

/// A log after appending a message to `log`: the oldest message is dropped
/// once more than `LOG_CAPACITY` are held.
pub open spec fn pushed(log: Seq<(Seq<char>, bool)>, entry: (Seq<char>, bool)) -> Seq<(Seq<char>, bool)> {
    let all = log.push(entry);
    if all.len() > LOG_CAPACITY {
        all.drop_first()
    } else {
        all
    }
}

impl View for AppLog {
    type V = Seq<(Seq<char>, bool)>;

    closed spec fn view(&self) -> Seq<(Seq<char>, bool)> {
        self.entries@.map_values(|e: LogEntry| (e.message@, e.is_error))
    }
}

impl AppLog {
    #[verifier::type_invariant]
    spec fn within_capacity(self) -> bool {
        self.entries@.len() <= LOG_CAPACITY
    }

    /// An empty log.
    pub fn new() -> (log: Self)
        ensures
            log@ == Seq::<(Seq<char>, bool)>::empty(),
    {
        let log = AppLog { entries: VecDeque::new() };
        assert(log@ =~= Seq::<(Seq<char>, bool)>::empty());
        log
    }

    /// How many messages the log holds.
    pub fn len(&self) -> (n: usize)
        ensures
            n == self@.len(),
            n <= LOG_CAPACITY,
    {
        proof {
            use_type_invariant(self);
        }
        self.entries.len()
    }

    /// The most recent message, if any.
    pub fn last(&self) -> (r: Option<LogEntry>)
        ensures
            self@.len() == 0 ==> r is None,
            self@.len() > 0 ==> (r matches Some(e) && (e.message@, e.is_error) == self@.last()),
    {
        let n = self.entries.len();
        if n == 0 {
            None
        } else {
            Some(self.entries[n - 1].copy())
        }
    }

    /// Appends a message, dropping the oldest one when the log is full.
    pub fn push(&mut self, message: String, is_error: bool)
        ensures
            final(self)@ == pushed(old(self)@, (message@, is_error)),
            final(self)@.len() <= LOG_CAPACITY,
            final(self)@.last() == (message@, is_error),
    {
        proof {
            use_type_invariant(&*self);
        }
        let ghost before = self@;
        let mut q: VecDeque<LogEntry> = VecDeque::new();
        std::mem::swap(&mut q, &mut self.entries);
        let ghost old_q = q@;
        if q.len() >= LOG_CAPACITY {
            q.pop_front();
        }
        let entry = LogEntry { message, is_error };
        q.push_back(entry);
        self.entries = q;
        proof {
            let all = before.push((entry.message@, entry.is_error));
            if old_q.len() >= LOG_CAPACITY {
                assert(self@ =~= all.drop_first());
            } else {
                assert(self@ =~= all);
            }
        }
    }
}

} // verus!
