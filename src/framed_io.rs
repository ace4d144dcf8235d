//! Decisions of a deadline-bounded `read_exact` / `write_all`: the caller
//! performs each wait, sleep and transfer and reports back what happened.
use vstd::prelude::*;

verus! {

/// First back-off sleep after a transfer would have blocked.
pub const INITIAL_BACKOFF_MS: u64 = 2;

/// What the last attempt observed.
#[derive(Debug, Clone, Copy, PartialEq, Eq, Structural)]
pub enum IoEvent {
    /// `n` bytes moved.
    Transferred(usize),
    /// The stream was ready but the transfer would have blocked.
    WouldBlock,
    /// The peer closed the stream.
    Closed,
    /// Waiting for readiness used up the time it was given.
    NotReady,
}

/// What to do next.
#[derive(Debug, Clone, Copy, PartialEq, Eq, Structural)]
pub enum IoAction {
    /// Wait at most this many milliseconds for readiness, then transfer.
    WaitReady(u64),
    /// Sleep this many milliseconds, then wait for readiness again.
    Sleep(u64),
    /// Every byte moved.
    Done,
    /// The deadline passed with bytes still to move.
    Timeout,
    /// The stream closed with bytes still to move.
    UnexpectedEof,
}

/// Progress of one transfer of `len` bytes within `deadline_ms`.
pub struct Transfer {
    len: usize,
    done: usize,
    delay_ms: u64,
    deadline_ms: u64,
}

/// The action for a transfer with `done` of `len` bytes moved, `elapsed`
/// milliseconds after it began.
pub open spec fn resume(len: nat, done: nat, elapsed: nat, deadline: nat) -> IoAction {
    if done >= len {
        IoAction::Done
    } else if elapsed >= deadline {
        IoAction::Timeout
    } else {
        IoAction::WaitReady((deadline - elapsed) as u64)
    }
}

/// Smaller of two numbers.
pub open spec fn min(a: nat, b: nat) -> nat {
    if a <= b {
        a
    } else {
        b
    }
}

/// An action that waits or sleeps ends by the deadline.
pub open spec fn within(a: IoAction, elapsed: nat, deadline: nat) -> bool {
    match a {
        IoAction::WaitReady(t) => elapsed + t <= deadline,
        IoAction::Sleep(t) => elapsed + t <= deadline,
        _ => true,
    }
}

impl Transfer {
    /// Bytes to move.
    pub closed spec fn spec_len(&self) -> nat {
        self.len as nat
    }

    /// Bytes moved so far.
    pub closed spec fn spec_done(&self) -> nat {
        self.done as nat
    }

    /// Next back-off sleep.
    pub closed spec fn spec_delay(&self) -> nat {
        self.delay_ms as nat
    }

    /// Time allowed for the whole transfer.
    pub closed spec fn spec_deadline(&self) -> nat {
        self.deadline_ms as nat
    }

    pub closed spec fn wf(&self) -> bool {
        self.done <= self.len
    }

    /// A transfer of `len` bytes that must end within `deadline_ms`.
    pub fn new(len: usize, deadline_ms: u64) -> (r: Self)
        ensures
            r.wf(),
            r.spec_len() == len,
            r.spec_done() == 0,
            r.spec_delay() == INITIAL_BACKOFF_MS,
            r.spec_deadline() == deadline_ms,
    {
        Transfer { len, done: 0, delay_ms: INITIAL_BACKOFF_MS, deadline_ms }
    }

    /// Bytes moved so far; the next transfer starts there.
    pub fn done(&self) -> (r: usize)
        ensures
            r == self.spec_done(),
    {
        self.done
    }

    /// The first action, `elapsed_ms` after the transfer began.
    pub fn start(&self, elapsed_ms: u64) -> (r: IoAction)
        requires
            self.wf(),
        ensures
            r == resume(self.spec_len(), self.spec_done(), elapsed_ms as nat, self.spec_deadline()),
            within(r, elapsed_ms as nat, self.spec_deadline()),
    {
        if self.done >= self.len {
            IoAction::Done
        } else if elapsed_ms >= self.deadline_ms {
            IoAction::Timeout
        } else {
            IoAction::WaitReady(self.deadline_ms - elapsed_ms)
        }
    }

    /// Fold in what the last attempt observed, `elapsed_ms` after the
    /// transfer began, and say what to do next. Moved bytes count towards the
    /// total (at most what remained). A blocked transfer sleeps for the present
    /// back-off, cut to the time left, and the back-off doubles up to the
    /// deadline. A close before the end is an unexpected end of stream.
    /// Readiness that never came, or no time left, is a timeout. No wait or
    /// sleep asked for ends after the deadline.
    pub fn on_event(&mut self, ev: IoEvent, elapsed_ms: u64) -> (r: IoAction)
        requires
            old(self).wf(),
        ensures
            final(self).wf(),
            final(self).spec_len() == old(self).spec_len(),
            final(self).spec_deadline() == old(self).spec_deadline(),
            within(r, elapsed_ms as nat, old(self).spec_deadline()),
            ev matches IoEvent::Transferred(n) ==> {
                &&& final(self).spec_done() == min(old(self).spec_done() + n as nat, old(self).spec_len())
                &&& final(self).spec_delay() == old(self).spec_delay()
                &&& r == resume(final(self).spec_len(), final(self).spec_done(), elapsed_ms as nat, final(self).spec_deadline())
            },
            ev == IoEvent::WouldBlock ==> {
                &&& final(self).spec_done() == old(self).spec_done()
                &&& elapsed_ms >= old(self).spec_deadline() ==> r == IoAction::Timeout
                &&& elapsed_ms < old(self).spec_deadline() ==> r == IoAction::Sleep(
                    min(old(self).spec_delay(), (old(self).spec_deadline() - elapsed_ms) as nat) as u64,
                )
                &&& final(self).spec_delay() == min(2 * old(self).spec_delay(), old(self).spec_deadline())
            },
            ev == IoEvent::Closed ==> {
                &&& final(self).spec_done() == old(self).spec_done()
                &&& final(self).spec_delay() == old(self).spec_delay()
                &&& r == (if old(self).spec_done() < old(self).spec_len() {
                    IoAction::UnexpectedEof
                } else {
                    IoAction::Done
                })
            },
            ev == IoEvent::NotReady ==> {
                &&& final(self).spec_done() == old(self).spec_done()
                &&& final(self).spec_delay() == old(self).spec_delay()
                &&& r == (if old(self).spec_done() < old(self).spec_len() {
                    IoAction::Timeout
                } else {
                    IoAction::Done
                })
            },
    {
        match ev {
            IoEvent::Transferred(n) => {
                let left = self.len - self.done;
                if n >= left {
                    self.done = self.len;
                } else {
                    self.done = self.done + n;
                }
                self.start(elapsed_ms)
            },
            IoEvent::WouldBlock => {
                let next = if self.delay_ms <= self.deadline_ms / 2 {
                    self.delay_ms * 2
                } else {
                    self.deadline_ms
                };
                let current = self.delay_ms;
                self.delay_ms = next;
                if elapsed_ms >= self.deadline_ms {
                    IoAction::Timeout
                } else {
                    let left = self.deadline_ms - elapsed_ms;
                    IoAction::Sleep(if current <= left { current } else { left })
                }
            },
            IoEvent::Closed => {
                if self.done < self.len {
                    IoAction::UnexpectedEof
                } else {
                    IoAction::Done
                }
            },
            IoEvent::NotReady => {
                if self.done < self.len {
                    IoAction::Timeout
                } else {
                    IoAction::Done
                }
            },
        }
    }
}

} // verus!
