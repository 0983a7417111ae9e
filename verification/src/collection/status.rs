//! The decisions of the collection thread on termination: a termination
//! signal that arrives while a tick is being collected is handled by the
//! collecting side at the end of that tick; one that arrives between ticks
//! is handled right away

use vstd::prelude::*;

verus! {

/// Synchronization status used to handle termination and buffer flushing
#[derive(Clone, Copy, Debug, PartialEq, Eq, Structural)]
pub struct CollectStatus {
    pub terminating: bool,
    pub collecting: bool,
}

/// What the termination handler does with a termination signal
#[derive(Clone, Copy, Debug, PartialEq, Eq, Structural)]
pub enum TermAction {
    /// Leave flushing to the collecting side, at the end of the current tick
    FlushAtEndOfTick,
    /// Flush the buffers and stop the timer now
    FlushNow,
}

/// The status after a termination signal, and what the handler does: while
/// collecting, the status becomes terminating and the flush is left to the
/// end of the tick; otherwise the buffers are flushed right away
pub open spec fn after_term(s: CollectStatus) -> (CollectStatus, TermAction) {
    if s.collecting {
        (CollectStatus { terminating: true, collecting: s.collecting }, TermAction::FlushAtEndOfTick)
    } else {
        (s, TermAction::FlushNow)
    }
}

/// The status at the start of a tick, and whether to collect in it: while
/// terminating the tick is skipped; otherwise the status becomes collecting
pub open spec fn after_begin(s: CollectStatus) -> (CollectStatus, bool) {
    if s.terminating {
        (s, false)
    } else {
        (CollectStatus { terminating: s.terminating, collecting: true }, true)
    }
}

/// The status at the end of a collected tick, and whether to flush and stop:
/// while terminating the collecting side flushes (staying collecting, so that
/// the handler does not flush again); otherwise the status stops collecting
pub open spec fn after_end(s: CollectStatus) -> (CollectStatus, bool) {
    if s.terminating {
        (s, true)
    } else {
        (CollectStatus { terminating: s.terminating, collecting: false }, false)
    }
}

impl CollectStatus {
    /// Neither terminating nor collecting
    pub fn new() -> (r: Self)
        ensures
            !r.terminating && !r.collecting,
    {
        CollectStatus { terminating: false, collecting: false }
    }

    /// A termination signal arrived
    pub fn on_term(&mut self) -> (r: TermAction)
        ensures
            (*final(self), r) == after_term(*old(self)),
    {
        if self.collecting {
            self.terminating = true;
            TermAction::FlushAtEndOfTick
        } else {
            TermAction::FlushNow
        }
    }

    /// A timer tick arrived: whether to collect in it
    pub fn begin_tick(&mut self) -> (r: bool)
        ensures
            (*final(self), r) == after_begin(*old(self)),
    {
        if self.terminating {
            false
        } else {
            self.collecting = true;
            true
        }
    }

    /// Collection of a tick finished: whether to flush the buffers and stop
    pub fn end_tick(&mut self) -> (r: bool)
        ensures
            (*final(self), r) == after_end(*old(self)),
    {
        if self.terminating {
            true
        } else {
            self.collecting = false;
            false
        }
    }
}

/// A termination signal that arrives during a collected tick is handled by
/// the collecting side: the handler defers, and the end of that tick flushes
pub proof fn law_term_during_tick_flushes_at_end(s: CollectStatus)
    requires
        !s.terminating,
    ensures
        after_term(after_begin(s).0).1 == TermAction::FlushAtEndOfTick,
        after_end(after_term(after_begin(s).0).0).1,
{
}

/// A termination signal between ticks is flushed by the handler right away
pub proof fn law_term_between_ticks_flushes_now(s: CollectStatus)
    requires
        !s.terminating,
    ensures
        after_term(after_end(after_begin(s).0).0).1 == TermAction::FlushNow,
{
}

/// Once terminating, no tick is collected any more, and the status stays
/// terminating
pub proof fn law_terminating_skips_ticks(s: CollectStatus)
    requires
        s.terminating,
    ensures
        !after_begin(s).1,
        after_begin(s).0.terminating,
        after_term(s).0.terminating,
        after_end(s).0.terminating,
{
}

/// The buffers are flushed exactly once per termination: when the handler
/// defers the flush, a second signal is deferred again (it never flushes
/// while the collecting side is to do so)
pub proof fn law_deferred_flush_not_repeated(s: CollectStatus)
    requires
        s.collecting,
    ensures
        after_term(after_term(s).0).1 == TermAction::FlushAtEndOfTick,
{
}

} // verus!
