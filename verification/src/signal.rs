use vstd::prelude::*;

verus! {

/// Number of signal numbers the table knows (`0..MAX_SIGNALS`).
pub const MAX_SIGNALS: usize = 32;

/// A table of signal handlers and of signals scheduled for later delivery.
///
/// `H` is the handler type; the kernel uses plain function pointers. The table
/// never runs a handler itself: it hands out the handlers to run, and the caller
/// runs them (after releasing whatever lock guards the table).
pub struct SignalTable<H> {
    handlers: [Option<H>; MAX_SIGNALS],
    pending: [bool; MAX_SIGNALS],
}

/// No signal pending.
pub open spec fn none_pending() -> Seq<bool> {
    Seq::new(MAX_SIGNALS as nat, |i: int| false)
}

/// What delivering the pending signals hands out: for each signal number, its
/// handler when the signal is pending, `None` otherwise.
pub open spec fn delivered<H>(pending: Seq<bool>, handlers: Seq<Option<H>>) -> Seq<Option<H>> {
    Seq::new(MAX_SIGNALS as nat, |i: int| if pending[i] { handlers[i] } else { None })
}

impl<H: Copy> SignalTable<H> {
    /// The handler registered for each signal number, indexed `0..MAX_SIGNALS`.
    pub closed spec fn handlers(&self) -> Seq<Option<H>> {
        self.handlers@
    }

    /// Whether each signal number is scheduled and not yet delivered.
    pub closed spec fn pending(&self) -> Seq<bool> {
        self.pending@
    }

    /// Every table has one handler slot and one pending mark per signal number.
    pub proof fn lemma_lengths(&self)
        ensures
            self.handlers().len() == MAX_SIGNALS,
            self.pending().len() == MAX_SIGNALS,
    {
    }

    /// An empty table: no handler registered, nothing pending.
    pub fn new() -> (t: Self)
        ensures
            t.handlers() == Seq::new(MAX_SIGNALS as nat, |i: int| None::<H>),
            t.pending() == none_pending(),
    {
        let t = SignalTable { handlers: [None; MAX_SIGNALS], pending: [false; MAX_SIGNALS] };
        proof {
            assert(t.handlers() =~= Seq::new(MAX_SIGNALS as nat, |i: int| None::<H>));
            assert(t.pending() =~= none_pending());
        }
        t
    }

    /// Registers `handler` for signal `sig`, replacing any earlier one;
    /// a signal number outside the table is ignored.
    pub fn register(&mut self, sig: usize, handler: H)
        ensures
            old(self).handlers().len() == MAX_SIGNALS,
            final(self).handlers().len() == MAX_SIGNALS,
            final(self).pending() == old(self).pending(),
            sig < MAX_SIGNALS ==> final(self).handlers() == old(self).handlers().update(sig as int, Some(handler)),
            sig >= MAX_SIGNALS ==> final(self).handlers() == old(self).handlers(),
    {
        if sig < MAX_SIGNALS {
            self.handlers[sig] = Some(handler);
        }
    }

    /// Raising a signal runs its handler at once: this returns the handler to run,
    /// `None` when the number is outside the table or nothing is registered for it.
    pub fn raise(&self, sig: usize) -> (h: Option<H>)
        ensures
            self.handlers().len() == MAX_SIGNALS,
            h == (if sig < MAX_SIGNALS { self.handlers()[sig as int] } else { None }),
    {
        if sig < MAX_SIGNALS {
            self.handlers[sig]
        } else {
            None
        }
    }

    /// Marks signal `sig` pending for later delivery; a number outside the table is ignored.
    pub fn schedule(&mut self, sig: usize)
        ensures
            old(self).pending().len() == MAX_SIGNALS,
            final(self).pending().len() == MAX_SIGNALS,
            final(self).handlers() == old(self).handlers(),
            sig < MAX_SIGNALS ==> final(self).pending() == old(self).pending().update(sig as int, true),
            sig >= MAX_SIGNALS ==> final(self).pending() == old(self).pending(),
    {
        if sig < MAX_SIGNALS {
            self.pending[sig] = true;
        }
    }

    /// Delivers every pending signal: clears all pending marks and returns, per signal
    /// number, the handler to run (`None` where the signal was not pending).
    pub fn take_pending(&mut self) -> (to_run: [Option<H>; MAX_SIGNALS])
        ensures
            final(self).handlers() == old(self).handlers(),
            final(self).pending() == none_pending(),
            to_run@ == delivered(old(self).pending(), old(self).handlers()),
    {
        let mut to_run: [Option<H>; MAX_SIGNALS] = [None; MAX_SIGNALS];
        for sig in 0..MAX_SIGNALS
            invariant
                self.handlers() == old(self).handlers(),
                forall|i: int| 0 <= i < sig ==> !self.pending()[i],
                forall|i: int| sig <= i < MAX_SIGNALS ==> self.pending()[i] == old(self).pending()[i],
                forall|i: int| 0 <= i < sig ==> to_run@[i] == (if old(self).pending()[i] {
                    old(self).handlers()[i]
                } else {
                    None
                }),
                forall|i: int| sig <= i < MAX_SIGNALS ==> to_run@[i] == None::<H>,
        {
            let ghost before = self.pending();
            if self.pending[sig] {
                self.pending[sig] = false;
                assert(self.pending() == before.update(sig as int, false));
                to_run[sig] = self.handlers[sig];
            }
        }
        proof {
            assert(self.pending() =~= none_pending());
            assert(to_run@ =~= delivered(old(self).pending(), old(self).handlers()));
        }
        to_run
    }
}

/// A signal scheduled after its handler was registered is delivered to that handler
/// by the next delivery, whatever else is pending.
pub proof fn law_scheduled_signal_is_delivered<H>(
    pending: Seq<bool>,
    handlers: Seq<Option<H>>,
    sig: int,
    handler: H,
)
    requires
        0 <= sig < MAX_SIGNALS,
        pending.len() == MAX_SIGNALS,
        handlers.len() == MAX_SIGNALS,
    ensures
        delivered(pending.update(sig, true), handlers.update(sig, Some(handler)))[sig] == Some(handler),
{
}

/// A delivery right after another one hands out nothing: every signal runs once
/// per scheduling.
pub proof fn law_delivery_runs_once<H>(handlers: Seq<Option<H>>)
    ensures
        forall|i: int| 0 <= i < MAX_SIGNALS ==> #[trigger] delivered(none_pending(), handlers)[i] == None::<H>,
{
}

/// A signal that is not pending is never handed out, even if it has a handler.
pub proof fn law_only_pending_signals_run<H>(pending: Seq<bool>, handlers: Seq<Option<H>>, sig: int)
    requires
        0 <= sig < MAX_SIGNALS,
        !pending[sig],
    ensures
        delivered(pending, handlers)[sig] == None::<H>,
{
}

} // verus!
