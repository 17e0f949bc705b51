use vstd::prelude::*;

verus! {

/// The tracked child process, if any: at most one handle at a time.
///
/// `H` is whatever stands for a running process (an OS child handle, or a
/// fake one in tests). The supervisor never drops a handle it held: every
/// operation that clears or replaces the tracked handle hands the previous
/// one back to the caller, who terminates and reaps it.
pub struct Supervisor<H> {
    current: Option<H>,
}

impl<H> View for Supervisor<H> {
    type V = Option<H>;

    closed spec fn view(&self) -> Option<H> {
        self.current
    }
}

impl<H> Supervisor<H> {
    /// A supervisor that tracks nothing.
    pub fn new() -> (r: Supervisor<H>)
        ensures
            r@ is None,
    {
        Supervisor { current: None }
    }

    /// Whether a process is tracked.
    pub fn is_tracking(&self) -> (r: bool)
        ensures
            r == (self@ is Some),
    {
        self.current.is_some()
    }

    /// First half of a start: takes the handle that a previous start left,
    /// so that it is terminated and reaped before the new process is spawned.
    pub fn begin_start(&mut self) -> (r: Option<H>)
        ensures
            (r, final(self)@) == taken(old(self)@),
    {
        self.current.take()
    }

    /// Second half of a start: tracks the freshly spawned process. A handle
    /// that a concurrent start stored meanwhile is handed back, to be
    /// terminated like any replaced one (last writer wins).
    pub fn finish_start(&mut self, handle: H) -> (r: Option<H>)
        ensures
            (r, final(self)@) == stored(old(self)@, handle),
    {
        let previous = self.current.take();
        self.current = Some(handle);
        previous
    }

    /// Shutdown: takes the tracked handle, leaving nothing tracked. With
    /// nothing tracked this changes nothing and returns `None`.
    pub fn shutdown(&mut self) -> (r: Option<H>)
        ensures
            (r, final(self)@) == taken(old(self)@),
    {
        self.current.take()
    }
}

/// Taking the handle out: the handle handed back, and what stays tracked.
pub open spec fn taken<H>(before: Option<H>) -> (Option<H>, Option<H>) {
    (before, None)
}

/// Storing `handle`: the handle displaced, and what is tracked afterwards.
pub open spec fn stored<H>(before: Option<H>, handle: H) -> (Option<H>, Option<H>) {
    (before, Some(handle))
}

/// Two starts in succession leave exactly the second process tracked, and the
/// second start hands the first process back for termination: no handle is
/// left untracked and alive.
pub proof fn lemma_start_twice<H>(before: Option<H>, first: H, second: H)
    ensures
        ({
            let (term1, after_take1) = taken(before);
            let (displaced1, after1) = stored(after_take1, first);
            let (term2, after_take2) = taken(after1);
            let (displaced2, after2) = stored(after_take2, second);
            &&& term1 == before
            &&& displaced1 is None
            &&& term2 == Some(first)
            &&& displaced2 is None
            &&& after2 == Some(second)
        }),
{
}

/// Shutting down with nothing tracked hands nothing back and leaves nothing
/// tracked.
pub proof fn lemma_shutdown_idle<H>(s: Supervisor<H>)
    requires
        s@ is None,
    ensures
        taken(s@) == (None::<H>, None::<H>),
{
}

} // verus!
