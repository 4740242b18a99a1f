use vstd::prelude::*;

verus! {

/// How long the shutdown sequence waits after asking the helper to terminate,
/// so that it can flush and exit before the host does.
pub const SHUTDOWN_GRACE_MILLIS: u64 = 500;

/// Why the helper could not be started.
#[derive(Debug, PartialEq, Eq)]
pub enum SupervisorError {
    /// The executable could not be resolved or spawned; the cause as text.
    SpawnFailed(String),
}

/// The slot contents after a shutdown, and the handle taken out of it:
/// the slot is left empty and whatever it held is handed over.
pub open spec fn after_shutdown<H>(slot: Option<H>) -> (Option<H>, Option<H>) {
    (None, slot)
}

/// The single slot that holds the handle of the running helper.
pub struct ProcessSlot<H> {
    handle: Option<H>,
}

impl<H> View for ProcessSlot<H> {
    type V = Option<H>;

    closed spec fn view(&self) -> Option<H> {
        self.handle
    }
}

impl<H> ProcessSlot<H> {
    pub fn new() -> (r: ProcessSlot<H>)
        ensures
            r@ is None,
    {
        ProcessSlot { handle: None }
    }

    pub fn is_empty(&self) -> (r: bool)
        ensures
            r == self@ is None,
    {
        self.handle.is_none()
    }

    /// Records the outcome of spawning the helper. A spawned handle replaces
    /// whatever the slot held; a failure leaves the slot as it was and comes
    /// back as `SpawnFailed` with its cause.
    pub fn record_spawn(&mut self, spawned: Result<H, String>) -> (r: Result<(), SupervisorError>)
        ensures
            match spawned {
                Ok(h) => r is Ok && final(self)@ == Some(h),
                Err(cause) => r == Err::<(), SupervisorError>(SupervisorError::SpawnFailed(cause))
                    && final(self)@ == old(self)@,
            },
    {
        match spawned {
            Ok(h) => {
                self.handle = Some(h);
                Ok(())
            },
            Err(cause) => Err(SupervisorError::SpawnFailed(cause)),
        }
    }

    /// Takes the handle out for termination, leaving the slot empty for good;
    /// `None` where no helper was spawned or an earlier shutdown took it.
    pub fn take_for_shutdown(&mut self) -> (r: Option<H>)
        ensures
            (final(self)@, r) == after_shutdown(old(self)@),
    {
        self.handle.take()
    }
}

/// Shutting down twice is safe: the second shutdown finds the slot empty and
/// hands over nothing, so the helper is never asked to terminate twice.
pub proof fn lemma_second_shutdown_is_noop<H>(slot: Option<H>)
    ensures
        after_shutdown(after_shutdown(slot).0).1 is None,
        after_shutdown(after_shutdown(slot).0).0 is None,
{
}

/// Shutting down when no helper was ever spawned hands over nothing.
pub proof fn lemma_shutdown_without_spawn_is_noop<H>()
    ensures
        after_shutdown(None::<H>) == (None::<H>, None::<H>),
{
}

} // verus!
