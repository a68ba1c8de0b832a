//! The lifecycle guard: the one workspace pending cleanup, and the take by
//! which either the normal path or the interrupt path, never both, gets to
//! remove it.
//!
//! The guard itself is a plain value; callers that share it between the main
//! sequence and the signal task hold it behind a single mutual-exclusion lock
//! and only ever take from it under that lock.

use vstd::prelude::*;

verus! {

/// The state of the guard: the path pending cleanup, if any.
pub type GuardState = Option<Seq<char>>;

/// The state after arming with `path`: a guard that is already armed keeps
/// its path.
pub open spec fn armed_with(s: GuardState, path: Seq<char>) -> GuardState {
    if s is None {
        Some(path)
    } else {
        s
    }
}

/// What a take hands out: the pending path, if any.
pub open spec fn taken_from(s: GuardState) -> GuardState {
    s
}

/// The state after a take: nothing pending.
pub open spec fn after_take(s: GuardState) -> GuardState {
    None
}

/// Holds at most one workspace path pending cleanup.
pub struct LifecycleGuard {
    pending: Option<String>,
}

impl View for LifecycleGuard {
    type V = GuardState;

    closed spec fn view(&self) -> GuardState {
        match self.pending {
            Some(p) => Some(p@),
            None => None,
        }
    }
}

impl LifecycleGuard {
    /// A guard with nothing pending.
    pub fn new() -> (g: LifecycleGuard)
        ensures
            g@ is None,
    {
        LifecycleGuard { pending: None }
    }

    /// Registers `path` as pending cleanup. Returns false, and changes
    /// nothing, when a path is already pending.
    pub fn arm(&mut self, path: String) -> (r: bool)
        ensures
            r == (old(self)@ is None),
            final(self)@ == armed_with(old(self)@, path@),
    {
        if self.pending.is_some() {
            false
        } else {
            self.pending = Some(path);
            true
        }
    }

    /// Clears the guard and hands out what was pending: whoever receives
    /// `Some` owns the removal of that path.
    pub fn disarm_and_take(&mut self) -> (r: Option<String>)
        ensures
            (match r {
                Some(p) => Some(p@),
                None => None,
            }) == taken_from(old(self)@),
            final(self)@ == after_take(old(self)@),
    {
        let r = self.pending.take();
        r
    }
}

/// What the main sequence does with the workspace once staging and the
/// command are over, whether they succeeded or not.
#[derive(Debug, PartialEq, Eq)]
pub enum FinishAction {
    /// Remove this path: the take handed it to the main sequence.
    Remove(String),
    /// Leave the workspace in place, as the caller asked.
    Preserve,
    /// Nothing to do: the interrupt path took the workspace first.
    Nothing,
}

/// Starts guarding `workspace` unless it is to be kept. Returns whether a
/// signal watcher is needed, which is exactly when the workspace was armed.
pub fn start_session(guard: &mut LifecycleGuard, workspace: String, keep: bool) -> (watch: bool)
    ensures
        watch == !keep,
        keep ==> final(guard)@ == old(guard)@,
        !keep ==> final(guard)@ == armed_with(old(guard)@, workspace@),
{
    if !keep {
        guard.arm(workspace);
    }
    !keep
}

/// Ends the main sequence: takes from the guard, and removes the workspace
/// only if the take handed it out. A kept workspace is preserved.
pub fn finish_session(guard: &mut LifecycleGuard, keep: bool) -> (r: FinishAction)
    ensures
        final(guard)@ is None,
        match r {
            FinishAction::Remove(p) => !keep && old(guard)@ == Some(p@),
            FinishAction::Preserve => keep,
            FinishAction::Nothing => !keep && old(guard)@ is None,
        },
{
    let taken = guard.disarm_and_take();
    if keep {
        FinishAction::Preserve
    } else {
        match taken {
            Some(p) => FinishAction::Remove(p),
            None => FinishAction::Nothing,
        }
    }
}

/// Of two successive takes from one guard, whichever path runs first, at most
/// one hands out a path to remove, and the guard is empty after either.
pub proof fn law_cleanup_at_most_once(s: GuardState)
    ensures
        !(taken_from(s) is Some && taken_from(after_take(s)) is Some),
        after_take(s) is None,
        after_take(after_take(s)) is None,
{
}

/// Once a path is armed in an empty guard, the first take hands out exactly
/// that path, and a second arming before the take does not displace it.
pub proof fn law_first_take_gets_armed_path(path: Seq<char>, other: Seq<char>)
    ensures
        taken_from(armed_with(None, path)) == Some(path),
        armed_with(armed_with(None, path), other) == Some(path),
{
}

/// The two ways in which the process is asked to stop.
#[derive(Clone, Copy, Debug, PartialEq, Eq, Structural)]
pub enum StopSignal {
    Interrupt,
    Terminate,
}

impl StopSignal {
    /// The POSIX signal number: 2 for an interrupt, 15 for a termination.
    pub fn signal_number(&self) -> (r: i32)
        ensures
            r == (match self {
                StopSignal::Interrupt => 2i32,
                StopSignal::Terminate => 15i32,
            }),
    {
        match self {
            StopSignal::Interrupt => 2,
            StopSignal::Terminate => 15,
        }
    }

    /// The exit status after an emergency cleanup: 128 plus the signal number.
    pub fn exit_code(&self) -> (r: i32)
        ensures
            r == 128 + (match self {
                StopSignal::Interrupt => 2i32,
                StopSignal::Terminate => 15i32,
            }),
    {
        128 + self.signal_number()
    }
}

} // verus!
