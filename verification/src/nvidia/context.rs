//! The bookkeeping of one GPU context.
//!
//! A context is created floating: it belongs to no thread. A scoped call
//! pushes it onto the calling thread, runs, and pops it again; a floating
//! call hands the bare handle to code that takes one. Only one call can be
//! under way at a time. If a call ends in a fault the context is destroyed
//! before the fault travels on, and however a context ends, it is
//! destroyed once.
//!
//! The guard does not talk to the driver. It tells the caller what to do
//! to the native context, and the caller reports how that went.
use vstd::prelude::*;
use crate::nvidia::error::{check_cuda_status, cuda_outcome, NvidiaError, CUDA_SUCCESS};

verus! {

/// Where a context stands.
#[derive(Clone, Copy, Debug, PartialEq, Eq, Structural)]
pub enum ContextState {
    /// On no thread and in no call.
    Floating,
    /// A scoped call has begun; the push is under way.
    Entering,
    /// Pushed onto the calling thread, with a scoped call running.
    Active,
    /// The scoped call has returned; the pop is under way.
    Leaving,
    /// On no thread, with a floating call running on the bare handle.
    Lent,
    /// Destroyed. Nothing can be done with it any more.
    Destroyed,
}

/// How the code that ran inside a call ended.
#[derive(Clone, Copy, Debug, PartialEq, Eq, Structural)]
pub enum CallOutcome {
    /// It returned, with a value or with a failure of its own.
    Returned,
    /// It ended in a fault.
    Faulted,
}

/// What happens to a context.
#[derive(Clone, Copy, Debug, PartialEq, Eq, Structural)]
pub enum ContextEvent {
    /// A scoped call is asked for.
    EnterScoped,
    /// The push returned the given status.
    Pushed(u32),
    /// A floating call is asked for.
    EnterFloating,
    /// The code inside the call ended.
    Finished(CallOutcome),
    /// The pop returned the given status.
    Popped(u32),
    /// The owner lets go of the context.
    Release,
}

/// What the caller has to do next.
#[derive(Clone, Copy, Debug, PartialEq, Eq, Structural)]
pub enum ContextAction {
    /// Push the context onto this thread and report the status.
    Push,
    /// Run the code of the call, and report how it ended.
    Run,
    /// Pop the context off this thread and report the status.
    Pop,
    /// Destroy the native context. Where a fault is under way, let it
    /// travel on only after that.
    Destroy,
    /// The call is over; hand its result on.
    Done,
    /// The call is over because the driver returned the given status.
    Fail(u32),
    /// The event does not fit where the context stands. Nothing changed.
    Refuse,
}

/// Where a context stands after an event, and what the caller has to do.
pub open spec fn transition(state: ContextState, event: ContextEvent) -> (
    ContextState,
    ContextAction,
) {
    match (state, event) {
        (ContextState::Destroyed, _) => (ContextState::Destroyed, ContextAction::Refuse),
        (_, ContextEvent::Release) => (ContextState::Destroyed, ContextAction::Destroy),
        (ContextState::Floating, ContextEvent::EnterScoped) => (
            ContextState::Entering,
            ContextAction::Push,
        ),
        (ContextState::Entering, ContextEvent::Pushed(status)) => if status == CUDA_SUCCESS {
            (ContextState::Active, ContextAction::Run)
        } else {
            (ContextState::Floating, ContextAction::Fail(status))
        },
        (ContextState::Active, ContextEvent::Finished(CallOutcome::Returned)) => (
            ContextState::Leaving,
            ContextAction::Pop,
        ),
        (ContextState::Active, ContextEvent::Finished(CallOutcome::Faulted)) => (
            ContextState::Destroyed,
            ContextAction::Destroy,
        ),
        (ContextState::Leaving, ContextEvent::Popped(status)) => if status == CUDA_SUCCESS {
            (ContextState::Floating, ContextAction::Done)
        } else {
            (ContextState::Floating, ContextAction::Fail(status))
        },
        (ContextState::Floating, ContextEvent::EnterFloating) => (
            ContextState::Lent,
            ContextAction::Run,
        ),
        (ContextState::Lent, ContextEvent::Finished(CallOutcome::Returned)) => (
            ContextState::Floating,
            ContextAction::Done,
        ),
        (ContextState::Lent, ContextEvent::Finished(CallOutcome::Faulted)) => (
            ContextState::Destroyed,
            ContextAction::Destroy,
        ),
        _ => (state, ContextAction::Refuse),
    }
}

/// Where a context stands after the given events.
pub open spec fn state_after(state: ContextState, events: Seq<ContextEvent>) -> ContextState
    decreases events.len(),
{
    if events.len() == 0 {
        state
    } else {
        state_after(transition(state, events[0]).0, events.skip(1))
    }
}

/// How often the given events make the caller destroy the native context.
pub open spec fn destroy_count(state: ContextState, events: Seq<ContextEvent>) -> nat
    decreases events.len(),
{
    if events.len() == 0 {
        0
    } else {
        let (next, action) = transition(state, events[0]);
        destroy_count(next, events.skip(1)) + if action == ContextAction::Destroy {
            1nat
        } else {
            0nat
        }
    }
}

/// A native context is destroyed once and no more. Whatever happens to a
/// context, the caller is told to destroy it at most once, and exactly when
/// the context ends up destroyed; a context that is destroyed already is
/// never destroyed again. A context whose owner lets go of it has been
/// destroyed exactly once.
pub proof fn lemma_destroyed_once(state: ContextState, events: Seq<ContextEvent>)
    ensures
        destroy_count(state, events) <= 1,
        state == ContextState::Destroyed ==> destroy_count(state, events) == 0,
        state != ContextState::Destroyed ==> (destroy_count(state, events) == 1 <==> state_after(
            state,
            events,
        ) == ContextState::Destroyed),
        events.contains(ContextEvent::Release) ==> state_after(state, events)
            == ContextState::Destroyed,
    decreases events.len(),
{
    if events.len() > 0 {
        let next = transition(state, events[0]).0;
        let rest = events.skip(1);
        lemma_destroyed_once(next, rest);
        if events.contains(ContextEvent::Release) {
            let i = choose|i: int| 0 <= i < events.len() && events[i] == ContextEvent::Release;
            if i > 0 {
                assert(rest[i - 1] == events[i]);
            } else {
                lemma_stays_destroyed(rest);
            }
        }
        if next == ContextState::Destroyed {
            lemma_stays_destroyed(rest);
        }
    }
}

/// A destroyed context stays destroyed.
pub proof fn lemma_stays_destroyed(events: Seq<ContextEvent>)
    ensures
        state_after(ContextState::Destroyed, events) == ContextState::Destroyed,
    decreases events.len(),
{
    if events.len() > 0 {
        lemma_stays_destroyed(events.skip(1));
    }
}

/// A fault inside a call destroys the context at once: the next thing the
/// caller is told is to destroy it, and from then on nothing is done with
/// it. A call that returns leaves the context floating again, whether the
/// code inside succeeded or not.
pub proof fn lemma_fault_destroys(state: ContextState)
    requires
        state == ContextState::Active || state == ContextState::Lent,
    ensures
        transition(state, ContextEvent::Finished(CallOutcome::Faulted)) == (
            ContextState::Destroyed,
            ContextAction::Destroy,
        ),
        forall|event: ContextEvent|
            (#[trigger] transition(ContextState::Destroyed, event)).1 == ContextAction::Refuse,
        state == ContextState::Lent ==> transition(
            state,
            ContextEvent::Finished(CallOutcome::Returned),
        ).0 == ContextState::Floating,
        state == ContextState::Active ==> forall|status: u32|
            state_after(
                state,
                seq![ContextEvent::Finished(CallOutcome::Returned), ContextEvent::Popped(status)],
            ) == ContextState::Floating,
{
    assert forall|status: u32|
        state_after(
            ContextState::Active,
            seq![ContextEvent::Finished(CallOutcome::Returned), ContextEvent::Popped(status)],
        ) == ContextState::Floating by {
        let events = seq![
            ContextEvent::Finished(CallOutcome::Returned),
            ContextEvent::Popped(status),
        ];
        reveal_with_fuel(state_after, 3);
        assert(events.skip(1)[0] == ContextEvent::Popped(status));
        assert(events.skip(1).skip(1).len() == 0);
    }
}

/// One GPU context and where it stands.
#[derive(Debug, PartialEq, Eq)]
pub struct CudaContext {
    handle: usize,
    state: ContextState,
}

impl View for CudaContext {
    type V = (usize, ContextState);

    closed spec fn view(&self) -> (usize, ContextState) {
        (self.handle, self.state)
    }
}

/// What comes of creating a context: the driver's failure where the
/// creation or the pop that follows it failed, the creation being looked
/// at first.
pub open spec fn creation_outcome(create_status: u32, pop_status: u32) -> Result<(), NvidiaError> {
    if create_status != CUDA_SUCCESS {
        cuda_outcome(create_status)
    } else {
        cuda_outcome(pop_status)
    }
}

impl CudaContext {
    /// The guard of a context that was just created and popped off the
    /// creating thread, from the handle and the statuses of the two calls.
    /// The pop's status tells nothing where the creation failed.
    pub fn new(handle: usize, create_status: u32, pop_status: u32) -> (r: Result<
        CudaContext,
        NvidiaError,
    >)
        ensures
            match creation_outcome(create_status, pop_status) {
                Ok(_) => r is Ok && r.unwrap()@ == (handle, ContextState::Floating),
                Err(e) => r == Err::<CudaContext, NvidiaError>(e),
            },
    {
        match check_cuda_status(create_status) {
            Ok(_) => {},
            Err(e) => {
                return Err(e);
            },
        }
        match check_cuda_status(pop_status) {
            Ok(_) => {},
            Err(e) => {
                return Err(e);
            },
        }
        Ok(CudaContext { handle, state: ContextState::Floating })
    }

    /// The native handle.
    pub fn handle(&self) -> (r: usize)
        ensures
            r == self@.0,
    {
        self.handle
    }

    /// Where the context stands.
    pub fn state(&self) -> (r: ContextState)
        ensures
            r == self@.1,
    {
        self.state
    }

    /// Takes an event in and tells what the caller has to do.
    pub fn step(&mut self, event: ContextEvent) -> (r: ContextAction)
        ensures
            (final(self)@.1, r) == transition(old(self)@.1, event),
            final(self)@.0 == old(self)@.0,
    {
        let (next, action) = match (self.state, event) {
            (ContextState::Destroyed, _) => (ContextState::Destroyed, ContextAction::Refuse),
            (_, ContextEvent::Release) => (ContextState::Destroyed, ContextAction::Destroy),
            (ContextState::Floating, ContextEvent::EnterScoped) => (
                ContextState::Entering,
                ContextAction::Push,
            ),
            (ContextState::Entering, ContextEvent::Pushed(status)) => if status == CUDA_SUCCESS {
                (ContextState::Active, ContextAction::Run)
            } else {
                (ContextState::Floating, ContextAction::Fail(status))
            },
            (ContextState::Active, ContextEvent::Finished(CallOutcome::Returned)) => (
                ContextState::Leaving,
                ContextAction::Pop,
            ),
            (ContextState::Active, ContextEvent::Finished(CallOutcome::Faulted)) => (
                ContextState::Destroyed,
                ContextAction::Destroy,
            ),
            (ContextState::Leaving, ContextEvent::Popped(status)) => if status == CUDA_SUCCESS {
                (ContextState::Floating, ContextAction::Done)
            } else {
                (ContextState::Floating, ContextAction::Fail(status))
            },
            (ContextState::Floating, ContextEvent::EnterFloating) => (
                ContextState::Lent,
                ContextAction::Run,
            ),
            (ContextState::Lent, ContextEvent::Finished(CallOutcome::Returned)) => (
                ContextState::Floating,
                ContextAction::Done,
            ),
            (ContextState::Lent, ContextEvent::Finished(CallOutcome::Faulted)) => (
                ContextState::Destroyed,
                ContextAction::Destroy,
            ),
            (state, _) => (state, ContextAction::Refuse),
        };
        self.state = next;
        action
    }

    /// Begins a scoped call: the caller is to push the context.
    pub fn with_ctx(&mut self) -> (r: ContextAction)
        ensures
            (final(self)@.1, r) == transition(old(self)@.1, ContextEvent::EnterScoped),
            final(self)@.0 == old(self)@.0,
    {
        self.step(ContextEvent::EnterScoped)
    }

    /// Begins a floating call: the caller is to run the code on the bare
    /// handle, without pushing the context.
    pub fn with_floating_ctx(&mut self) -> (r: ContextAction)
        ensures
            (final(self)@.1, r) == transition(old(self)@.1, ContextEvent::EnterFloating),
            final(self)@.0 == old(self)@.0,
    {
        self.step(ContextEvent::EnterFloating)
    }

    /// Ends the context. The guard is used up; the caller is to destroy the
    /// native context unless it was destroyed before.
    pub fn destroy(self) -> (r: ContextAction)
        ensures
            r == transition(self@.1, ContextEvent::Release).1,
            r == if self@.1 == ContextState::Destroyed {
                ContextAction::Refuse
            } else {
                ContextAction::Destroy
            },
    {
        let mut context = self;
        context.step(ContextEvent::Release)
    }
}

} // verus!
