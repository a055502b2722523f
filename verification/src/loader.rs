//! The state of a value loaded in the background: pending, ready, or failed.
//!
//! The UI runs the load (a future) and hands its outcome back; this module decides what
//! the loader holds and what the component shows.

use vstd::prelude::*;

verus! {

/// Where a load stands.
#[derive(Debug, Clone, Copy, PartialEq, Eq, Structural)]
pub enum LoaderState {
    Pending,
    Ready,
    Failed,
}

/// Why a component cannot show the loaded value yet.
#[derive(Debug, Clone, Copy, PartialEq, Eq, Structural)]
pub enum Loading {
    /// The load is still running: the component suspends.
    Pending,
    /// The load failed: the error goes up the tree.
    Failed,
}

/// What a web client finds for a load in the data the server rendered with the page.
pub enum CachedEntry<T, E> {
    /// Not the first run: nothing to look up.
    NotFirstRun,
    /// The server finished the load.
    Resolved(Result<T, E>),
    /// The server had not finished the load.
    DataPending,
    /// The server had no data for the load.
    Unavailable,
}

/// What a web client does on a run of the load.
pub enum FirstRunStep<T, E> {
    /// Take the server's outcome.
    Settle(Result<T, E>),
    /// Wait for the server's outcome, never running the load on the client.
    WaitForServer,
    /// Run the load.
    RunLoad,
}

/// The cached server data decides the step: a finished load is taken as it is, a
/// pending one is waited for, and without data the load runs.
pub fn first_run_step<T, E>(cached: CachedEntry<T, E>) -> (s: FirstRunStep<T, E>)
    ensures
        cached matches CachedEntry::Resolved(out) ==> s == FirstRunStep::Settle(out),
        cached is DataPending ==> s is WaitForServer,
        cached is NotFirstRun || cached is Unavailable ==> s is RunLoad,
{
    match cached {
        CachedEntry::Resolved(out) => FirstRunStep::Settle(out),
        CachedEntry::DataPending => FirstRunStep::WaitForServer,
        CachedEntry::NotFirstRun => FirstRunStep::RunLoad,
        CachedEntry::Unavailable => FirstRunStep::RunLoad,
    }
}

/// The loaded value, the last error, the state of a background load, and whether a run
/// of the load is under way.
pub struct LoaderStore<T, E> {
    pub value: Option<T>,
    pub error: Option<E>,
    pub state: LoaderState,
    pub running: bool,
}

impl<T, E> LoaderStore<T, E> {
    /// A ready loader holds a value, and a failed one holds an error.
    pub open spec fn wf(&self) -> bool {
        &&& self.state == LoaderState::Ready ==> self.value is Some
        &&& self.state == LoaderState::Failed ==> self.error is Some
    }

    /// A load that has started and not finished yet.
    pub fn new() -> (s: Self)
        ensures
            s.wf(),
            s.state == LoaderState::Pending,
            s.value is None,
            s.error is None,
            s.running,
    {
        LoaderStore { value: None, error: None, state: LoaderState::Pending, running: true }
    }

    /// Runs the load again in the background. What the component shows does not change
    /// until the run settles: a ready loader stays ready with its value, so the view is
    /// not suspended.
    pub fn restart(&mut self)
        ensures
            final(self).running,
            final(self).state == old(self).state,
            final(self).value == old(self).value,
            final(self).error == old(self).error,
    {
        self.running = true;
    }

    /// Stops the run under way; what the loader holds stays as it is.
    pub fn cancel(&mut self)
        ensures
            !final(self).running,
            final(self).state == old(self).state,
            final(self).value == old(self).value,
            final(self).error == old(self).error,
    {
        self.running = false;
    }

    /// Whether a run of the load is still under way.
    pub fn loading(&self) -> (r: bool)
        ensures
            r == self.running,
    {
        self.running
    }

    /// Takes the outcome of a run of the load: a value makes the loader ready (the last
    /// error stays), an error makes it failed (the last value stays). The outcome of a run
    /// that was cancelled (no run under way) is dropped and the loader stays as it was.
    pub fn settle(&mut self, out: Result<T, E>)
        ensures
            old(self).running ==> (out matches Ok(v) ==> final(self).value == Some(v)
                && final(self).error == old(self).error && final(self).state == LoaderState::Ready),
            old(self).running ==> (out matches Err(e) ==> final(self).error == Some(e)
                && final(self).value == old(self).value && final(self).state == LoaderState::Failed),
            !old(self).running ==> final(self).value == old(self).value && final(self).error == old(self).error
                && final(self).state == old(self).state,
            !final(self).running,
    {
        if !self.running {
            return;
        }
        match out {
            Ok(v) => {
                self.value = Some(v);
                self.state = LoaderState::Ready;
            },
            Err(e) => {
                self.error = Some(e);
                self.state = LoaderState::Failed;
            },
        }
        self.running = false;
    }

    /// Takes the outcome of a run of a mapped load: a loaded value is first turned by
    /// `map` into what the loader holds; an error is kept as it is. As with `settle`, the
    /// outcome of a cancelled run is dropped.
    pub fn settle_mapped<I, F: Fn(I) -> T>(&mut self, out: Result<I, E>, map: F)
        requires
            forall|i: I| #[trigger] call_requires(map, (i,)),
        ensures
            old(self).running ==> (out matches Ok(v) ==> (final(self).value matches Some(t)
                && call_ensures(map, (v,), t)) && final(self).error == old(self).error
                && final(self).state == LoaderState::Ready),
            old(self).running ==> (out matches Err(e) ==> final(self).error == Some(e)
                && final(self).value == old(self).value && final(self).state == LoaderState::Failed),
            !old(self).running ==> final(self).value == old(self).value && final(self).error == old(self).error
                && final(self).state == old(self).state,
            !final(self).running,
    {
        if !self.running {
            return;
        }
        match out {
            Ok(v) => {
                let t = map(v);
                self.settle(Ok(t));
            },
            Err(e) => self.settle(Err(e)),
        }
    }

    /// What the component gets: the loader when it is ready, otherwise why not.
    pub fn outcome(&self) -> (r: Result<(), Loading>)
        ensures
            r is Ok <==> self.state == LoaderState::Ready,
            r == Err::<(), Loading>(Loading::Pending) <==> self.state == LoaderState::Pending,
            r == Err::<(), Loading>(Loading::Failed) <==> self.state == LoaderState::Failed,
    {
        match self.state {
            LoaderState::Pending => Err(Loading::Pending),
            LoaderState::Failed => Err(Loading::Failed),
            LoaderState::Ready => Ok(()),
        }
    }

    /// The last load failed and its error is known.
    pub fn is_error(&self) -> (r: bool)
        ensures
            r == (self.error is Some && self.state == LoaderState::Failed),
    {
        self.error.is_some() && match self.state {
            LoaderState::Failed => true,
            _ => false,
        }
    }

    /// The current state of the load.
    pub fn state(&self) -> (s: LoaderState)
        ensures
            s == self.state,
    {
        self.state
    }

    /// The value, which a ready loader always has.
    pub fn read(&self) -> (v: &T)
        requires
            self.wf(),
            self.state == LoaderState::Ready,
        ensures
            self.value == Some(*v),
    {
        match &self.value {
            Some(v) => v,
            None => vstd::pervasive::unreached(),
        }
    }

    /// The error a failed loader reports up the tree, which it always has.
    pub fn failure(&self) -> (e: &E)
        requires
            self.wf(),
            self.state == LoaderState::Failed,
        ensures
            self.error == Some(*e),
    {
        match &self.error {
            Some(e) => e,
            None => vstd::pervasive::unreached(),
        }
    }
}

/// Every step keeps a loader well formed: a ready loader always has a value to show and a
/// failed one always has an error to report.
pub proof fn lemma_settle_keeps_wf<T, E>(before: LoaderStore<T, E>, out: Result<T, E>, after: LoaderStore<T, E>)
    requires
        before.wf(),
        out matches Ok(v) ==> after.value == Some(v) && after.error == before.error && after.state == LoaderState::Ready,
        out matches Err(e) ==> after.error == Some(e) && after.value == before.value && after.state == LoaderState::Failed,
    ensures
        after.wf(),
        before.value is Some ==> after.value is Some,
{
}

/// Restarting or cancelling a run, or dropping the outcome of a cancelled one, keeps a
/// loader well formed, and leaves a ready loader
/// ready with the same value: the view goes on showing it while the load runs again.
pub proof fn lemma_restart_keeps_view<T, E>(before: LoaderStore<T, E>, after: LoaderStore<T, E>)
    requires
        before.wf(),
        after.state == before.state,
        after.value == before.value,
        after.error == before.error,
    ensures
        after.wf(),
        before.state == LoaderState::Ready ==> after.state == LoaderState::Ready && after.value == before.value,
{
}

} // verus!
