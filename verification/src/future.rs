//! The decisions of a single-task executor that is polled once per frame.
//!
//! The task itself is driven from outside: whoever polls it hands the
//! outcome of that poll back to the executor, which decides what is kept.
use vstd::prelude::*;

verus! {

/// What one poll of the task gave.
#[derive(Clone, Copy, PartialEq, Eq, Structural, Debug)]
pub enum PollOutcome {
    /// The task finished.
    Ready,
    /// The task wants to be polled again.
    Pending,
}

/// Returned by a poll once no task is left to run.
#[derive(Clone, Copy, PartialEq, Eq, Structural, Debug)]
pub struct Done;

/// The slot that holds the task being run, if any.
pub struct FuturePoll<F> {
    pub future: Option<F>,
}

impl<F> FuturePoll<F> {
    /// A slot that holds `obj`.
    pub fn new(obj: F) -> (res: FuturePoll<F>)
        ensures
            res.future == Some(obj),
    {
        FuturePoll { future: Some(obj) }
    }

    /// Settles one poll: with no task the poll is `Done` at once; a task
    /// that finished is dropped and the poll is `Done`; a pending task stays.
    pub fn poll(&mut self, outcome: PollOutcome) -> (res: Option<Done>)
        ensures
            old(self).future is None ==> res == Some(Done) && final(self).future is None,
            old(self).future is Some && outcome == PollOutcome::Ready ==> res == Some(Done)
                && final(self).future is None,
            old(self).future is Some && outcome == PollOutcome::Pending ==> res is None
                && final(self).future == old(self).future,
    {
        if self.future.is_none() {
            return Some(Done);
        }
        match outcome {
            PollOutcome::Ready => {
                self.future = None;
                return Some(Done);
            },
            PollOutcome::Pending => {},
        }
        None
    }
}

/// Runs one task at a time.
pub struct Executor<F>(pub FuturePoll<F>);

impl<F> Executor<F> {
    /// An executor with no task.
    pub fn new() -> (res: Executor<F>)
        ensures
            res.0.future is None,
    {
        Executor(FuturePoll { future: None })
    }

    /// Replaces the task with `fut`.
    pub fn set(&mut self, fut: F)
        ensures
            final(self).0.future == Some(fut),
    {
        self.0 = FuturePoll::new(fut)
    }

    /// The task, for the caller to poll.
    pub fn task(&mut self) -> (res: Option<&mut F>)
        ensures
            old(self).0.future is None <==> res is None,
            res matches Some(r) ==> *r == old(self).0.future.unwrap() && final(self).0.future
                == Some(*final(r)),
            res is None ==> final(self).0.future is None,
    {
        self.0.future.as_mut()
    }

    /// Settles one poll of the task; see [`FuturePoll::poll`].
    pub fn poll(&mut self, outcome: PollOutcome) -> (res: Option<Done>)
        ensures
            old(self).0.future is None ==> res == Some(Done) && final(self).0.future is None,
            old(self).0.future is Some && outcome == PollOutcome::Ready ==> res == Some(Done)
                && final(self).0.future is None,
            old(self).0.future is Some && outcome == PollOutcome::Pending ==> res is None
                && final(self).0.future == old(self).0.future,
    {
        self.0.poll(outcome)
    }
}

/// A timer that lets a task wait a number of frames.
pub struct WaitUntil(pub usize);

/// What a timer with `remaining` frames to wait answers a poll.
pub open spec fn wait_outcome(remaining: nat) -> PollOutcome {
    if remaining == 0 {
        PollOutcome::Ready
    } else {
        PollOutcome::Pending
    }
}

/// The frames a timer with `remaining` frames to wait has left after a poll.
pub open spec fn wait_next(remaining: nat) -> nat {
    if remaining == 0 {
        0
    } else {
        (remaining - 1) as nat
    }
}

/// The frames left to wait after `k` polls of a timer started at `n`.
pub open spec fn wait_after(n: nat, k: nat) -> nat
    decreases k,
{
    if k == 0 {
        n
    } else {
        wait_next(wait_after(n, (k - 1) as nat))
    }
}

impl WaitUntil {
    /// One poll: ready when no frame is left to wait, else one frame fewer.
    pub fn poll_step(&mut self) -> (res: PollOutcome)
        ensures
            res == wait_outcome(old(self).0 as nat),
            final(self).0 == wait_next(old(self).0 as nat),
    {
        if self.0 == 0 {
            return PollOutcome::Ready;
        }
        self.0 = self.0 - 1;
        PollOutcome::Pending
    }
}

/// A timer that waits `frames` frames.
pub fn sleep(frames: usize) -> (res: WaitUntil)
    ensures
        res.0 == frames,
{
    WaitUntil(frames)
}

proof fn lemma_wait_after(n: nat, k: nat)
    requires
        k <= n,
    ensures
        wait_after(n, k) == n - k,
    decreases k,
{
    if k > 0 {
        lemma_wait_after(n, (k - 1) as nat);
    }
}

/// A timer of `n` frames answers its first `n` polls with `Pending` and the
/// next one with `Ready`.
pub proof fn law_sleep_ready_after_frames(n: nat)
    ensures
        forall|k: nat| k < n ==> #[trigger] wait_outcome(wait_after(n, k)) == PollOutcome::Pending,
        wait_outcome(wait_after(n, n)) == PollOutcome::Ready,
{
    assert forall|k: nat| k < n implies #[trigger] wait_outcome(wait_after(n, k))
        == PollOutcome::Pending by {
        lemma_wait_after(n, k);
    }
    lemma_wait_after(n, n);
}

} // verus!
