//! The admission rule of the hashing stage: it lets a new hashing task start only while
//! fewer than a fixed number of them are under way.

use vstd::prelude::*;

verus! {

/// How many hashing tasks may be under way at once where nothing else is asked for.
pub const DEFAULT_CONCURRENCY: usize = 3;

/// What the stage does next.
#[derive(Clone, Copy, Debug, PartialEq, Eq, Structural)]
pub enum PoolStep {
    /// Start the hashing of the next candidate.
    Spawn,
    /// Wait until one of the tasks under way has ended.
    AwaitOne,
    /// Every candidate has been hashed.
    Done,
}

/// What happens at the pool.
#[derive(Clone, Copy, Debug, PartialEq, Eq, Structural)]
pub enum PoolEvent {
    /// A task asks to be started.
    Start,
    /// A task under way has ended.
    Finish,
}

/// The pool as numbers.
pub ghost struct PoolView {
    /// How many tasks may be under way at once.
    pub cap: nat,
    /// Candidates whose hashing has not been started.
    pub waiting: nat,
    /// Tasks under way.
    pub in_flight: nat,
    /// Tasks that have ended.
    pub finished: nat,
}

/// A task may start while a candidate waits and fewer than `cap` tasks are under way.
pub open spec fn may_start(pool: PoolView) -> bool {
    pool.waiting > 0 && pool.in_flight < pool.cap
}

/// The pool after an event. A start that is not allowed, and an end where
/// nothing is under way, change nothing.
pub open spec fn after_event(pool: PoolView, event: PoolEvent) -> PoolView {
    match event {
        PoolEvent::Start => if may_start(pool) {
            PoolView {
                cap: pool.cap,
                waiting: (pool.waiting - 1) as nat,
                in_flight: pool.in_flight + 1,
                finished: pool.finished,
            }
        } else {
            pool
        },
        PoolEvent::Finish => if pool.in_flight > 0 {
            PoolView {
                cap: pool.cap,
                waiting: pool.waiting,
                in_flight: (pool.in_flight - 1) as nat,
                finished: pool.finished + 1,
            }
        } else {
            pool
        },
    }
}

/// The pool after a sequence of events.
pub open spec fn after_events(pool: PoolView, events: Seq<PoolEvent>) -> PoolView
    decreases events.len(),
{
    if events.len() == 0 {
        pool
    } else {
        after_event(after_events(pool, events.drop_last()), events.last())
    }
}

/// What the stage does next with a pool in this state.
pub open spec fn step_of(pool: PoolView) -> PoolStep {
    if pool.waiting > 0 {
        if pool.in_flight >= pool.cap {
            PoolStep::AwaitOne
        } else {
            PoolStep::Spawn
        }
    } else if pool.in_flight > 0 {
        PoolStep::AwaitOne
    } else {
        PoolStep::Done
    }
}

/// The pool of a hashing stage: it counts the tasks and admits new ones.
pub struct HashWorkerPool {
    cap: usize,
    waiting: usize,
    in_flight: usize,
    finished: usize,
}

impl View for HashWorkerPool {
    type V = PoolView;

    closed spec fn view(&self) -> PoolView {
        PoolView {
            cap: self.cap as nat,
            waiting: self.waiting as nat,
            in_flight: self.in_flight as nat,
            finished: self.finished as nat,
        }
    }
}

impl HashWorkerPool {
    /// No more tasks are under way than the pool allows, and every candidate is
    /// counted once.
    pub closed spec fn well_formed(&self) -> bool {
        &&& self.cap >= 1
        &&& self.in_flight <= self.cap
        &&& self.waiting + self.in_flight + self.finished <= usize::MAX
    }

    /// A pool for `candidates` files that lets `cap` tasks run at once; `None`
    /// where `cap` is zero, with which no file could ever be hashed.
    pub fn new(cap: usize, candidates: usize) -> (pool: Option<Self>)
        ensures
            pool is Some <==> cap >= 1,
            pool matches Some(p) ==> p.well_formed() && p@ == (PoolView {
                cap: cap as nat,
                waiting: candidates as nat,
                in_flight: 0,
                finished: 0,
            }),
    {
        if cap == 0 {
            None
        } else {
            Some(HashWorkerPool { cap, waiting: candidates, in_flight: 0, finished: 0 })
        }
    }

    /// A pool for `candidates` files that lets `DEFAULT_CONCURRENCY` tasks run at once.
    pub fn with_default_cap(candidates: usize) -> (pool: Self)
        ensures
            pool.well_formed(),
            pool@ == (PoolView {
                cap: DEFAULT_CONCURRENCY as nat,
                waiting: candidates as nat,
                in_flight: 0,
                finished: 0,
            }),
    {
        HashWorkerPool { cap: DEFAULT_CONCURRENCY, waiting: candidates, in_flight: 0, finished: 0 }
    }

    /// How many tasks are under way.
    pub fn in_flight(&self) -> (n: usize)
        ensures
            n == self@.in_flight,
    {
        self.in_flight
    }

    /// What the stage does next: it starts a task while one waits and the pool
    /// has room, waits for a task to end while the pool is full or only tasks
    /// under way are left, and is done when nothing waits and nothing runs.
    pub fn next_step(&self) -> (step: PoolStep)
        ensures
            step == step_of(self@),
    {
        if self.waiting > 0 {
            if self.in_flight >= self.cap {
                PoolStep::AwaitOne
            } else {
                PoolStep::Spawn
            }
        } else if self.in_flight > 0 {
            PoolStep::AwaitOne
        } else {
            PoolStep::Done
        }
    }

    /// Asks to start a task. The pool lets it start only while a candidate
    /// waits and fewer than `cap` tasks are under way.
    pub fn try_start(&mut self) -> (started: bool)
        requires
            old(self).well_formed(),
        ensures
            final(self).well_formed(),
            started == may_start(old(self)@),
            final(self)@ == after_event(old(self)@, PoolEvent::Start),
    {
        if self.waiting > 0 && self.in_flight < self.cap {
            self.waiting = self.waiting - 1;
            self.in_flight = self.in_flight + 1;
            true
        } else {
            false
        }
    }

    /// Records that a task under way has ended; says whether one was under way.
    pub fn finish_one(&mut self) -> (ended: bool)
        requires
            old(self).well_formed(),
        ensures
            final(self).well_formed(),
            ended == (old(self)@.in_flight > 0),
            final(self)@ == after_event(old(self)@, PoolEvent::Finish),
    {
        if self.in_flight > 0 {
            self.in_flight = self.in_flight - 1;
            self.finished = self.finished + 1;
            true
        } else {
            false
        }
    }
}

/// Whatever is asked of the pool, and in whatever order, never more than `cap`
/// tasks are under way, and no candidate is lost or counted twice.
pub proof fn lemma_never_more_than_cap(pool: PoolView, events: Seq<PoolEvent>)
    requires
        pool.in_flight <= pool.cap,
    ensures
        after_events(pool, events).in_flight <= pool.cap,
        after_events(pool, events).cap == pool.cap,
        after_events(pool, events).waiting + after_events(pool, events).in_flight + after_events(
            pool,
            events,
        ).finished == pool.waiting + pool.in_flight + pool.finished,
    decreases events.len(),
{
    if events.len() > 0 {
        lemma_never_more_than_cap(pool, events.drop_last());
    }
}

/// The event that carries out a step.
pub open spec fn event_of(step: PoolStep) -> PoolEvent {
    if step is Spawn {
        PoolEvent::Start
    } else {
        PoolEvent::Finish
    }
}

/// A stage that does what `next_step` says comes one step nearer to its end
/// with every step, and is done exactly when nothing waits and nothing runs: a
/// stage with `n` waiting candidates and nothing under way is done after `2 * n`
/// steps.
pub proof fn lemma_following_the_steps_drains(pool: PoolView)
    requires
        pool.cap >= 1,
        pool.in_flight <= pool.cap,
    ensures
        step_of(pool) is Done <==> pool.waiting == 0 && pool.in_flight == 0,
        !(step_of(pool) is Done) ==> ({
            let next = after_event(pool, event_of(step_of(pool)));
            2 * next.waiting + next.in_flight + 1 == 2 * pool.waiting + pool.in_flight
        }),
{
}

} // verus!
