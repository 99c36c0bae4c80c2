//! How far one ray is followed.
//!
//! A ray is cast, and what it hits is lit. If the surface is a mirror the ray
//! goes on from there, and so on, up to a fixed number of bounces. The caller
//! casts and lights; a `Tracer` decides, after each cast, whether the ray goes
//! on. Whatever the scene, the bounces never exceed the budget, and the
//! evaluation is over after at most one cast more than the budget.

use crate::scalar::Scalar;
use vstd::prelude::*;

verus! {

/// What the caller found along the ray it cast.
#[derive(Clone, Copy, Debug)]
pub enum Event {
    /// The ray left the scene.
    Miss,
    /// The ray met a surface whose material reflects this fraction.
    Hit { reflectivity: Scalar },
}

/// What the caller does with the ray it cast.
#[derive(Clone, Copy, Debug, PartialEq, Eq)]
pub enum Action {
    /// The ray adds no light, and the evaluation is over.
    Background,
    /// Light the surface, and the evaluation is over.
    Shade,
    /// Light the surface, then cast the mirrored ray from it.
    ShadeAndReflect,
}

/// The state of one evaluation, as contracts see it.
pub struct TracerState {
    /// The bounces that the evaluation may make in all.
    pub budget: nat,
    /// The bounces made so far.
    pub bounces: nat,
    /// No further ray is to be cast.
    pub finished: bool,
}

/// The state in which an evaluation with this budget starts.
pub open spec fn start(budget: nat) -> TracerState {
    TracerState { budget, bounces: 0, finished: false }
}

/// The state after an event, and what the caller is told to do.
pub open spec fn step(s: TracerState, e: Event) -> (TracerState, Action) {
    if s.finished {
        (s, Action::Background)
    } else {
        match e {
            Event::Miss => (TracerState { finished: true, ..s }, Action::Background),
            Event::Hit { reflectivity } => {
                if reflectivity.positive() && s.bounces < s.budget {
                    (TracerState { bounces: s.bounces + 1, ..s }, Action::ShadeAndReflect)
                } else {
                    (TracerState { finished: true, ..s }, Action::Shade)
                }
            },
        }
    }
}

/// The state after a series of events.
pub open spec fn run(s: TracerState, events: Seq<Event>) -> TracerState
    decreases events.len(),
{
    if events.len() == 0 {
        s
    } else {
        step(run(s, events.drop_last()), events.last()).0
    }
}

/// How often, over a series of events, the caller was told to reflect.
pub open spec fn reflections(s: TracerState, events: Seq<Event>) -> nat
    decreases events.len(),
{
    if events.len() == 0 {
        0
    } else {
        let before = reflections(s, events.drop_last());
        if step(run(s, events.drop_last()), events.last()).1 == Action::ShadeAndReflect {
            before + 1
        } else {
            before
        }
    }
}

/// The decisions of one ray evaluation.
#[derive(Clone, Copy, Debug)]
pub struct Tracer {
    budget: u32,
    bounces: u32,
    finished: bool,
}

impl View for Tracer {
    type V = TracerState;

    closed spec fn view(&self) -> TracerState {
        TracerState {
            budget: self.budget as nat,
            bounces: self.bounces as nat,
            finished: self.finished,
        }
    }
}

impl Tracer {
    /// An evaluation that may reflect `budget` times.
    pub fn new(budget: u32) -> (t: Tracer)
        ensures
            t@ == start(budget as nat),
    {
        Tracer { budget, bounces: 0, finished: false }
    }

    /// Takes what the last cast found and says what to do with it.
    pub fn advance(&mut self, event: Event) -> (action: Action)
        ensures
            final(self)@ == step(old(self)@, event).0,
            action == step(old(self)@, event).1,
    {
        if self.finished {
            return Action::Background;
        }
        match event {
            Event::Miss => {
                self.finished = true;
                Action::Background
            },
            Event::Hit { reflectivity } => {
                if reflectivity.is_positive() && self.bounces < self.budget {
                    self.bounces = self.bounces + 1;
                    Action::ShadeAndReflect
                } else {
                    self.finished = true;
                    Action::Shade
                }
            },
        }
    }

    /// Whether the evaluation is over.
    pub fn is_finished(&self) -> (r: bool)
        ensures
            r == self@.finished,
    {
        self.finished
    }

    /// The bounces made so far.
    pub fn bounces(&self) -> (n: u32)
        ensures
            n == self@.bounces,
    {
        self.bounces
    }

    /// The bounces that the evaluation may make in all.
    pub fn budget(&self) -> (n: u32)
        ensures
            n == self@.budget,
    {
        self.budget
    }
}

/// A step never takes the bounces past the budget, and never changes the budget.
pub proof fn lemma_step_keeps_bound(s: TracerState, e: Event)
    requires
        s.bounces <= s.budget,
    ensures
        step(s, e).0.bounces <= step(s, e).0.budget,
        step(s, e).0.budget == s.budget,
        s.finished ==> step(s, e).0 == s,
{
}

/// With a budget of `k`, no series of events, however long and whatever the
/// scene answers, leads to more than `k` bounces; and the caller is told to
/// reflect exactly as often as bounces are counted.
pub proof fn lemma_bounces_within_budget(k: nat, events: Seq<Event>)
    ensures
        run(start(k), events).budget == k,
        run(start(k), events).bounces <= k,
        reflections(start(k), events) == run(start(k), events).bounces,
    decreases events.len(),
{
    if events.len() > 0 {
        lemma_bounces_within_budget(k, events.drop_last());
    }
}

/// An evaluation with a budget of `k` is over after `k + 1` casts at the
/// latest: two mirrors that face each other cannot keep it going.
pub proof fn lemma_evaluation_ends(k: nat, events: Seq<Event>)
    ensures
        !run(start(k), events).finished ==> run(start(k), events).bounces == events.len(),
        events.len() > k ==> run(start(k), events).finished,
    decreases events.len(),
{
    if events.len() > 0 {
        lemma_evaluation_ends(k, events.drop_last());
        lemma_bounces_within_budget(k, events.drop_last());
        lemma_bounces_within_budget(k, events);
    }
}

/// Once an evaluation is over, further events change nothing and add no light.
pub proof fn lemma_finished_is_final(s: TracerState, events: Seq<Event>)
    requires
        s.finished,
    ensures
        run(s, events) == s,
        reflections(s, events) == 0,
    decreases events.len(),
{
    if events.len() > 0 {
        lemma_finished_is_final(s, events.drop_last());
    }
}

} // verus!
