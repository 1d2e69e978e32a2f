//! A timed register: a byte that decays towards zero, one step per tick of
//! a 60 Hz clock, once it has been set.
//!
//! This module holds the register's value and decides what a tick does.
//! Who sleeps between ticks is the caller's business: the caller starts one
//! decay process per `set`, hands each tick of that process to `tick`
//! together with the generation the process was started under, and ends the
//! process as soon as `tick` answers `false`.

use vstd::prelude::*;

verus! {

/// What a timed register holds.
pub struct TimerState {
    /// The byte that `get` reads.
    pub value: u8,
    /// The number of the decay process that is entitled to decrement the
    /// value: the count of `set` calls so far, wrapping.
    pub generation: u64,
}

impl TimerState {
    /// The state of a new register: zero, with no decay process running.
    pub open spec fn initial() -> TimerState {
        TimerState { value: 0, generation: 0 }
    }

    /// Whether a decay process is running: it runs until the value reaches
    /// zero.
    pub open spec fn running(self) -> bool {
        self.value > 0
    }

    /// The state after `set(value)`: the value is replaced and every decay
    /// process started earlier is superseded.
    pub open spec fn set(self, value: u8) -> TimerState {
        TimerState {
            value,
            generation: if self.generation == u64::MAX {
                0
            } else {
                (self.generation + 1) as u64
            },
        }
    }

    /// The state after one tick of the decay process `generation`: the
    /// current process decrements a positive value; a superseded process
    /// changes nothing.
    pub open spec fn tick(self, generation: u64) -> TimerState {
        if generation == self.generation && self.value > 0 {
            TimerState { value: (self.value - 1) as u8, ..self }
        } else {
            self
        }
    }

    /// Whether the decay process `generation` goes on after a tick that
    /// left the register in this state.
    pub open spec fn continues(self, generation: u64) -> bool {
        generation == self.generation && self.value > 0
    }

    /// The state after the ticks `events`, each given by the generation of
    /// the process that delivers it, in order.
    pub open spec fn after_ticks(self, events: Seq<u64>) -> TimerState
        decreases events.len(),
    {
        if events.len() == 0 {
            self
        } else {
            self.after_ticks(events.drop_last()).tick(events.last())
        }
    }

    /// How many of the ticks `events` come from the process `generation`.
    pub open spec fn count_from(events: Seq<u64>, generation: u64) -> nat
        decreases events.len(),
    {
        if events.len() == 0 {
            0
        } else {
            Self::count_from(events.drop_last(), generation) + if events.last() == generation {
                1nat
            } else {
                0nat
            }
        }
    }

    /// Decay law. Whatever ticks arrive after a `set`, from the process it
    /// started or from superseded ones, the value never rises above what
    /// was set; each tick of the current process takes one off until zero
    /// is reached, so after as many of them as the value set, the register
    /// reads zero.
    pub proof fn lemma_decay(self, value: u8, events: Seq<u64>)
        ensures
            ({
                let armed = self.set(value);
                let current = Self::count_from(events, armed.generation);
                let after = armed.after_ticks(events);
                &&& after.generation == armed.generation
                &&& after.value <= value
                &&& after.value == if current >= value {
                    0
                } else {
                    value - current
                }
                &&& current >= value ==> after.value == 0 && !after.running()
            }),
        decreases events.len(),
    {
        if events.len() > 0 {
            self.lemma_decay(value, events.drop_last());
        }
    }

    /// A `set` supersedes the process that was current before it: that
    /// process's ticks no longer change the register.
    pub proof fn lemma_set_supersedes(self, value: u8)
        ensures
            self.set(value).generation != self.generation,
            self.set(value).tick(self.generation) == self.set(value),
            !self.set(value).continues(self.generation),
    {
    }
}

/// A byte that decays to zero at the pace of the ticks it is given.
#[derive(Debug)]
pub struct TimedRegister {
    value: u8,
    generation: u64,
}

impl View for TimedRegister {
    type V = TimerState;

    closed spec fn view(&self) -> TimerState {
        TimerState { value: self.value, generation: self.generation }
    }
}

impl Default for TimedRegister {
    /// A register at zero with no decay process running.
    fn default() -> (register: Self)
        ensures
            register@ == TimerState::initial(),
    {
        Self { value: 0, generation: 0 }
    }
}

impl TimedRegister {
    /// The current value.
    pub fn get(&self) -> (value: u8)
        ensures
            value == self@.value,
    {
        self.value
    }

    /// Installs `value` and supersedes any decay process started earlier.
    /// The caller starts a new process under the new generation if
    /// `is_running` then holds.
    pub fn set(&mut self, value: u8)
        ensures
            final(self)@ == old(self)@.set(value),
    {
        self.value = value;
        self.generation = self.generation.wrapping_add(1);
    }

    /// The generation that a decay process started now has to present with
    /// its ticks.
    pub fn generation(&self) -> (generation: u64)
        ensures
            generation == self@.generation,
    {
        self.generation
    }

    /// Whether the register still has a value to decay.
    pub fn is_running(&self) -> (running: bool)
        ensures
            running == self@.running(),
    {
        self.value > 0
    }

    /// One tick of the decay process `generation`. Returns whether that
    /// process is to go on ticking: `false` once the value has reached zero
    /// or the process has been superseded by a later `set`.
    pub fn tick(&mut self, generation: u64) -> (keep_running: bool)
        ensures
            final(self)@ == old(self)@.tick(generation),
            keep_running == final(self)@.continues(generation),
    {
        if generation == self.generation && self.value > 0 {
            self.value = self.value - 1;
        }
        generation == self.generation && self.value > 0
    }
}

} // verus!
