//! A workout plan from how hard the user wants to train and a number drawn
//! for the day.

use vstd::prelude::*;

verus! {

/// What to do today.
#[derive(Clone, Copy, PartialEq, Eq, Debug, Structural)]
pub enum Workout {
    /// Pushups first, situps next.
    Strength { pushups: u32, situps: u32 },
    /// Take a break and stay hydrated.
    Rest,
    /// Run for so many minutes.
    Run { minutes: u32 },
}

/// A value computed once, on first demand, and remembered.
pub struct Cacher {
    value: Option<u32>,
}

impl Cacher {
    /// What the cacher remembers.
    pub closed spec fn remembered(&self) -> Option<u32> {
        self.value
    }

    /// A cacher that remembers nothing yet.
    pub fn new() -> (c: Cacher)
        ensures
            c.remembered() is None,
    {
        Cacher { value: None }
    }

    /// The remembered value; on first demand that is the calculation for
    /// `arg`, which is then remembered for good.
    pub fn value(&mut self, arg: u32) -> (v: u32)
        ensures
            v == match old(self).remembered() {
                Some(first) => first,
                None => arg,
            },
            final(self).remembered() == Some(v),
    {
        match self.value {
            Some(v) => v,
            None => {
                let v = simulated_expensive_calculation(arg);
                self.value = Some(v);
                v
            },
        }
    }
}

/// The calculation that stands for an expensive one: it yields the
/// intensity it is given.
pub fn simulated_expensive_calculation(intensity: u32) -> (result: u32)
    ensures
        result == intensity,
{
    intensity
}

/// The plan for the day. Below an intensity of 25 it is strength training,
/// with as many pushups and situps as the intensity says. From 25 on it is a
/// run of as many minutes, unless the number drawn is 3: then it is a day of
/// rest.
pub fn generate_workout(intensity: u32, random_number: u32) -> (plan: Workout)
    ensures
        plan == if intensity < 25 {
            Workout::Strength { pushups: intensity, situps: intensity }
        } else if random_number == 3 {
            Workout::Rest
        } else {
            Workout::Run { minutes: intensity }
        },
{
    let mut expensive_result = Cacher::new();
    if intensity < 25 {
        let pushups = expensive_result.value(intensity);
        let situps = expensive_result.value(intensity);
        Workout::Strength { pushups, situps }
    } else if random_number == 3 {
        Workout::Rest
    } else {
        Workout::Run { minutes: expensive_result.value(intensity) }
    }
}

} // verus!
