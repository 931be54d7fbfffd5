//! Samples of the interpreter's state, taken while a program runs.

use std::time::{Duration, Instant};
use vstd::prelude::*;

verus! {

/// A point in time, as the standard library measures it.
#[verifier::external_type_specification]
#[verifier::external_body]
pub struct ExInstant(Instant);

/// `Instant::now`: the current point in time. Nothing is claimed of it.
#[verifier::external_body]
fn now() -> Instant {
    Instant::now()
}

/// `Instant::elapsed`: the time that has passed since `start`. Nothing is claimed of it.
#[verifier::external_body]
fn elapsed(start: &Instant) -> Duration {
    start.elapsed()
}

/// One sample.
pub struct Entry {
    /// The time since the logger was made.
    pub elapsed: Duration,
    pub heap_objects_count: usize,
    pub stack_frames_count: usize,
    /// The memory that the interpreter uses, in bytes, as far as the host has told.
    pub memory_usage: Option<usize>,
}

/// What was counted for one sample.
pub struct Sample {
    pub heap_objects_count: usize,
    pub stack_frames_count: usize,
    pub memory_usage: Option<usize>,
}

/// Takes samples of the number of records and of running calls while a program runs.
pub struct Logger {
    start: Instant,
    entries: Vec<Entry>,
    memory_usage: Option<usize>,
}

impl View for Logger {
    type V = Seq<Sample>;

    /// The samples taken so far, without their times.
    closed spec fn view(&self) -> Seq<Sample> {
        Seq::new(
            self.entries@.len(),
            |i: int|
                Sample {
                    heap_objects_count: self.entries@[i].heap_objects_count,
                    stack_frames_count: self.entries@[i].stack_frames_count,
                    memory_usage: self.entries@[i].memory_usage,
                },
        )
    }
}

impl Logger {
    /// The reading of memory usage that the next sample will carry.
    pub closed spec fn reading(&self) -> Option<usize> {
        self.memory_usage
    }

    /// Creates a logger, and starts its clock.
    pub fn new() -> (logger: Self)
        ensures
            logger@ == Seq::<Sample>::empty(),
            logger.reading() is None,
    {
        let logger = Self { start: now(), entries: Vec::new(), memory_usage: None };
        assert(logger@ =~= Seq::<Sample>::empty());
        logger
    }

    /// Takes in a reading of the interpreter's memory usage, or the news that none can be had.
    pub fn record_memory_usage(&mut self, memory_usage: Option<usize>)
        ensures
            final(self)@ == old(self)@,
            final(self).reading() == memory_usage,
    {
        self.memory_usage = memory_usage;
        assert(self@ =~= old(self)@);
    }

    /// Takes a sample, stamped with the time since the logger was made.
    pub fn new_entry(&mut self, heap_objects_count: usize, stack_frames_count: usize)
        ensures
            final(self).reading() == old(self).reading(),
            final(self)@ == old(self)@.push(
                Sample { heap_objects_count, stack_frames_count, memory_usage: old(self).reading() },
            ),
    {
        let memory_usage = self.memory_usage;
        self.entries.push(
            Entry {
                elapsed: elapsed(&self.start),
                heap_objects_count,
                stack_frames_count,
                memory_usage,
            },
        );
        assert(self@ =~= old(self)@.push(
            Sample { heap_objects_count, stack_frames_count, memory_usage: old(self).reading() },
        ));
    }

    /// The samples taken so far.
    pub fn entries(&self) -> (entries: &Vec<Entry>)
        ensures
            entries@.len() == self@.len(),
            forall|i: int|
                0 <= i < entries@.len() ==> (#[trigger] entries@[i]).heap_objects_count
                    == self@[i].heap_objects_count && entries@[i].stack_frames_count
                    == self@[i].stack_frames_count && entries@[i].memory_usage
                    == self@[i].memory_usage,
    {
        &self.entries
    }
}

} // verus!
