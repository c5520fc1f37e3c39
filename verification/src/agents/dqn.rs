//! The training schedule of a deep Q-network agent.
//!
//! Each transition is stored in the replay buffer and counted. The agent
//! trains its Q-network on a sampled batch once the buffer holds at least a
//! batch, and afterwards copies the Q-network into the target network every
//! `update_every` steps.

use vstd::prelude::*;

use crate::buffer::{keep_last, ReplayBuffer};

verus! {

/// The step counter and the two periods that drive the schedule.
pub struct DqnSchedule {
    batch_size: usize,
    update_every: usize,
    step_count: usize,
}

impl DqnSchedule {
    /// The number of transitions recorded so far.
    pub closed spec fn spec_step_count(&self) -> nat {
        self.step_count as nat
    }

    /// The batch size.
    pub closed spec fn spec_batch_size(&self) -> nat {
        self.batch_size as nat
    }

    /// The number of steps between two synchronisations of the target.
    pub closed spec fn spec_update_every(&self) -> nat {
        self.update_every as nat
    }

    /// A schedule with no step recorded yet.
    pub fn new(batch_size: usize, update_every: usize) -> (s: Self)
        ensures
            s.spec_step_count() == 0,
            s.spec_batch_size() == batch_size,
            s.spec_update_every() == update_every,
    {
        Self { batch_size, update_every, step_count: 0 }
    }

    /// The number of transitions recorded so far.
    pub fn step_count(&self) -> (n: usize)
        ensures
            n == self.spec_step_count(),
    {
        self.step_count
    }

    /// Counts one transition, after which the replay buffer holds
    /// `buffer_len` items, and says whether to train on a sampled batch.
    pub fn record_step(&mut self, buffer_len: usize) -> (train: bool)
        requires
            old(self).spec_step_count() < usize::MAX,
        ensures
            final(self).spec_step_count() == old(self).spec_step_count() + 1,
            final(self).spec_batch_size() == old(self).spec_batch_size(),
            final(self).spec_update_every() == old(self).spec_update_every(),
            train == (buffer_len >= old(self).spec_batch_size()),
    {
        self.step_count = self.step_count + 1;
        buffer_len >= self.batch_size
    }

    /// Whether the target network is due to receive the Q-network's
    /// parameters: the step count is a multiple of `update_every`.
    pub fn sync_due(&self) -> (sync: bool)
        requires
            self.spec_update_every() > 0,
        ensures
            sync == (self.spec_step_count() % self.spec_update_every() == 0),
    {
        self.step_count % self.update_every == 0
    }
}

/// The bookkeeping of one DQN step: stores `transition` in the replay buffer
/// (dropping the oldest item once it is full), counts the step, and says
/// whether to train, which is when the buffer now holds at least a batch.
pub fn record_transition<T>(
    buffer: &mut ReplayBuffer<T>,
    schedule: &mut DqnSchedule,
    transition: T,
) -> (train: bool)
    requires
        old(buffer).wf(),
        old(buffer).spec_capacity() > 0,
        old(schedule).spec_step_count() < usize::MAX,
    ensures
        final(buffer).wf(),
        final(buffer).spec_capacity() == old(buffer).spec_capacity(),
        final(buffer).contents() == keep_last(
            old(buffer).contents().push(transition),
            old(buffer).spec_capacity(),
        ),
        final(schedule).spec_step_count() == old(schedule).spec_step_count() + 1,
        final(schedule).spec_batch_size() == old(schedule).spec_batch_size(),
        final(schedule).spec_update_every() == old(schedule).spec_update_every(),
        train == (final(buffer).contents().len() >= old(schedule).spec_batch_size()),
{
    buffer.add(transition);
    let len = buffer.len();
    schedule.record_step(len)
}

} // verus!
