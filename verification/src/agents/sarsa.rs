//! The on-policy bookkeeping of SARSA.
//!
//! SARSA updates the value of a state-action pair only once the next action
//! is known. The agent therefore remembers the last pair it chose; this
//! module decides, at each event of an episode, which remembered pair (if
//! any) is to be updated now.

use vstd::prelude::*;

verus! {

/// The pair `(observation, action)` chosen last in the current episode, if
/// any.
pub struct SarsaTrace {
    prev_obs: Option<usize>,
    prev_action: Option<usize>,
}

impl SarsaTrace {
    /// Both halves of the remembered pair are present or both are absent.
    pub closed spec fn wf(&self) -> bool {
        self.prev_obs is Some <==> self.prev_action is Some
    }

    /// The remembered pair.
    pub closed spec fn pending(&self) -> Option<(usize, usize)> {
        match (self.prev_obs, self.prev_action) {
            (Some(o), Some(a)) => Some((o, a)),
            _ => None,
        }
    }

    /// A trace with nothing remembered.
    pub fn new() -> (t: Self)
        ensures
            t.wf(),
            t.pending() is None,
    {
        Self { prev_obs: None, prev_action: None }
    }

    /// The remembered pair, as a value.
    pub fn last_pair(&self) -> (p: Option<(usize, usize)>)
        requires
            self.wf(),
        ensures
            p == self.pending(),
    {
        match (self.prev_obs, self.prev_action) {
            (Some(o), Some(a)) => Some((o, a)),
            _ => None,
        }
    }

    /// The agent chose `action` in `obs`. Returns the pair whose value must
    /// now be updated towards the value of `(obs, action)` (the previously
    /// remembered pair), and remembers `(obs, action)`.
    pub fn record_action(&mut self, obs: usize, action: usize) -> (to_update: Option<(usize, usize)>)
        requires
            old(self).wf(),
        ensures
            final(self).wf(),
            to_update == old(self).pending(),
            final(self).pending() == Some((obs, action)),
    {
        let to_update = self.last_pair();
        self.prev_obs = Some(obs);
        self.prev_action = Some(action);
        to_update
    }

    /// The environment answered the last action. On a terminal step, returns
    /// the remembered pair (whose value is updated towards the reward alone)
    /// and forgets it; otherwise returns `None` and keeps it.
    pub fn record_step(&mut self, done: bool) -> (to_update: Option<(usize, usize)>)
        requires
            old(self).wf(),
        ensures
            final(self).wf(),
            done ==> to_update == old(self).pending() && final(self).pending() is None,
            !done ==> to_update is None && final(self).pending() == old(self).pending(),
    {
        if done {
            let to_update = self.last_pair();
            self.prev_obs = None;
            self.prev_action = None;
            to_update
        } else {
            None
        }
    }

    /// The episode is over: nothing stays remembered.
    pub fn end_episode(&mut self)
        requires
            old(self).wf(),
        ensures
            final(self).wf(),
            final(self).pending() is None,
    {
        self.prev_obs = None;
        self.prev_action = None;
    }
}

} // verus!
