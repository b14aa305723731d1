use crate::env::{EnvResult, Environment, Step};
use vstd::prelude::*;

verus! {

/// A deterministic test environment: the observation counts the steps
/// taken since the last reset, every step earns one reward unit, and the
/// episode ends once `max_steps` steps have been taken.
#[derive(Debug, Clone)]
pub struct MockEnv {
    pub obs: u64,
    pub count: usize,
    pub max_steps: usize,
}

impl MockEnv {
    pub fn new(max_steps: usize) -> (e: Self)
        ensures
            e.inv(),
            e == (MockEnv { obs: 0u64, count: 0usize, max_steps }),
    {
        Self { obs: 0, count: 0, max_steps }
    }
}

impl Environment for MockEnv {
    type Observation = u64;

    type Action = ();

    open spec fn inv(&self) -> bool {
        self.obs == self.count as u64
    }

    open spec fn step_ok(&self, a: ()) -> bool {
        self.count < usize::MAX
    }

    open spec fn post_step(&self, a: ()) -> Self {
        MockEnv {
            obs: (self.count + 1) as u64,
            count: (self.count + 1) as usize,
            max_steps: self.max_steps,
        }
    }

    open spec fn step_obs(&self, a: ()) -> u64 {
        (self.count + 1) as u64
    }

    open spec fn step_reward(&self, a: ()) -> i64 {
        1
    }

    open spec fn step_done(&self, a: ()) -> bool {
        self.count + 1 >= self.max_steps
    }

    open spec fn reset_ok(&self) -> bool {
        true
    }

    open spec fn post_reset(&self) -> Self {
        MockEnv { obs: 0u64, count: 0usize, max_steps: self.max_steps }
    }

    open spec fn reset_obs(&self) -> u64 {
        0
    }

    open spec fn step_err(&self, a: ()) -> Seq<char> {
        "step counter exhausted"@
    }

    fn reset(&mut self) -> (r: EnvResult<u64>) {
        self.obs = 0;
        self.count = 0;
        Ok(0)
    }

    fn step(&mut self, a: &()) -> (r: EnvResult<Step<u64>>)
        ensures
            r matches Ok(s) ==> s.info is None,
    {
        if self.count == usize::MAX {
            return Err("step counter exhausted".to_string());
        }
        self.count = self.count + 1;
        self.obs = self.obs + 1;
        let done = self.count >= self.max_steps;
        Ok(Step { obs: self.obs, reward: 1, done, info: None })
    }
}

} // verus!
