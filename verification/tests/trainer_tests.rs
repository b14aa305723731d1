use replay_rl::buffer::ReplayBuffer;
use replay_rl::collector::Collector;
use replay_rl::dqn::DQNPolicy;
use replay_rl::env::{EnvResult, Environment, Step};
use replay_rl::policy::RandomPolicy;
use replay_rl::trainer::Trainer;
use replay_rl::venv::DummyVectorEnv;

struct VecEnv {
    count: usize,
    max_steps: usize,
}

impl VecEnv {
    fn new(max_steps: usize) -> Self {
        Self { count: 0, max_steps }
    }
}

impl Environment for VecEnv {
    type Observation = Vec<i64>;
    type Action = i64;

    fn inv(&self) -> bool {
        true
    }

    fn step_ok(&self, _action: i64) -> bool {
        true
    }

    fn post_step(&self, _action: i64) -> Self {
        VecEnv { count: self.count + 1, max_steps: self.max_steps }
    }

    fn step_obs(&self, _action: i64) -> Vec<i64> {
        vec![(self.count + 1) as i64; 4]
    }

    fn step_reward(&self, _action: i64) -> i64 {
        1
    }

    fn step_done(&self, _action: i64) -> bool {
        self.count + 1 >= self.max_steps
    }

    fn reset_ok(&self) -> bool {
        true
    }

    fn post_reset(&self) -> Self {
        VecEnv { count: 0, max_steps: self.max_steps }
    }

    fn reset_obs(&self) -> Vec<i64> {
        vec![0; 4]
    }

    fn reset(&mut self) -> EnvResult<Vec<i64>> {
        self.count = 0;
        Ok(vec![0; 4])
    }

    fn step(&mut self, _action: &i64) -> EnvResult<Step<Vec<i64>>> {
        self.count += 1;
        let done = self.count >= self.max_steps;
        Ok(Step { obs: vec![self.count as i64; 4], reward: 1, done, info: None })
    }
}

fn params_of(vm: &candle_nn::VarMap) -> Vec<(String, Vec<f64>)> {
    let data = vm.data().lock().unwrap();
    let mut v: Vec<(String, Vec<f64>)> = data
        .iter()
        .map(|(k, var)| {
            (
                k.clone(),
                var.as_tensor()
                    .flatten_all()
                    .unwrap()
                    .to_vec1::<f64>()
                    .unwrap(),
            )
        })
        .collect();
    v.sort_by(|a, b| a.0.cmp(&b.0));
    v
}

#[test]
fn trainer_runs_with_a_random_policy() {
    let venv = DummyVectorEnv::new(vec![VecEnv::new(5)]);
    let collector = Collector::new(venv, RandomPolicy::new(), Some(ReplayBuffer::new(100)))
        .unwrap();
    let mut trainer = Trainer::new(collector, 3, 8, 4);
    trainer.train().unwrap();
}

#[test]
fn skipped_train_step_changes_neither_counter_nor_parameters() {
    let venv = DummyVectorEnv::new(vec![VecEnv::new(50)]);
    let policy = DQNPolicy::new(4, 8, 2, 99, 100, 50, 100, 1).unwrap();
    let mut collector = Collector::new(venv, policy, Some(ReplayBuffer::new(100))).unwrap();
    collector.collect(3).unwrap();
    assert_eq!(collector.get_buffer_len(), 3);
    let before = params_of(collector.policy().online_vars());

    // fewer stored transitions than the batch size: a total no-op
    collector.train_step(10).unwrap();
    assert_eq!(collector.policy().update_count(), 0);
    assert_eq!(before, params_of(collector.policy().online_vars()));

    // with enough data the update runs once
    collector.train_step(2).unwrap();
    assert_eq!(collector.policy().update_count(), 1);
}

#[test]
fn trainer_trains_a_dqn_end_to_end() {
    let venv = DummyVectorEnv::new(vec![VecEnv::new(6)]);
    let policy = DQNPolicy::new(4, 8, 2, 99, 100, 50, 100, 1).unwrap();
    let collector = Collector::new(venv, policy, Some(ReplayBuffer::new(200))).unwrap();
    let mut trainer = Trainer::new(collector, 2, 4, 8);
    trainer.train().unwrap();
}
