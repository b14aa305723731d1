use replay_rl::batch::Batch;
use replay_rl::buffer::ReplayBuffer;
use replay_rl::collector::Collector;
use replay_rl::errors::RlError;
use replay_rl::mock::MockEnv;
use replay_rl::policy::Policy;
use replay_rl::venv::{DummyVectorEnv, VectorEnv};

struct MockPolicy;

impl Policy for MockPolicy {
    type Observation = u64;
    type Action = ();

    fn inv(&self) -> bool {
        true
    }

    fn learned(_pre: Self, _batch: Batch<u64, ()>, _post: Self, _r: Result<(), RlError>) -> bool {
        true
    }

    fn forward(&mut self, obs: &Vec<u64>) -> Result<Vec<()>, RlError> {
        Ok(vec![(); obs.len()])
    }

    fn learn(&mut self, _batch: &Batch<u64, ()>) -> Result<(), RlError> {
        Ok(())
    }
}

#[test]
fn test_collector_basic() {
    // two instances, 5 steps each to complete an episode, reward one unit
    // per step: collect(10) finishes one episode per instance
    let venv = DummyVectorEnv::new(vec![MockEnv::new(5), MockEnv::new(5)]);
    let policy = MockPolicy;
    let buffer = ReplayBuffer::new(100);
    let mut collector = Collector::new(venv, policy, Some(buffer)).unwrap();

    let rewards = collector.collect(10).unwrap();

    assert_eq!(collector.get_buffer_len(), 10);
    assert_eq!(rewards.len(), 2);
    assert_eq!(rewards[0], 5);
    assert_eq!(rewards[1], 5);
}

#[test]
fn collect_rounds_up_to_a_full_vector_step() {
    let venv = DummyVectorEnv::new(vec![MockEnv::new(100), MockEnv::new(100)]);
    let mut collector = Collector::new(venv, MockPolicy, Some(ReplayBuffer::new(50))).unwrap();
    // 3 requested, 2 slots per iteration: 2 iterations, 4 transitions
    collector.collect(3).unwrap();
    assert_eq!(collector.get_buffer_len(), 4);
    // 0 requested: nothing happens
    let rets = collector.collect(0).unwrap();
    assert!(rets.is_empty());
    assert_eq!(collector.get_buffer_len(), 4);
}

#[test]
fn collect_without_buffer_still_accounts_episodes() {
    let venv = DummyVectorEnv::new(vec![MockEnv::new(2)]);
    let mut collector = Collector::new(venv, MockPolicy, None).unwrap();
    let rewards = collector.collect(4).unwrap();
    assert_eq!(collector.get_buffer_len(), 0);
    assert_eq!(rewards, vec![2, 2]);
}

#[test]
fn transitions_record_prior_observation_and_post_reset_next() {
    let mut venv = DummyVectorEnv::new(vec![MockEnv::new(2)]);
    let mut buf: ReplayBuffer<u64, ()> = ReplayBuffer::new(10);
    let mut obs = venv.reset().unwrap();
    for _ in 0..2 {
        let steps = venv.step(&vec![()]).unwrap();
        buf.add(obs[0], (), steps[0].reward, steps[0].done, steps[0].obs);
        obs[0] = steps[0].obs;
    }
    let batch = buf.sample(2).unwrap();
    // first transition: from observation 0 to 1, not done; second: from 1,
    // done, and the next observation is already the post-reset one
    let mut rows: Vec<(u64, i64, bool, u64)> = Vec::new();
    for w in 0..batch.len() {
        rows.push((batch.obs[w], batch.rew[w], batch.done[w], batch.obs_next[w]));
    }
    rows.sort();
    assert_eq!(rows, vec![(0, 1, false, 1), (1, 1, true, 0)]);
}

#[test]
fn train_step_skips_when_data_is_insufficient() {
    let venv = DummyVectorEnv::new(vec![MockEnv::new(5)]);
    let mut collector = Collector::new(venv, MockPolicy, Some(ReplayBuffer::new(10))).unwrap();
    collector.collect(2).unwrap();
    assert_eq!(collector.get_buffer_len(), 2);
    // fewer transitions than the batch size: a silent, total no-op
    collector.train_step(8).unwrap();
    assert_eq!(collector.get_buffer_len(), 2);
    // enough transitions: the learning step runs (MockPolicy accepts it)
    collector.train_step(2).unwrap();
}
