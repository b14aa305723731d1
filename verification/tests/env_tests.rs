use replay_rl::env::Environment;
use replay_rl::errors::RlError;
use replay_rl::mock::MockEnv;
use replay_rl::venv::{DummyVectorEnv, VectorEnv};

#[test]
fn mock_env_counts_and_finishes() {
    let mut env = MockEnv::new(3);
    assert_eq!(env.reset().unwrap(), 0);
    let s1 = env.step(&()).unwrap();
    assert_eq!(s1.obs, 1);
    assert_eq!(s1.reward, 1);
    assert!(!s1.done);
    let s2 = env.step(&()).unwrap();
    assert!(!s2.done);
    let s3 = env.step(&()).unwrap();
    assert_eq!(s3.obs, 3);
    assert!(s3.done);
}

#[test]
fn auto_reset_returns_fresh_observation_on_done() {
    // max-steps 5, +1 reward per step: the 5th step reports done and its
    // observation already reflects a fresh reset
    let mut venv = DummyVectorEnv::new(vec![MockEnv::new(5)]);
    let actions = vec![()];
    for step_no in 1..=4 {
        let steps = venv.step(&actions).unwrap();
        assert_eq!(steps.len(), 1);
        assert!(!steps[0].done);
        assert_eq!(steps[0].reward, 1);
        assert_eq!(steps[0].obs, step_no as u64);
    }
    let steps = venv.step(&actions).unwrap();
    assert!(steps[0].done);
    assert_eq!(steps[0].reward, 1);
    let after_reset = steps[0].obs;
    let explicit = venv.reset().unwrap();
    assert_eq!(after_reset, explicit[0]);
    assert_eq!(after_reset, 0);
}

#[test]
fn arity_mismatch_is_reported() {
    let mut venv = DummyVectorEnv::new(vec![MockEnv::new(5)]);
    let r = venv.step(&vec![(), ()]);
    assert!(matches!(r, Err(RlError::ArityMismatch)));
    // the state is untouched: a correct call still works
    let steps = venv.step(&vec![()]).unwrap();
    assert_eq!(steps[0].obs, 1);
}

#[test]
fn vector_reset_is_index_aligned() {
    let mut venv = DummyVectorEnv::new(vec![MockEnv::new(2), MockEnv::new(7)]);
    assert_eq!(venv.len(), 2);
    let obs = venv.reset().unwrap();
    assert_eq!(obs, vec![0, 0]);
    let steps = venv.step(&vec![(), ()]).unwrap();
    assert_eq!(steps.len(), 2);
    assert_eq!(steps[0].obs, 1);
    assert_eq!(steps[1].obs, 1);
}
