use replay_rl::batch::Batch;
use replay_rl::dqn::DQNPolicy;
use replay_rl::errors::RlError;

fn var_snapshot(vm: &candle_nn::VarMap) -> Vec<(String, Vec<f64>)> {
    let data = vm.data().lock().unwrap();
    let mut v: Vec<(String, Vec<f64>)> = data
        .iter()
        .map(|(k, var)| {
            (
                k.clone(),
                var.as_tensor()
                    .flatten_all()
                    .unwrap()
                    .to_vec1::<f64>()
                    .unwrap(),
            )
        })
        .collect();
    v.sort_by(|a, b| a.0.cmp(&b.0));
    v
}

fn small_batch() -> Batch<Vec<i64>, i64> {
    let obs = vec![vec![0; 4], vec![1; 4]];
    let next_obs = vec![vec![0; 4], vec![1; 4]];
    let act = vec![0, 1];
    let rew = vec![1, 0];
    let done = vec![false, true];
    Batch::new(obs, act, rew, done, next_obs)
}

#[test]
fn test_dqn_forward() {
    // exploration rate zero: purely greedy selection
    let policy = DQNPolicy::new(4, 16, 2, 99, 100, 0, 1, 1).unwrap();

    let obs1 = vec![0, 0, 0, 0];
    let obs2 = vec![1, 1, 1, 1];
    let obs_batch = vec![obs1, obs2];

    let actions = policy.forward(&obs_batch).unwrap();

    assert_eq!(actions.len(), 2);
    assert!(actions[0] == 0 || actions[0] == 1);
    assert!(actions[1] == 0 || actions[1] == 1);
}

#[test]
fn test_dqn_learn() {
    let mut policy = DQNPolicy::new(4, 16, 2, 99, 100, 10, 100, 1).unwrap();
    policy.learn(&small_batch()).unwrap();
    assert_eq!(policy.update_count(), 1);
}

#[test]
fn greedy_selection_is_deterministic_at_zero_exploration() {
    let policy = DQNPolicy::new(4, 16, 2, 99, 100, 0, 1, 1).unwrap();
    let obs_batch = vec![vec![3, 1, 4, 1], vec![2, 7, 1, 8], vec![0, 0, 0, 0]];
    let first = policy.forward(&obs_batch).unwrap();
    for _ in 0..20 {
        let again = policy.forward(&obs_batch).unwrap();
        assert_eq!(first, again);
    }
}

#[test]
fn full_exploration_is_uniform_regardless_of_values() {
    // exploration rate one: every action is a uniform draw
    let policy = DQNPolicy::new(4, 16, 2, 99, 100, 1, 1, 1).unwrap();
    let obs_batch = vec![vec![5, 5, 5, 5]];
    let mut ones = 0usize;
    let draws = 400usize;
    for _ in 0..draws {
        let actions = policy.forward(&obs_batch).unwrap();
        assert!(actions[0] == 0 || actions[0] == 1);
        if actions[0] == 1 {
            ones += 1;
        }
    }
    // a fair draw stays far from both extremes
    assert!(ones > 100 && ones < 300, "uniform draw looks biased: {} of {}", ones, draws);
}

#[test]
fn target_set_matches_online_set_at_construction() {
    let policy = DQNPolicy::new(4, 16, 2, 99, 100, 0, 1, 1).unwrap();
    let online = var_snapshot(policy.online_vars());
    let target = var_snapshot(policy.target_vars());
    assert!(!online.is_empty());
    assert_eq!(online, target);
}

#[test]
fn target_set_is_untouched_between_syncs_while_online_learns() {
    // period 100: the first learning call syncs, later ones do not
    let mut policy = DQNPolicy::new(4, 16, 2, 99, 100, 10, 100, 1).unwrap();
    policy.learn(&small_batch()).unwrap();
    let target_after_first = var_snapshot(policy.target_vars());
    let online_after_first = var_snapshot(policy.online_vars());
    policy.learn(&small_batch()).unwrap();
    policy.learn(&small_batch()).unwrap();
    assert_eq!(policy.update_count(), 3);
    // the online set moved, the target set did not
    assert_ne!(online_after_first, var_snapshot(policy.online_vars()));
    assert_eq!(target_after_first, var_snapshot(policy.target_vars()));
}

#[test]
fn out_of_range_action_is_a_numeric_failure() {
    let mut policy = DQNPolicy::new(4, 16, 2, 99, 100, 10, 100, 1).unwrap();
    let batch = Batch::new(
        vec![vec![0; 4]],
        vec![-1],
        vec![0],
        vec![false],
        vec![vec![0; 4]],
    );
    let r = policy.learn(&batch);
    assert!(matches!(r, Err(RlError::NumericFailure(_))));
    assert_eq!(policy.update_count(), 0);
}
