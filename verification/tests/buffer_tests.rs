use replay_rl::buffer::ReplayBuffer;
use replay_rl::errors::RlError;

#[test]
fn buffer_len_tracks_additions_up_to_capacity() {
    let mut buf: ReplayBuffer<i64, i64> = ReplayBuffer::new(4);
    assert_eq!(buf.len(), 0);
    assert!(buf.is_empty());
    for tag in 0..4i64 {
        buf.add(tag, tag, 1, false, tag + 1);
        assert_eq!(buf.len(), (tag + 1) as usize);
    }
    assert!(!buf.is_empty());
}

#[test]
fn buffer_overwrites_oldest_when_full() {
    // capacity 3, add 5 tagged transitions: exactly the 3 most recent stay
    let mut buf: ReplayBuffer<i64, i64> = ReplayBuffer::new(3);
    for tag in 0..5i64 {
        buf.add(tag, 0, 0, false, 0);
    }
    assert_eq!(buf.len(), 3);
    let batch = buf.sample(3).unwrap();
    let mut tags = batch.obs.clone();
    tags.sort();
    assert_eq!(tags, vec![2, 3, 4]);
}

#[test]
fn sample_returns_k_distinct_stored_transitions() {
    let mut buf: ReplayBuffer<i64, i64> = ReplayBuffer::new(10);
    for tag in 0..6i64 {
        buf.add(tag, tag * 10, tag, tag % 2 == 0, tag + 100);
    }
    let batch = buf.sample(4).unwrap();
    assert_eq!(batch.len(), 4);
    assert_eq!(batch.obs.len(), 4);
    assert_eq!(batch.act.len(), 4);
    assert_eq!(batch.rew.len(), 4);
    assert_eq!(batch.done.len(), 4);
    assert_eq!(batch.obs_next.len(), 4);
    let mut seen = batch.obs.clone();
    seen.sort();
    for w in 1..seen.len() {
        assert_ne!(seen[w - 1], seen[w], "an index was repeated within one draw");
    }
    for w in 0..4 {
        let tag = batch.obs[w];
        assert!((0..6).contains(&tag));
        assert_eq!(batch.act[w], tag * 10);
        assert_eq!(batch.rew[w], tag);
        assert_eq!(batch.done[w], tag % 2 == 0);
        assert_eq!(batch.obs_next[w], tag + 100);
    }
}

#[test]
fn sample_of_everything_is_exactly_the_store() {
    let mut buf: ReplayBuffer<i64, i64> = ReplayBuffer::new(5);
    for tag in 0..5i64 {
        buf.add(tag, 0, 0, false, 0);
    }
    let batch = buf.sample(5).unwrap();
    let mut tags = batch.obs.clone();
    tags.sort();
    assert_eq!(tags, vec![0, 1, 2, 3, 4]);
}

#[test]
fn oversized_sample_fails_and_leaves_buffer_unchanged() {
    let mut buf: ReplayBuffer<i64, i64> = ReplayBuffer::new(8);
    for tag in 0..3i64 {
        buf.add(tag, 0, 7, false, 0);
    }
    let r = buf.sample(4);
    assert!(matches!(r, Err(RlError::InsufficientData)));
    // the attempt changed nothing
    assert_eq!(buf.len(), 3);
    let batch = buf.sample(3).unwrap();
    let mut tags = batch.obs.clone();
    tags.sort();
    assert_eq!(tags, vec![0, 1, 2]);
}

#[test]
fn sample_zero_is_empty() {
    let mut buf: ReplayBuffer<i64, i64> = ReplayBuffer::new(2);
    buf.add(1, 1, 1, true, 1);
    let batch = buf.sample(0).unwrap();
    assert_eq!(batch.len(), 0);
}
