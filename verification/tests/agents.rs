use learn::agents::dqn::{record_transition, DqnSchedule};
use learn::buffer::ReplayBuffer;
use learn::agents::sarsa::SarsaTrace;

#[test]
fn sarsa_trace_updates_previous_pair() {
    let mut t = SarsaTrace::new();
    assert_eq!(t.last_pair(), None);
    assert_eq!(t.record_action(0, 1), None);
    assert_eq!(t.record_step(false), None);
    assert_eq!(t.last_pair(), Some((0, 1)));
    assert_eq!(t.record_action(3, 2), Some((0, 1)));
    assert_eq!(t.last_pair(), Some((3, 2)));
}

#[test]
fn sarsa_trace_terminal_step_flushes() {
    let mut t = SarsaTrace::new();
    t.record_action(4, 0);
    assert_eq!(t.record_step(true), Some((4, 0)));
    assert_eq!(t.last_pair(), None);
    assert_eq!(t.record_step(true), None);
    assert_eq!(t.record_action(5, 3), None);
}

#[test]
fn sarsa_trace_episode_end_forgets() {
    let mut t = SarsaTrace::new();
    t.record_action(2, 2);
    t.end_episode();
    assert_eq!(t.last_pair(), None);
    assert_eq!(t.record_action(1, 1), None);
}

#[test]
fn dqn_schedule_trains_once_buffer_holds_a_batch() {
    let mut s = DqnSchedule::new(3, 100);
    assert!(!s.record_step(1));
    assert!(!s.record_step(2));
    assert!(s.record_step(3));
    assert!(s.record_step(3));
    assert_eq!(s.step_count(), 4);
}

#[test]
fn dqn_schedule_syncs_every_period() {
    let mut s = DqnSchedule::new(1, 3);
    let mut syncs = Vec::new();
    for _ in 0..7 {
        s.record_step(0);
        syncs.push(s.sync_due());
    }
    assert_eq!(syncs, vec![false, false, true, false, false, true, false]);
}

#[test]
fn dqn_record_transition_stores_and_counts() {
    let mut buffer: ReplayBuffer<usize> = ReplayBuffer::new(2);
    let mut s = DqnSchedule::new(2, 5);
    assert!(!record_transition(&mut buffer, &mut s, 10));
    assert!(record_transition(&mut buffer, &mut s, 11));
    assert!(record_transition(&mut buffer, &mut s, 12));
    assert_eq!(buffer.len(), 2);
    assert_eq!(s.step_count(), 3);
    assert_eq!(buffer.sample_with(&[0, 1]), vec![12, 11]);
    assert!(!s.sync_due());
}
