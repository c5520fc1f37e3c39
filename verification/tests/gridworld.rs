use learn::envs::gridworld::{GridWorld, GOAL_REWARD, HOLE_REWARD, STEP_REWARD};

#[test]
fn test_gridworld() {
    let mut env = GridWorld::default();
    let s = env.reset(None);
    assert_eq!(s, 0);
    let step = env.step(&1);
    assert_eq!(step.observation, 1);
    assert_eq!(step.reward as f32, -1.0);
}

#[test]
fn test_gridworld_hole_termination() {
    let mut env = GridWorld::new(4, vec![5], 0);
    env.reset(None);
    // Move to state 5 via path: 0 -> 1 -> 5 (right, down)
    let _ = env.step(&1);
    let step = env.step(&2);
    assert!(step.terminated);
    assert_eq!(step.reward as f32, -10.0);
}

#[test]
fn gridworld_walls_keep_agent_in_place() {
    let mut env = GridWorld::new(3, vec![], 0);
    env.reset(None);
    let up = env.step(&0);
    assert_eq!(up.observation, 0);
    let left = env.step(&3);
    assert_eq!(left.observation, 0);
    assert_eq!(left.reward, STEP_REWARD);
    assert!(!left.terminated);
    assert!(!left.truncated);
}

#[test]
fn gridworld_unknown_action_does_not_move() {
    let mut env = GridWorld::new(3, vec![], 0);
    env.reset(None);
    env.step(&1);
    let step = env.step(&7);
    assert_eq!(step.observation, 1);
}

#[test]
fn gridworld_reaches_goal() {
    let mut env = GridWorld::new(3, vec![], 0);
    env.reset(Some(5));
    let mut last = env.step(&1);
    last = if last.terminated { last } else { env.step(&1) };
    assert_eq!(last.observation, 2);
    let right_wall = env.step(&1);
    assert_eq!(right_wall.observation, 2);
    env.step(&2);
    let goal = env.step(&2);
    assert_eq!(goal.observation, 8);
    assert_eq!(goal.reward, GOAL_REWARD);
    assert!(goal.terminated);
    let bottom_wall = env.step(&2);
    assert_eq!(bottom_wall.observation, 8);
}

#[test]
fn gridworld_default_layout() {
    let mut env = GridWorld::default();
    assert_eq!(env.observation_space().n, 16);
    assert_eq!(env.action_space().n, 4);
    assert_eq!(env.observation_space().shape(), vec![16]);
    env.reset(None);
    env.step(&2);
    let hole = env.step(&2);
    assert_eq!(hole.observation, 8);
    assert!(!hole.terminated);
    let hole = env.step(&2);
    assert_eq!(hole.observation, 12);
    assert_eq!(hole.reward, HOLE_REWARD);
    assert!(hole.terminated);
}

#[test]
fn gridworld_reset_returns_start() {
    let mut env = GridWorld::new(2, vec![], 1);
    env.step(&2);
    assert_eq!(env.reset(Some(9)), 0);
    let step = env.step(&1);
    assert_eq!(step.observation, 1);
}

#[test]
fn gridworld_single_cell_is_goal() {
    let mut env = GridWorld::new(1, vec![], 0);
    assert_eq!(env.reset(None), 0);
    let step = env.step(&0);
    assert_eq!(step.observation, 0);
    assert_eq!(step.reward, GOAL_REWARD);
    assert!(step.terminated);
}
