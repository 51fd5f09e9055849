use rust_rl::agents::dqn_agent::{layer_sizes, HIDDEN_UNITS};
use rust_rl::agents::q_agent::QAgent;
use rust_rl::space::SpaceDims;

fn dims(discrete: Vec<usize>, continuous: usize) -> SpaceDims {
    SpaceDims { discrete, continuous }
}

fn grid_agent() -> QAgent<f32> {
    let mut agent = QAgent::new(0.05f32, 0.1, 0.9);
    assert!(agent.try_init(&dims(vec![9, 9], 0), &dims(vec![4], 0), 0.0));
    agent
}

#[test]
fn table_length_is_product_of_spaces() {
    let agent = grid_agent();
    assert_eq!(agent.q_table().len(), 81 * 4);
    assert!(agent.q_table().iter().all(|&q| q == 0.0));
    assert_eq!(agent.state_space_size(), 81);
    assert_eq!(agent.action_space_size(), 4);

    let mut tic = QAgent::new(0.05f32, 0.1, 0.9);
    let board = vec![3, 3, 3, 3, 3, 3, 3, 3, 3, 2];
    assert!(tic.try_init(&dims(board, 0), &dims(vec![3, 3], 0), 0.0));
    assert_eq!(tic.q_table().len(), 39366 * 9);
}

#[test]
fn continuous_spaces_are_refused() {
    let mut agent = QAgent::new(0.05f32, 0.1, 0.9);
    assert!(!agent.try_init(&dims(vec![9, 9], 1), &dims(vec![4], 0), 0.0));
    assert!(!agent.try_init(&dims(vec![9, 9], 0), &dims(vec![4], 2), 0.0));
    assert!(!agent.try_init(&dims(vec![usize::MAX, 2], 0), &dims(vec![1], 0), 0.0));
    assert!(!agent.try_init(&dims(vec![1 << 40], 0), &dims(vec![1 << 40], 0), 0.0));
    assert!(!agent.is_initialized());
    assert!(agent.q_table().is_empty());
}

#[test]
fn empty_dimension_gives_empty_table() {
    let mut agent = QAgent::new(0.05f32, 0.1, 0.9);
    assert!(agent.try_init(&dims(vec![9, 0], 0), &dims(vec![4], 0), 0.0));
    assert!(agent.is_initialized());
    assert_eq!(agent.q_table().len(), 0);
    assert_eq!(agent.state_space_size(), 0);
    assert_eq!(agent.action_space_size(), 4);

    let mut no_dims = QAgent::new(0.05f32, 0.1, 0.9);
    assert!(no_dims.try_init(&dims(vec![], 0), &dims(vec![], 0), 0.0));
    assert!(no_dims.is_initialized());
    assert_eq!(no_dims.q_table().len(), 1);
    assert_eq!(no_dims.predict(&[]), Vec::<usize>::new());
}

#[test]
fn predictions_for_every_state() {
    let mut agent = QAgent::new(0i64, 1, 1);
    assert!(agent.try_init(&dims(vec![2, 2], 0), &dims(vec![3], 0), 0));
    agent.set_q_val(&[1, 0], &[2], 7);
    agent.set_q_val(&[0, 1], &[1], 1);
    let all = agent.predict_all();
    assert_eq!(
        all,
        vec![
            (vec![0, 0], vec![0]),
            (vec![0, 1], vec![1]),
            (vec![1, 0], vec![2]),
            (vec![1, 1], vec![0]),
        ]
    );
}

#[test]
fn q_values_are_stored_at_their_pair() {
    let mut agent = grid_agent();
    agent.set_q_val(&[1, 2], &[3], 7.5);
    assert_eq!(agent.q_val(&[1, 2], &[3]), 7.5);
    assert_eq!(agent.q_table()[(9 + 2) * 4 + 3], 7.5);
    assert_eq!(agent.q_val(&[1, 2], &[2]), 0.0);
}

#[test]
fn predict_picks_first_of_equal_maxima() {
    let mut agent = grid_agent();
    assert_eq!(agent.predict(&[0, 0]), vec![0]);
    agent.set_q_val(&[0, 0], &[1], 2.0);
    agent.set_q_val(&[0, 0], &[3], 2.0);
    assert_eq!(agent.predict(&[0, 0]), vec![1]);
    assert_eq!(agent.max_q(&[0, 0]), 2.0);
    agent.set_q_val(&[0, 0], &[3], 2.5);
    assert_eq!(agent.predict(&[0, 0]), vec![3]);
    assert_eq!(agent.max_q(&[0, 0]), 2.5);
}

#[test]
fn acting_without_exploration_is_predicting() {
    let mut agent = QAgent::new(0i32, 1, 1);
    assert!(agent.try_init(&dims(vec![2], 0), &dims(vec![2, 3], 0), 0));
    agent.set_q_val(&[1], &[1, 1], 4);
    agent.set_q_val(&[1], &[0, 2], -3);
    for _ in 0..20 {
        assert_eq!(agent.act(&[1], false), agent.predict(&[1]));
    }
    assert_eq!(agent.predict(&[1]), vec![1, 1]);
    for _ in 0..50 {
        let a = agent.act(&[1], true);
        assert!(a[0] < 2 && a[1] < 3);
    }
}

#[test]
fn parts_round_trip() {
    let mut agent = grid_agent();
    agent.set_q_val(&[4, 4], &[0], 100.0);
    let rebuilt = QAgent::from_parts(
        agent.q_table().clone(),
        agent.epsilon(),
        agent.alpha(),
        agent.gamma(),
        agent.state_space().clone(),
        agent.state_space_size(),
        agent.action_space().clone(),
        agent.action_space_size(),
    )
    .expect("consistent parts");
    assert_eq!(rebuilt.q_table(), agent.q_table());
    assert_eq!(rebuilt.state_space(), agent.state_space());
    assert_eq!(rebuilt.action_space(), agent.action_space());
    assert_eq!(rebuilt.epsilon(), 0.05);
    assert_eq!(rebuilt.alpha(), 0.1);
    assert_eq!(rebuilt.gamma(), 0.9);
}

#[test]
fn inconsistent_parts_are_rejected() {
    let table = vec![0.0f32; 10];
    assert!(QAgent::from_parts(table.clone(), 0.1, 0.1, 0.9, vec![3], 3, vec![3], 3).is_none());
    assert!(QAgent::from_parts(table, 0.1, 0.1, 0.9, vec![5], 5, vec![2], 2).is_some());
    assert!(QAgent::from_parts(vec![0.0f32; 10], 0.1, 0.1, 0.9, vec![5], 4, vec![2], 2).is_none());
    assert!(QAgent::from_parts(Vec::<f32>::new(), 0.1, 0.1, 0.9, vec![], 0, vec![], 0).is_some());
    assert!(QAgent::from_parts(Vec::<f32>::new(), 0.1, 0.1, 0.9, vec![0], 0, vec![2], 2).is_some());
    assert!(QAgent::from_parts(vec![0.0f32], 0.1, 0.1, 0.9, vec![], 1, vec![], 1).is_some());
}

#[test]
fn serialized_table_in_pieces() {
    let mut agent = QAgent::new(0u32, 0, 0);
    assert!(agent.try_init(&dims(vec![3], 0), &dims(vec![2], 0), 0));
    agent.set_q_val(&[1], &[1], 9);
    let pieces = agent.serialize_q_table();
    assert_eq!(pieces, vec![vec![0, 0, 0], vec![9, 0, 0]]);
}

#[test]
fn network_layer_sizes() {
    assert_eq!(
        layer_sizes(&dims(vec![9, 9], 2), &dims(vec![3, 3], 0)),
        Some(vec![4, HIDDEN_UNITS, 9])
    );
    assert_eq!(layer_sizes(&dims(vec![9, 9], 0), &dims(vec![4], 1)), None);
}

fn q_learning_rule(alpha: f32, gamma: f32, reward: f32) -> impl Fn(f32, f32) -> f32 {
    move |q, future| q + alpha * (reward + gamma * future - q)
}

#[test]
fn terminal_update_example() {
    let mut agent = QAgent::new(0.0f32, 0.5, 0.9);
    assert!(agent.try_init(&dims(vec![3], 0), &dims(vec![2], 0), 0.0));
    let rule = q_learning_rule(agent.alpha(), agent.gamma(), 5.0);
    agent.learn(&[1], &[0], None, 0.0, rule);
    assert_eq!(agent.q_val(&[1], &[0]), 2.5);
    assert_eq!(agent.q_val(&[1], &[1]), 0.0);
}

#[test]
fn update_uses_best_value_of_next_state() {
    let mut agent = QAgent::new(0.0f32, 0.5, 0.5);
    assert!(agent.try_init(&dims(vec![3], 0), &dims(vec![2], 0), 0.0));
    agent.set_q_val(&[2], &[1], 4.0);
    agent.set_q_val(&[2], &[0], -1.0);
    let rule = q_learning_rule(agent.alpha(), agent.gamma(), 1.0);
    agent.learn(&[0], &[1], Some(&[2]), 0.0, rule);
    // 0 + 0.5 * (1 + 0.5 * 4 - 0) = 1.5
    assert_eq!(agent.q_val(&[0], &[1]), 1.5);
}
