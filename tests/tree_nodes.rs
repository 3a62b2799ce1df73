use fishgame::behaviour::{Action, Predicate};
use fishgame::input::GameInput;
use fishgame::tree::{Node, NodeState, Status, Tree};
use fishgame::world::{Character, Pickup, WorldView};

fn character(entity: u64, index: u8, x: i32, y: i32, armed: bool) -> Character {
    Character { entity, index, x, y, respawning: false, armed }
}

/// The agent alone at `x`, with pickups at the given places.
fn alone(x: i32, armed: bool, pickups: Vec<(i32, i32)>) -> WorldView {
    WorldView {
        characters: vec![character(1, 0, x, 0, armed)],
        pickups: pickups.into_iter().map(|(x, y)| Pickup { x, y }).collect(),
        clear_line: vec![true],
    }
}

fn leaf(action: Action) -> Node {
    Node::Leaf { action }
}

fn idle() -> NodeState {
    NodeState { index: None, running: false }
}

fn tick(tree: &mut Tree, w: &WorldView) -> (Status, GameInput) {
    let mut c = GameInput::new();
    let r = tree.evaluate(w, 0, &mut c);
    (r, c)
}

#[test]
fn new_input_is_clear() {
    let c = GameInput::new();
    assert!(!c.left && !c.right && !c.down && !c.jump);
    assert!(!c.glide && !c.pickup && !c.fire && !c.slide);
}

#[test]
fn malformed_trees_are_refused() {
    assert!(Tree::new(vec![]).is_none());
    assert!(Tree::new(vec![Node::Sequence { children: vec![], stop_on_success: false }]).is_none());
    assert!(Tree::new(vec![Node::Inverter { child: 0 }]).is_none());
    assert!(Tree::new(vec![Node::Inverter { child: 1 }]).is_none());
    assert!(Tree::new(vec![leaf(Action::Wander), Node::Inverter { child: 0 }]).is_none());
    assert!(Tree::new(vec![
        Node::Guard { predicate: Predicate::HasWeapon, reevaluate: true, child: 2 },
        leaf(Action::Wander),
    ])
    .is_none());
    let t = Tree::new(vec![
        Node::Sequence { children: vec![1, 2], stop_on_success: false },
        leaf(Action::Wander),
        leaf(Action::Pickup),
    ])
    .unwrap();
    assert_eq!(t.len(), 3);
    assert_eq!(t.node_state(0), Some(idle()));
    assert_eq!(t.node_state(3), None);
}

#[test]
fn all_of_sequence_fails_at_first_failure() {
    // Engage fails (nobody to fight); the pickup after it must not run.
    let mut t = Tree::new(vec![
        Node::Sequence { children: vec![1, 2], stop_on_success: false },
        leaf(Action::Engage),
        leaf(Action::Pickup),
    ])
    .unwrap();
    let (r, c) = tick(&mut t, &alone(0, true, vec![]));
    assert_eq!(r, Status::Failed);
    assert!(!c.pickup && !c.fire);
    assert_eq!(t.node_state(0), Some(idle()));
}

#[test]
fn all_of_sequence_succeeds_when_all_succeed() {
    let mut t = Tree::new(vec![
        Node::Sequence { children: vec![1, 2], stop_on_success: false },
        leaf(Action::Wander),
        leaf(Action::Pickup),
    ])
    .unwrap();
    let (r, c) = tick(&mut t, &alone(0, false, vec![]));
    assert_eq!(r, Status::Succeeded);
    assert!(c.pickup);
    assert_eq!(t.node_state(0), Some(idle()));
}

#[test]
fn selector_stops_at_first_success() {
    let mut t = Tree::new(vec![
        Node::Sequence { children: vec![1, 2], stop_on_success: true },
        leaf(Action::Wander),
        leaf(Action::Pickup),
    ])
    .unwrap();
    let (r, c) = tick(&mut t, &alone(0, false, vec![]));
    assert_eq!(r, Status::Succeeded);
    assert!(!c.pickup);
}

#[test]
fn selector_fails_when_all_fail() {
    let mut t = Tree::new(vec![
        Node::Sequence { children: vec![1, 2], stop_on_success: true },
        leaf(Action::Engage),
        leaf(Action::ApproachWeapon),
    ])
    .unwrap();
    let (r, c) = tick(&mut t, &alone(0, true, vec![]));
    assert_eq!(r, Status::Failed);
    assert_eq!(c, GameInput::new());
    assert_eq!(t.node_state(0), Some(idle()));
}

#[test]
fn selector_falls_through_within_one_tick() {
    let mut t = Tree::new(vec![
        Node::Sequence { children: vec![1, 2, 3], stop_on_success: true },
        leaf(Action::Engage),
        leaf(Action::ApproachWeapon),
        leaf(Action::Pickup),
    ])
    .unwrap();
    let (r, c) = tick(&mut t, &alone(0, true, vec![]));
    assert_eq!(r, Status::Succeeded);
    assert!(c.pickup);
}

#[test]
fn running_child_suspends_and_resumes_sequence() {
    let mut t = Tree::new(vec![
        Node::Sequence { children: vec![1, 2, 3], stop_on_success: false },
        leaf(Action::Pickup),
        leaf(Action::ApproachWeapon),
        leaf(Action::Wander),
    ])
    .unwrap();
    let (r, c) = tick(&mut t, &alone(0, false, vec![(100, 0)]));
    assert_eq!(r, Status::Running);
    assert!(c.pickup && c.right && !c.left);
    assert_eq!(t.node_state(0), Some(NodeState { index: Some(1), running: false }));
    // Next tick resumes at the running child: the pickup before it is not asked again.
    let (r, c) = tick(&mut t, &alone(50, false, vec![(100, 0)]));
    assert_eq!(r, Status::Running);
    assert!(!c.pickup && c.right);
    let (r, c) = tick(&mut t, &alone(99, false, vec![(100, 0)]));
    assert_eq!(r, Status::Succeeded);
    assert!(!c.pickup && !c.right && !c.left);
    assert_eq!(t.node_state(0), Some(idle()));
    // A fresh run starts from the first child again.
    let (r, c) = tick(&mut t, &alone(99, false, vec![(100, 0)]));
    assert_eq!(r, Status::Succeeded);
    assert!(c.pickup);
}

#[test]
fn inverter_swaps_results() {
    let mut ok = Tree::new(vec![Node::Inverter { child: 1 }, leaf(Action::Wander)]).unwrap();
    assert_eq!(tick(&mut ok, &alone(0, false, vec![])).0, Status::Failed);
    let mut bad = Tree::new(vec![Node::Inverter { child: 1 }, leaf(Action::Engage)]).unwrap();
    assert_eq!(tick(&mut bad, &alone(0, true, vec![])).0, Status::Succeeded);
    let mut run = Tree::new(vec![Node::Inverter { child: 1 }, leaf(Action::ApproachWeapon)]).unwrap();
    let (r, c) = tick(&mut run, &alone(0, false, vec![(-40, 0)]));
    assert_eq!(r, Status::Running);
    assert!(c.left);
}

#[test]
fn double_inversion_is_identity() {
    let mut t = Tree::new(vec![
        Node::Inverter { child: 1 },
        Node::Inverter { child: 2 },
        leaf(Action::Pickup),
    ])
    .unwrap();
    let (r, c) = tick(&mut t, &alone(0, false, vec![]));
    assert_eq!(r, Status::Succeeded);
    assert!(c.pickup);
}

#[test]
fn guard_with_false_predicate_fails_without_child() {
    let mut t = Tree::new(vec![
        Node::Guard { predicate: Predicate::HasWeapon, reevaluate: false, child: 1 },
        leaf(Action::Pickup),
    ])
    .unwrap();
    let (r, c) = tick(&mut t, &alone(0, false, vec![]));
    assert_eq!(r, Status::Failed);
    assert!(!c.pickup);
    let (r, c) = tick(&mut t, &alone(0, true, vec![]));
    assert_eq!(r, Status::Succeeded);
    assert!(c.pickup);
}

#[test]
fn running_guard_without_reevaluation_follows_child() {
    let mut t = Tree::new(vec![
        Node::Guard { predicate: Predicate::HasWeapon, reevaluate: false, child: 1 },
        leaf(Action::ApproachWeapon),
    ])
    .unwrap();
    let (r, _) = tick(&mut t, &alone(0, true, vec![(30, 0)]));
    assert_eq!(r, Status::Running);
    assert_eq!(t.node_state(0), Some(NodeState { index: None, running: true }));
    // The predicate no longer holds, but a running guard does not test it.
    let (r, c) = tick(&mut t, &alone(10, false, vec![(30, 0)]));
    assert_eq!(r, Status::Running);
    assert!(c.right);
    let (r, _) = tick(&mut t, &alone(30, false, vec![(30, 0)]));
    assert_eq!(r, Status::Succeeded);
    assert_eq!(t.node_state(0), Some(idle()));
    // Idle again: the predicate is tested.
    assert_eq!(tick(&mut t, &alone(30, false, vec![(30, 0)])).0, Status::Failed);
}

#[test]
fn reevaluating_guard_fails_when_predicate_turns_false() {
    let mut t = Tree::new(vec![
        Node::Guard { predicate: Predicate::HasWeapon, reevaluate: true, child: 1 },
        leaf(Action::ApproachWeapon),
    ])
    .unwrap();
    assert_eq!(tick(&mut t, &alone(0, true, vec![(30, 0)])).0, Status::Running);
    let (r, c) = tick(&mut t, &alone(10, false, vec![(30, 0)]));
    assert_eq!(r, Status::Failed);
    assert!(!c.right && !c.left);
    assert_eq!(t.node_state(0), Some(idle()));
}

#[test]
fn stale_child_progress_survives_failed_guard() {
    // The guard fails while its sequence child is mid-run; the child keeps its progress.
    let mut t = Tree::new(vec![
        Node::Guard { predicate: Predicate::HasWeapon, reevaluate: true, child: 1 },
        Node::Sequence { children: vec![2, 3], stop_on_success: false },
        leaf(Action::Wander),
        leaf(Action::ApproachWeapon),
    ])
    .unwrap();
    assert_eq!(tick(&mut t, &alone(0, true, vec![(30, 0)])).0, Status::Running);
    assert_eq!(tick(&mut t, &alone(0, false, vec![(30, 0)])).0, Status::Failed);
    assert_eq!(t.node_state(1), Some(NodeState { index: Some(1), running: false }));
}
