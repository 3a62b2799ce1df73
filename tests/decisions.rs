use fishgame::ai::Ai;
use fishgame::input::GameInput;
use fishgame::tree::{Status, Tree};
use fishgame::world::{Character, Pickup, WorldView};
use fishgame::GameType;

fn character(entity: u64, index: u8, x: i32, y: i32, armed: bool) -> Character {
    Character { entity, index, x, y, respawning: false, armed }
}

fn view(characters: Vec<Character>, pickups: Vec<(i32, i32)>, clear: bool) -> WorldView {
    let n = characters.len();
    WorldView {
        characters,
        pickups: pickups.into_iter().map(|(x, y)| Pickup { x, y }).collect(),
        clear_line: vec![clear; n],
    }
}

fn decide(w: &WorldView, me: usize) -> (Status, GameInput) {
    let mut t = Tree::decision();
    let mut c = GameInput::new();
    let r = t.evaluate(w, me, &mut c);
    (r, c)
}

#[test]
fn seek_weapon_then_pick_it_up() {
    let mut ais = Vec::new();
    let id = Ai::create(&mut ais, 3);
    assert_eq!(id, 0);
    let ai = &mut ais[id];
    let w = view(vec![character(77, 3, 0, 0, false)], vec![(100, 0)], true);
    let c = ai.update(&w).unwrap();
    assert!(c.right && !c.left);
    assert!(!c.pickup && !c.fire);
    let w = view(vec![character(77, 3, 60, 0, false)], vec![(100, 0)], true);
    let c = ai.update(&w).unwrap();
    assert!(c.right && !c.pickup);
    // Within the tolerance: the same tick asks for the pickup.
    let w = view(vec![character(77, 3, 99, 0, false)], vec![(100, 0)], true);
    let c = ai.update(&w).unwrap();
    assert!(c.pickup && !c.right && !c.left);
}

#[test]
fn engage_reachable_opponent() {
    let w = view(
        vec![character(1, 0, 0, 0, true), character(2, 1, 120, 5, false)],
        vec![],
        true,
    );
    let (r, c) = decide(&w, 0);
    assert_eq!(r, Status::Succeeded);
    assert!(c.fire && c.right && !c.left);
    let w = view(
        vec![character(1, 0, 0, 0, true), character(2, 1, -120, -19, false)],
        vec![],
        true,
    );
    let (r, c) = decide(&w, 0);
    assert_eq!(r, Status::Succeeded);
    assert!(c.fire && c.left && !c.right);
}

#[test]
fn blocked_opponent_is_not_fired_at() {
    let w = view(
        vec![character(1, 0, 0, 0, true), character(2, 1, 120, 0, false)],
        vec![],
        false,
    );
    let (r, c) = decide(&w, 0);
    assert_eq!(r, Status::Succeeded);
    assert!(!c.fire);
    assert_eq!(c, GameInput::new());
}

#[test]
fn opponents_out_of_level_or_respawning_are_skipped() {
    let mut far = character(2, 1, 50, 20, false);
    let (_, c) = decide(&view(vec![character(1, 0, 0, 0, true), far], vec![], true), 0);
    assert!(!c.fire);
    far.y = 0;
    far.respawning = true;
    let (_, c) = decide(&view(vec![character(1, 0, 0, 0, true), far], vec![], true), 0);
    assert!(!c.fire);
    // A character with the agent's own player index is no opponent.
    let twin = character(2, 0, 50, 0, false);
    let (_, c) = decide(&view(vec![character(1, 0, 0, 0, true), twin], vec![], true), 0);
    assert!(!c.fire);
}

#[test]
fn first_reachable_opponent_is_engaged() {
    let mut w = view(
        vec![
            character(1, 0, 0, 0, true),
            character(2, 1, -30, 0, false),
            character(3, 2, 30, 0, false),
        ],
        vec![],
        true,
    );
    w.clear_line[1] = false;
    let (_, c) = decide(&w, 0);
    assert!(c.fire && c.right && !c.left);
}

#[test]
fn nearest_weapon_weighs_height_three_times() {
    // (30, 0) is 30 away; (-10, 10) is 10 + 3 * 10 = 40 away.
    let w = view(vec![character(1, 0, 0, 0, false)], vec![(-10, 10), (30, 0)], true);
    let (r, c) = decide(&w, 0);
    assert_eq!(r, Status::Running);
    assert!(c.right && !c.left);
    // Equal distances: the earlier pickup wins.
    let w = view(vec![character(1, 0, 0, 0, false)], vec![(-30, 0), (30, 0)], true);
    let (_, c) = decide(&w, 0);
    assert!(c.left && !c.right);
}

#[test]
fn unarmed_with_no_weapon_around_does_nothing() {
    let w = view(vec![character(1, 0, 0, 0, false)], vec![], true);
    let (r, c) = decide(&w, 0);
    assert_eq!(r, Status::Succeeded);
    assert_eq!(c, GameInput::new());
}

#[test]
fn update_waits_for_controlled_entity() {
    let mut ais = Vec::new();
    Ai::create(&mut ais, 5);
    let second = Ai::create(&mut ais, 6);
    assert_eq!(second, 1);
    let ai = &mut ais[second];
    let nobody = view(vec![character(1, 0, 0, 0, false)], vec![(100, 0)], true);
    assert!(ai.update(&nobody).is_none());
    assert_eq!(ai.entity_handle(), None);
    let w = view(vec![character(1, 0, 0, 0, false), character(9, 6, 0, 0, false)], vec![(100, 0)], true);
    let c = ai.update(&w).unwrap();
    assert!(c.right);
    assert_eq!(ai.entity_handle(), Some(9));
    // The handle is kept: a character that takes the index later is not followed.
    let w = view(vec![character(4, 6, 500, 0, false)], vec![(100, 0)], true);
    assert!(ai.update(&w).is_none());
    assert_eq!(ai.entity_handle(), Some(9));
}

#[test]
fn game_types_compare_by_value() {
    assert_eq!(GameType::LastFishStanding { private: true }, GameType::LastFishStanding { private: true });
    assert_ne!(GameType::LastFishStanding { private: false }, GameType::Deathmatch);
}
