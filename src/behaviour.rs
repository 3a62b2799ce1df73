use vstd::prelude::*;

use crate::input::GameInput;
use crate::tree::Status;
use crate::world::{abs, WorldView, REACH_TOLERANCE};

verus! {

/// The decisions a leaf node can make.
#[derive(Debug, Clone, Copy, PartialEq, Eq, Structural)]
pub enum Action {
    /// Move toward the first reachable opponent and fire; fails when there is none.
    Engage,
    /// Idle behaviour: always succeeds.
    Wander,
    /// Walk toward the nearest weapon pickup: runs until standing at it, then
    /// succeeds; fails when there is no pickup.
    ApproachWeapon,
    /// Ask to pick up what lies here; always succeeds.
    Pickup,
}

/// The conditions a guard node can test.
#[derive(Debug, Clone, Copy, PartialEq, Eq, Structural)]
pub enum Predicate {
    /// The agent's character holds a weapon.
    HasWeapon,
}

/// Whether predicate `p` holds for the agent's character `me`.
pub open spec fn holds(p: Predicate, w: WorldView, me: int) -> bool {
    match p {
        Predicate::HasWeapon => w.characters@[me].armed,
    }
}

/// What leaf action `a` reports and leaves in the command `c`.
pub open spec fn act(a: Action, w: WorldView, me: int, c: GameInput) -> (Status, GameInput) {
    let me_c = w.characters@[me];
    match a {
        Action::Engage => match w.target(me) {
            None => (Status::Failed, c),
            Some(j) => if me_c.x - w.characters@[j].x > 0 {
                (Status::Succeeded, GameInput { left: true, fire: true, ..c })
            } else {
                (Status::Succeeded, GameInput { right: true, fire: true, ..c })
            },
        },
        Action::Wander => (Status::Succeeded, c),
        Action::ApproachWeapon => match w.nearest_pickup(me) {
            None => (Status::Failed, c),
            Some(p) => {
                let px = w.pickups@[p].x;
                if abs(px - me_c.x) < REACH_TOLERANCE {
                    (Status::Succeeded, c)
                } else if px < me_c.x {
                    (Status::Running, GameInput { left: true, ..c })
                } else {
                    (Status::Running, GameInput { right: true, ..c })
                }
            },
        },
        Action::Pickup => (Status::Succeeded, GameInput { pickup: true, ..c }),
    }
}

/// Tests predicate `p` for the agent's character `me`.
pub fn test_predicate(p: Predicate, w: &WorldView, me: usize) -> (r: bool)
    requires
        me < w.characters@.len(),
    ensures
        r == holds(p, *w, me as int),
{
    match p {
        Predicate::HasWeapon => w.characters[me].armed,
    }
}

/// Runs leaf action `a` for the agent's character `me`, writing its intents into `c`.
pub fn perform(a: Action, w: &WorldView, me: usize, c: &mut GameInput) -> (r: Status)
    requires
        w.wf(),
        me < w.characters@.len(),
    ensures
        (r, *final(c)) == act(a, *w, me as int, *old(c)),
{
    let me_c = w.characters[me];
    match a {
        Action::Engage => match w.find_target(me) {
            None => Status::Failed,
            Some(j) => {
                if me_c.x as i64 - w.characters[j].x as i64 > 0 {
                    c.left = true;
                } else {
                    c.right = true;
                }
                c.fire = true;
                Status::Succeeded
            },
        },
        Action::Wander => Status::Succeeded,
        Action::ApproachWeapon => match w.find_nearest_pickup(me) {
            None => Status::Failed,
            Some(p) => {
                let px = w.pickups[p].x;
                let dx: i64 = px as i64 - me_c.x as i64;
                if -REACH_TOLERANCE < dx && dx < REACH_TOLERANCE {
                    Status::Succeeded
                } else if px < me_c.x {
                    c.left = true;
                    Status::Running
                } else {
                    c.right = true;
                    Status::Running
                }
            },
        },
        Action::Pickup => {
            c.pickup = true;
            Status::Succeeded
        },
    }
}

} // verus!
