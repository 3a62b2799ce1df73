use vstd::prelude::*;

verus! {

/// A character as the decision engine sees it during one tick.
/// Positions are in whole world units.
#[derive(Debug, Clone, Copy, PartialEq, Eq, Structural)]
pub struct Character {
    /// Stable handle of the character's entity in the world store.
    pub entity: u64,
    /// Player index of the character.
    pub index: u8,
    pub x: i32,
    pub y: i32,
    /// The character is waiting to respawn.
    pub respawning: bool,
    /// The character's inventory holds a weapon.
    pub armed: bool,
}

/// A weapon lying in the world, ready to be picked up.
#[derive(Debug, Clone, Copy, PartialEq, Eq, Structural)]
pub struct Pickup {
    pub x: i32,
    pub y: i32,
}

/// What one agent reads of the world during one tick: the characters, the
/// weapon pickups, and for each character whether the collision map holds no
/// solid tile on the thin band between the agent's character and it.
pub struct WorldView {
    pub characters: Vec<Character>,
    pub pickups: Vec<Pickup>,
    pub clear_line: Vec<bool>,
}

/// Vertical offset under which another character counts as level with the agent.
pub const LEVEL_THRESHOLD: i64 = 20;

/// Horizontal distance under which the agent counts as standing at a pickup.
pub const REACH_TOLERANCE: i64 = 2;

pub open spec fn abs(v: int) -> int {
    if v < 0 { -v } else { v }
}

impl WorldView {
    pub open spec fn wf(&self) -> bool {
        self.clear_line@.len() == self.characters@.len()
    }

    /// Character `j` is an opponent the agent's character `me` may engage:
    /// another player, not respawning, at comparable height, in the clear.
    pub open spec fn is_target(&self, me: int, j: int) -> bool {
        let a = self.characters@[me];
        let t = self.characters@[j];
        &&& 0 <= j < self.characters@.len()
        &&& abs(t.y - a.y) < LEVEL_THRESHOLD
        &&& t.index != a.index
        &&& !t.respawning
        &&& self.clear_line@[j]
    }

    /// The first target at position `j` or later.
    pub open spec fn first_target_from(&self, me: int, j: int) -> Option<int>
        decreases self.characters@.len() - j,
    {
        if j < 0 || j >= self.characters@.len() {
            None
        } else if self.is_target(me, j) {
            Some(j)
        } else {
            self.first_target_from(me, j + 1)
        }
    }

    /// The opponent the agent's character `me` engages: the first target.
    pub open spec fn target(&self, me: int) -> Option<int> {
        self.first_target_from(me, 0)
    }

    /// Weighted distance from character `me` to pickup `p`: horizontal
    /// distance plus three times the vertical distance.
    pub open spec fn pickup_distance(&self, me: int, p: int) -> int {
        let a = self.characters@[me];
        let w = self.pickups@[p];
        abs(w.x - a.x) + 3 * abs(w.y - a.y)
    }

    /// The nearest of the first `n` pickups to character `me`; the earliest
    /// one among equals.
    pub open spec fn nearest_among(&self, me: int, n: int) -> Option<int>
        decreases n,
    {
        if n <= 0 {
            None
        } else {
            match self.nearest_among(me, n - 1) {
                None => Some(n - 1),
                Some(b) => if self.pickup_distance(me, n - 1) < self.pickup_distance(me, b) {
                    Some(n - 1)
                } else {
                    Some(b)
                },
            }
        }
    }

    /// The pickup nearest to character `me`, if there is any.
    pub open spec fn nearest_pickup(&self, me: int) -> Option<int> {
        self.nearest_among(me, self.pickups@.len() as int)
    }

    /// The first character at position `j` or later with player index `id`.
    pub open spec fn first_with_index_from(&self, id: u8, j: int) -> Option<int>
        decreases self.characters@.len() - j,
    {
        if j < 0 || j >= self.characters@.len() {
            None
        } else if self.characters@[j].index == id {
            Some(j)
        } else {
            self.first_with_index_from(id, j + 1)
        }
    }

    /// The first character at position `j` or later whose entity is `e`.
    pub open spec fn first_with_entity_from(&self, e: u64, j: int) -> Option<int>
        decreases self.characters@.len() - j,
    {
        if j < 0 || j >= self.characters@.len() {
            None
        } else if self.characters@[j].entity == e {
            Some(j)
        } else {
            self.first_with_entity_from(e, j + 1)
        }
    }

    /// Finds the first target of character `me`.
    pub fn find_target(&self, me: usize) -> (r: Option<usize>)
        requires
            self.wf(),
            me < self.characters@.len(),
        ensures
            r matches Some(j) ==> self.target(me as int) == Some(j as int)
                && j < self.characters@.len(),
            r is None ==> self.target(me as int) is None,
    {
        let a = self.characters[me];
        let mut j: usize = 0;
        while j < self.characters.len()
            invariant
                self.wf(),
                me < self.characters@.len(),
                a == self.characters@[me as int],
                j <= self.characters@.len(),
                self.target(me as int) == self.first_target_from(me as int, j as int),
            decreases self.characters@.len() - j,
        {
            let t = self.characters[j];
            let dy: i64 = t.y as i64 - a.y as i64;
            let level = -LEVEL_THRESHOLD < dy && dy < LEVEL_THRESHOLD;
            if level && t.index != a.index && !t.respawning && self.clear_line[j] {
                return Some(j);
            }
            j += 1;
        }
        None
    }

    /// Finds the pickup nearest to character `me`.
    pub fn find_nearest_pickup(&self, me: usize) -> (r: Option<usize>)
        requires
            me < self.characters@.len(),
        ensures
            r matches Some(p) ==> self.nearest_pickup(me as int) == Some(p as int)
                && p < self.pickups@.len(),
            r is None ==> self.nearest_pickup(me as int) is None,
    {
        let a = self.characters[me];
        let mut best: Option<usize> = None;
        let mut best_d: i64 = 0;
        let mut p: usize = 0;
        while p < self.pickups.len()
            invariant
                me < self.characters@.len(),
                a == self.characters@[me as int],
                p <= self.pickups@.len(),
                best matches Some(b) ==> self.nearest_among(me as int, p as int) == Some(b as int)
                    && b < p && best_d == self.pickup_distance(me as int, b as int),
                best is None ==> self.nearest_among(me as int, p as int) is None,
            decreases self.pickups@.len() - p,
        {
            let w = self.pickups[p];
            let dx: i64 = w.x as i64 - a.x as i64;
            let dy: i64 = w.y as i64 - a.y as i64;
            let ax: i64 = if dx < 0 { -dx } else { dx };
            let ay: i64 = if dy < 0 { -dy } else { dy };
            let d: i64 = ax + 3 * ay;
            match best {
                None => {
                    best = Some(p);
                    best_d = d;
                },
                Some(_) => {
                    if d < best_d {
                        best = Some(p);
                        best_d = d;
                    }
                },
            }
            p += 1;
        }
        best
    }

    /// Finds the first character with player index `id`.
    pub fn find_index(&self, id: u8) -> (r: Option<usize>)
        ensures
            r matches Some(j) ==> self.first_with_index_from(id, 0) == Some(j as int)
                && j < self.characters@.len(),
            r is None ==> self.first_with_index_from(id, 0) is None,
    {
        let mut j: usize = 0;
        while j < self.characters.len()
            invariant
                j <= self.characters@.len(),
                self.first_with_index_from(id, 0) == self.first_with_index_from(id, j as int),
            decreases self.characters@.len() - j,
        {
            if self.characters[j].index == id {
                return Some(j);
            }
            j += 1;
        }
        None
    }

    /// Finds the first character whose entity is `e`.
    pub fn find_entity(&self, e: u64) -> (r: Option<usize>)
        ensures
            r matches Some(j) ==> self.first_with_entity_from(e, 0) == Some(j as int)
                && j < self.characters@.len(),
            r is None ==> self.first_with_entity_from(e, 0) is None,
    {
        let mut j: usize = 0;
        while j < self.characters.len()
            invariant
                j <= self.characters@.len(),
                self.first_with_entity_from(e, 0) == self.first_with_entity_from(e, j as int),
            decreases self.characters@.len() - j,
        {
            if self.characters[j].entity == e {
                return Some(j);
            }
            j += 1;
        }
        None
    }
}

} // verus!
