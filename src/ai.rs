use vstd::prelude::*;

use crate::input::{no_input, GameInput};
use crate::tree::{eval, idle, is_decision, Tree};
use crate::world::WorldView;

verus! {

/// The entity an agent controls this tick: the cached one, else that of the
/// first character with the agent's player index.
pub open spec fn resolve(entity: Option<u64>, player_id: u8, w: WorldView) -> Option<u64> {
    match entity {
        Some(e) => Some(e),
        None => match w.first_with_index_from(player_id, 0) {
            Some(j) => Some(w.characters@[j].entity),
            None => None,
        },
    }
}

/// Where the controlled entity stands among the characters, if it is there.
pub open spec fn locate(entity: Option<u64>, w: WorldView) -> Option<int> {
    match entity {
        Some(e) => w.first_with_entity_from(e, 0),
        None => None,
    }
}

/// The decision state of one non-player character.
pub struct Ai {
    // Timers, in milliseconds, and steering state of an earlier procedural
    // design; the tree does not read them.
    jump_cooldown: u32,
    throw_cooldown: u32,
    keep_direction_until_event: bool,
    keep_direction_timeout: u32,
    fix_direction: i32,
    tree: Tree,
    entity: Option<u64>,
    player_id: u8,
    ai_id: usize,
}

impl Ai {
    pub closed spec fn tree(&self) -> Tree {
        self.tree
    }

    /// The cached handle of the controlled entity.
    pub closed spec fn entity(&self) -> Option<u64> {
        self.entity
    }

    pub closed spec fn player_id(&self) -> u8 {
        self.player_id
    }

    pub closed spec fn ai_id(&self) -> usize {
        self.ai_id
    }

    pub open spec fn wf(&self) -> bool {
        self.tree().wf()
    }

    /// Registers a new agent for the character with player index `player_id`
    /// and returns its position among the agents.
    pub fn create(ais: &mut Vec<Ai>, player_id: u8) -> (r: usize)
        ensures
            r == old(ais)@.len(),
            final(ais)@.len() == old(ais)@.len() + 1,
            final(ais)@.subrange(0, r as int) == old(ais)@,
            final(ais)@[r as int].wf(),
            final(ais)@[r as int].player_id() == player_id,
            final(ais)@[r as int].ai_id() == r,
            final(ais)@[r as int].entity() is None,
            is_decision(final(ais)@[r as int].tree().shape()),
            final(ais)@[r as int].tree().progress() == Seq::new(9, |j: int| idle()),
    {
        let ai_id = ais.len();
        ais.push(
            Ai {
                jump_cooldown: 0,
                throw_cooldown: 0,
                keep_direction_until_event: false,
                keep_direction_timeout: 0,
                fix_direction: 0,
                tree: Tree::decision(),
                entity: None,
                player_id,
                ai_id,
            },
        );
        proof {
            assert(ais@.subrange(0, ai_id as int) =~= old(ais)@);
        }
        ai_id
    }

    /// The handle of the controlled entity, once resolved.
    pub fn entity_handle(&self) -> (r: Option<u64>)
        ensures
            r == self.entity(),
    {
        self.entity
    }

    /// Runs one tick: resolves the controlled entity on first need, evaluates
    /// the tree for it and returns the command it produced. `None` while the
    /// controlled entity is not in the world; the tree is then left as it was.
    pub fn update(&mut self, w: &WorldView) -> (r: Option<GameInput>)
        requires
            old(self).wf(),
            w.wf(),
        ensures
            final(self).wf(),
            final(self).player_id() == old(self).player_id(),
            final(self).ai_id() == old(self).ai_id(),
            final(self).tree().shape() == old(self).tree().shape(),
            final(self).entity() == resolve(old(self).entity(), old(self).player_id(), *w),
            match locate(final(self).entity(), *w) {
                None => r is None && final(self).tree() == old(self).tree(),
                Some(me) => {
                    let (st, _, c) = eval(
                        old(self).tree().shape(),
                        old(self).tree().progress(),
                        0,
                        *w,
                        me,
                        no_input(),
                    );
                    r == Some(c) && final(self).tree().progress() == st
                },
            },
    {
        if self.entity.is_none() {
            match w.find_index(self.player_id) {
                Some(j) => {
                    self.entity = Some(w.characters[j].entity);
                },
                None => {
                    return None;
                },
            }
        }
        let e = match self.entity {
            Some(e) => e,
            None => {
                return None;
            },
        };
        match w.find_entity(e) {
            None => None,
            Some(me) => {
                let mut i = GameInput::new();
                self.tree.evaluate(w, me, &mut i);
                Some(i)
            },
        }
    }
}

} // verus!
