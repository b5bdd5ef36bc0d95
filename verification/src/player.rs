use vstd::prelude::*;
use crate::components::{Entity, GridPosition, Point, WantsToMelee};
use crate::state::{RunState, State};
use crate::world::{Actor, World};

verus! {

/// `v`, or the nearer of `lo` and `hi` where `v` does not lie between them.
pub open spec fn clamp(v: int, lo: int, hi: int) -> int {
    if v < lo {
        lo
    } else if v > hi {
        hi
    } else {
        v
    }
}

impl Actor {
    /// The actor is the one that the keyboard steers: the player, with a place
    /// and eyes.
    pub open spec fn is_steered(&self) -> bool {
        self.player.is_some() && self.position.is_some() && self.viewshed.is_some()
    }
}

impl World {
    /// There is an actor that the keyboard steers.
    pub open spec fn has_steered(&self) -> bool {
        exists|i: int| 0 <= i < self.actors@.len() && (#[trigger] self.actors@[i]).is_steered()
    }

    /// The place of the actor that the keyboard steers.
    pub open spec fn steered(&self) -> int {
        choose|i: int| 0 <= i < self.actors@.len() && (#[trigger] self.actors@[i]).is_steered()
    }

    /// The actor that the keyboard steers, if there is one, stands inside the
    /// rim of the map.
    pub open spec fn player_inside(&self) -> bool {
        forall|i: int|
            0 <= i < self.actors@.len() && (#[trigger] self.actors@[i]).is_steered()
                ==> self.map.interior(
                self.actors@[i].position.unwrap().x as int,
                self.actors@[i].position.unwrap().y as int,
            )
    }

    /// `e` can be hit: it is the identity of an actor with hit points.
    pub open spec fn is_foe(&self, e: Entity) -> bool {
        self.holds(e) && self.actors@[self.place_of(e)].combat_stats.is_some()
    }

    /// The first of `on`, from the place `k` on, that can be hit.
    pub open spec fn first_foe(&self, on: Seq<Entity>, k: int) -> Option<Entity>
        decreases on.len() - k,
    {
        if k < 0 || k >= on.len() {
            None
        } else if self.is_foe(on[k]) {
            Some(on[k])
        } else {
            self.first_foe(on, k + 1)
        }
    }

    /// The world after the player has tried to step by `(dx, dy)`. The player
    /// hits the first actor with hit points on the cell stepped onto, and
    /// stays. If there is none and the cell is not blocked, the player moves
    /// there, kept inside the rim, and what the player sees is out of date.
    pub open spec fn moved(&self, after: &World, dx: int, dy: int) -> bool {
        let p = self.steered();
        let before = self.actors@[p];
        let x = before.position.unwrap().x + dx;
        let y = before.position.unwrap().y + dy;
        let idx = self.map.index_of(x, y);
        let to = GridPosition {
            x: clamp(x, 1, self.map.width - 2) as i32,
            y: clamp(y, 1, self.map.height - 2) as i32,
        };
        &&& after.map == self.map
        &&& after.player_entity == self.player_entity
        &&& after.run_state == self.run_state
        &&& after.log == self.log
        &&& after.actors@.len() == self.actors@.len()
        &&& forall|j: int| 0 <= j < self.actors@.len() && j != p ==> after.actors@[j] == self.actors@[j]
        &&& match self.first_foe(self.map.tile_content@[idx]@, 0) {
            Some(target) => {
                &&& after.actors@[p] == (Actor {
                    wants_to_melee: Some(WantsToMelee { target }),
                    ..before
                })
                &&& after.player_pos == self.player_pos
            },
            None => if self.map.blocked@[idx] {
                &&& after.actors@[p] == before
                &&& after.player_pos == self.player_pos
            } else {
                &&& after.actors@[p].position == Some(to)
                &&& after.actors@[p].viewshed.is_some()
                &&& after.actors@[p].viewshed.unwrap().dirty
                &&& after.actors@[p].viewshed.unwrap().range == before.viewshed.unwrap().range
                &&& after.actors@[p].viewshed.unwrap().visible_tiles
                    == before.viewshed.unwrap().visible_tiles
                &&& after.actors@[p] == (Actor {
                    position: after.actors@[p].position,
                    viewshed: after.actors@[p].viewshed,
                    ..before
                })
                &&& after.player_pos == (Point { x: to.x, y: to.y })
            },
        }
    }
}

/// The player tries to step by `(delta_x, delta_y)`: it hits who stands
/// there, or moves there if the cell is free, or stays.
pub fn try_move_player(delta_x: i32, delta_y: i32, ecs: &mut World)
    requires
        old(ecs).wf(),
        old(ecs).player_inside(),
        -1 <= delta_x <= 1,
        -1 <= delta_y <= 1,
    ensures
        final(ecs).wf(),
        final(ecs).player_inside(),
        !old(ecs).has_steered() ==> *final(ecs) == *old(ecs),
        old(ecs).has_steered() ==> old(ecs).moved(final(ecs), delta_x as int, delta_y as int),
        old(ecs).ready() && old(ecs).swept() ==> final(ecs).ready() && final(ecs).swept(),
{
    // who is steered
    let n = ecs.actors.len();
    let mut p: usize = 0;
    while p < n && !(ecs.actors[p].player.is_some() && ecs.actors[p].position.is_some()
        && ecs.actors[p].viewshed.is_some())
        invariant
            p <= n,
            n == ecs.actors@.len(),
            *ecs == *old(ecs),
            forall|j: int| 0 <= j < p ==> !(#[trigger] ecs.actors@[j]).is_steered(),
        decreases n - p,
    {
        p = p + 1;
    }
    if p >= n {
        return;
    }
    let pos = match ecs.actors[p].position {
        Some(pos) => pos,
        None => {
            return;
        },
    };
    let x = pos.x + delta_x;
    let y = pos.y + delta_y;
    let destination_idx = ecs.map.xy_idx(x, y);

    // somebody to hit on the cell stepped onto? then hit and stay
    let mut k: usize = 0;
    while k < ecs.map.tile_content[destination_idx].len()
        invariant
            *ecs == *old(ecs),
            ecs.wf(),
            ecs.player_inside(),
            p < n,
            n == ecs.actors@.len(),
            ecs.actors@[p as int].is_steered(),
            ecs.actors@[p as int].position == Some(pos),
            destination_idx == ecs.map.index_of(pos.x + delta_x, pos.y + delta_y),
            destination_idx < ecs.map.tile_content@.len(),
            k <= ecs.map.tile_content@[destination_idx as int]@.len(),
            ecs.first_foe(ecs.map.tile_content@[destination_idx as int]@, 0) == ecs.first_foe(
                ecs.map.tile_content@[destination_idx as int]@,
                k as int,
            ),
        decreases ecs.map.tile_content@[destination_idx as int]@.len() - k,
    {
        let potential_target = ecs.map.tile_content[destination_idx][k];
        let found = match ecs.find(potential_target) {
            Some(t) => ecs.actors[t].combat_stats.is_some(),
            None => false,
        };
        if found {
            ecs.actors[p].wants_to_melee = Some(WantsToMelee { target: potential_target });
            proof {
                if old(ecs).ready() && old(ecs).swept() {
                    ecs.lemma_ready_struck(old(ecs), p as int, potential_target);
                }
            }
            return;
        }
        k = k + 1;
    }

    if !ecs.map.blocked[destination_idx] {
        let to_x = if x < 1 { 1 } else if x > ecs.map.width - 2 { ecs.map.width - 2 } else { x };
        let to_y = if y < 1 { 1 } else if y > ecs.map.height - 2 { ecs.map.height - 2 } else { y };
        ecs.actors[p].position = Some(GridPosition { x: to_x, y: to_y });

        // having moved, the player sees something else
        match &mut ecs.actors[p].viewshed {
            Some(viewshed) => {
                viewshed.dirty = true;
            },
            None => {},
        }

        // and is known to stand at the new place
        ecs.player_pos = Point { x: to_x, y: to_y };
        proof {
            if old(ecs).ready() {
                ecs.lemma_ready_kept(old(ecs));
            }
        }
    }
}

/// Takes what the keyboard gave this frame. With a step, the player tries it
/// and the player's turn begins; with none, the game goes on waiting.
pub fn player_input(gs: &mut State, intent: Option<(i32, i32)>) -> (next: RunState)
    requires
        old(gs).ecs.wf(),
        old(gs).ecs.player_inside(),
        intent matches Some(d) ==> -1 <= d.0 <= 1 && -1 <= d.1 <= 1,
    ensures
        final(gs).ecs.wf(),
        final(gs).ecs.player_inside(),
        final(gs).stage == old(gs).stage,
        old(gs).ecs.ready() && old(gs).ecs.swept() ==> final(gs).ecs.ready() && final(gs).ecs.swept(),
        intent is None ==> next == RunState::AwaitingInput && final(gs).ecs == old(gs).ecs,
        intent matches Some(d) ==> {
            &&& next == RunState::PlayerTurn
            &&& !old(gs).ecs.has_steered() ==> final(gs).ecs == old(gs).ecs
            &&& old(gs).ecs.has_steered() ==> old(gs).ecs.moved(
                &final(gs).ecs,
                d.0 as int,
                d.1 as int,
            )
        },
{
    match intent {
        Some((delta_x, delta_y)) => {
            try_move_player(delta_x, delta_y, &mut gs.ecs);
            RunState::PlayerTurn
        },
        None => RunState::AwaitingInput,
    }
}

} // verus!
