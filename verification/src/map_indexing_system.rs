use vstd::prelude::*;
use crate::components::Entity;
use crate::map::TileType;
use crate::world::World;

verus! {

/// Rebuilds what the map knows of the actors: which cells are blocked and who
/// stands where.
pub struct MapIndexingSystem {}

impl World {
    /// One of the first `n` actors stands on the cell `idx` and keeps others off it.
    pub open spec fn occupied(&self, idx: int, n: int) -> bool {
        exists|i: int|
            0 <= i < n && i < self.actors@.len() && (#[trigger] self.actors@[i]).blocks()
                && self.actors@[i].stands_on(&self.map, idx)
    }

    /// Those of the first `n` actors that stand on the cell `idx`, in their order.
    pub open spec fn standing_on(&self, idx: int, n: int) -> Seq<Entity>
        decreases n,
    {
        if n <= 0 {
            Seq::empty()
        } else if self.actors@[n - 1].stands_on(&self.map, idx) {
            self.standing_on(idx, n - 1).push(self.actors@[n - 1].entity)
        } else {
            self.standing_on(idx, n - 1)
        }
    }

    /// The map says of every cell whether it is blocked, by a wall or by an
    /// actor, and which actors stand on it.
    pub open spec fn indexed(&self) -> bool {
        forall|idx: int|
            0 <= idx < self.map.size() ==> {
                &&& #[trigger] self.map.blocked@[idx] == (self.map.tiles@[idx] == TileType::Wall
                    || self.occupied(idx, self.actors@.len() as int))
                &&& self.map.tile_content@[idx]@ == self.standing_on(idx, self.actors@.len() as int)
            }
    }
}

impl MapIndexingSystem {
    /// Rebuilds the index from the terrain and from where the actors stand now.
    pub fn run(&mut self, ecs: &mut World)
        requires
            old(ecs).wf(),
        ensures
            final(ecs).wf(),
            final(ecs).indexed(),
            final(ecs).actors == old(ecs).actors,
            final(ecs).player_pos == old(ecs).player_pos,
            final(ecs).player_entity == old(ecs).player_entity,
            final(ecs).run_state == old(ecs).run_state,
            final(ecs).log == old(ecs).log,
            final(ecs).map.tiles == old(ecs).map.tiles,
            final(ecs).map.rooms == old(ecs).map.rooms,
            final(ecs).map.width == old(ecs).map.width,
            final(ecs).map.height == old(ecs).map.height,
            final(ecs).map.revealed_tiles == old(ecs).map.revealed_tiles,
            final(ecs).map.visible_tiles == old(ecs).map.visible_tiles,
            old(ecs).ready() ==> final(ecs).ready(),
    {
        ecs.map.populate_blocked();
        ecs.map.clear_content_index();
        let n = ecs.actors.len();
        let mut i: usize = 0;
        while i < n
            invariant
                i <= n,
                n == ecs.actors@.len(),
                ecs.wf(),
                ecs.actors == old(ecs).actors,
                ecs.player_pos == old(ecs).player_pos,
                ecs.player_entity == old(ecs).player_entity,
                ecs.run_state == old(ecs).run_state,
                ecs.log == old(ecs).log,
                ecs.map.tiles == old(ecs).map.tiles,
                ecs.map.rooms == old(ecs).map.rooms,
                ecs.map.width == old(ecs).map.width,
                ecs.map.height == old(ecs).map.height,
                ecs.map.revealed_tiles == old(ecs).map.revealed_tiles,
                ecs.map.visible_tiles == old(ecs).map.visible_tiles,
                forall|idx: int|
                    0 <= idx < ecs.map.size() ==> #[trigger] ecs.map.blocked@[idx] == (
                    ecs.map.tiles@[idx] == TileType::Wall || ecs.occupied(idx, i as int)),
                forall|idx: int|
                    0 <= idx < ecs.map.size() ==> (#[trigger] ecs.map.tile_content@[idx])@
                        == ecs.standing_on(idx, i as int),
            decreases n - i,
        {
            let ghost here = *ecs;
            match ecs.actors[i].position {
                Some(position) => {
                    let idx = ecs.map.xy_idx(position.x, position.y);
                    // who blocks makes the cell blocked
                    if ecs.actors[i].blocks_tile.is_some() && ecs.actors[i].player.is_none() {
                        ecs.map.blocked[idx] = true;
                    }
                    // and everybody is entered on the cell
                    let entity = ecs.actors[i].entity;
                    ecs.map.tile_content[idx].push(entity);
                },
                None => {},
            }
            proof {
                assert forall|c: int| 0 <= c < ecs.map.size() implies (
                #[trigger] ecs.map.tile_content@[c])@ == ecs.standing_on(c, i as int + 1) by {
                    lemma_standing_same(here, *ecs, c, i as int);
                }
            }
            i = i + 1;
        }
        proof {
            if old(ecs).ready() {
                ecs.lemma_ready_kept(old(ecs));
            }
        }
    }
}

/// Who stands on a cell depends only on the actors and on the width of the map.
pub proof fn lemma_standing_same(a: World, b: World, idx: int, n: int)
    requires
        a.actors == b.actors,
        a.map.width == b.map.width,
    ensures
        a.standing_on(idx, n) == b.standing_on(idx, n),
    decreases n,
{
    if n > 0 {
        lemma_standing_same(a, b, idx, n - 1);
    }
}

} // verus!
