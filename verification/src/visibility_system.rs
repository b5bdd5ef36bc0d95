use vstd::prelude::*;
use crate::components::{Point, Viewshed};
use crate::map::GridMap;
use crate::world::{Actor, World};

verus! {

/// Keeps what every actor sees, and what the player has seen, up to date.
pub struct VisibilitySystem {}

/// The wish to know what can be seen from `(x, y)` at most `range` cells away,
/// for the actor at the place `actor`.
#[derive(Clone, Copy, Debug, PartialEq, Eq, Structural)]
pub struct ViewRequest {
    pub actor: usize,
    pub x: i32,
    pub y: i32,
    pub range: i32,
}

/// The cells of `cells` that lie inside the rim of `map`, in their order.
pub open spec fn inside(map: &GridMap, cells: Seq<Point>) -> Seq<Point>
    decreases cells.len(),
{
    if cells.len() == 0 {
        cells
    } else if map.interior(cells.last().x as int, cells.last().y as int) {
        inside(map, cells.drop_last()).push(cells.last())
    } else {
        inside(map, cells.drop_last())
    }
}

/// The cell `idx` of `map` is one of `cells`.
pub open spec fn among(map: &GridMap, cells: Seq<Point>, idx: int) -> bool {
    exists|k: int|
        0 <= k < cells.len() && map.index_of((#[trigger] cells[k]).x as int, cells[k].y as int)
            == idx
}

/// A cell is among some cells and one more exactly if it is among the cells
/// or is the one more.
pub proof fn lemma_among_push(map: &GridMap, cells: Seq<Point>, p: Point, idx: int)
    ensures
        among(map, cells.push(p), idx) == (among(map, cells, idx) || map.index_of(
            p.x as int,
            p.y as int,
        ) == idx),
{
    let more = cells.push(p);
    if among(map, cells, idx) {
        let w = choose|w: int|
            0 <= w < cells.len() && map.index_of((#[trigger] cells[w]).x as int, cells[w].y as int)
                == idx;
        assert(more[w] == cells[w]);
    }
    if map.index_of(p.x as int, p.y as int) == idx {
        assert(more[cells.len() as int] == p);
    }
    if among(map, more, idx) {
        let w = choose|w: int|
            0 <= w < more.len() && map.index_of((#[trigger] more[w]).x as int, more[w].y as int)
                == idx;
        if w < cells.len() {
            assert(cells[w] == more[w]);
        }
    }
}

/// Every cell that is kept lies inside the rim.
pub proof fn lemma_inside_interior(map: &GridMap, cells: Seq<Point>, k: int)
    requires
        0 <= k < inside(map, cells).len(),
    ensures
        map.interior(inside(map, cells)[k].x as int, inside(map, cells)[k].y as int),
    decreases cells.len(),
{
    if cells.len() > 0 {
        let rest = inside(map, cells.drop_last());
        if k < rest.len() {
            lemma_inside_interior(map, cells.drop_last(), k);
        }
    }
}

impl Actor {
    /// What the actor sees has to be computed: it has eyes and a place, and
    /// its view is marked as out of date.
    pub open spec fn needs_view(&self) -> bool {
        self.viewshed.is_some() && self.position.is_some() && self.viewshed.unwrap().dirty
    }

    /// The request for what the actor sees, when it stands at the place `i`.
    pub open spec fn view_request(&self, i: int) -> ViewRequest {
        ViewRequest {
            actor: i as usize,
            x: self.position.unwrap().x,
            y: self.position.unwrap().y,
            range: self.viewshed.unwrap().range,
        }
    }
}

impl World {
    /// The requests of those of the first `n` actors whose view has to be
    /// computed, in their order.
    pub open spec fn view_requests(&self, n: int) -> Seq<ViewRequest>
        decreases n,
    {
        if n <= 0 {
            Seq::empty()
        } else if self.actors@[n - 1].needs_view() {
            self.view_requests(n - 1).push(self.actors@[n - 1].view_request(n - 1))
        } else {
            self.view_requests(n - 1)
        }
    }
}

impl VisibilitySystem {
    /// Says whose view has to be computed: one request for each actor that has
    /// eyes, a place and a view out of date. The answers go to `see`.
    pub fn run(&mut self, ecs: &World) -> (requests: Vec<ViewRequest>)
        ensures
            requests@ == ecs.view_requests(ecs.actors@.len() as int),
    {
        let mut requests: Vec<ViewRequest> = Vec::new();
        let mut i: usize = 0;
        while i < ecs.actors.len()
            invariant
                i <= ecs.actors@.len(),
                requests@ == ecs.view_requests(i as int),
            decreases ecs.actors@.len() - i,
        {
            match &ecs.actors[i].viewshed {
                Some(viewshed) => {
                    match ecs.actors[i].position {
                        Some(pos) => {
                            if viewshed.dirty {
                                requests.push(
                                    ViewRequest {
                                        actor: i,
                                        x: pos.x,
                                        y: pos.y,
                                        range: viewshed.range,
                                    },
                                );
                            }
                        },
                        None => {},
                    }
                },
                None => {},
            }
            i = i + 1;
        }
        requests
    }

    /// Takes `cells` as what the actor at the place `actor` sees from where
    /// it stands. Cells on or beyond the rim are dropped, and the view is up to
    /// date. For the player the map forgets what was in view, and marks the
    /// cells as in view and as seen. An actor whose view is up to date keeps it.
    pub fn see(&mut self, ecs: &mut World, actor: usize, cells: Vec<Point>)
        requires
            old(ecs).wf(),
            actor < old(ecs).actors@.len(),
        ensures
            final(ecs).wf(),
            final(ecs).actors@.len() == old(ecs).actors@.len(),
            forall|j: int|
                0 <= j < old(ecs).actors@.len() && j != actor ==> final(ecs).actors@[j] == old(
                    ecs,
                ).actors@[j],
            final(ecs).player_pos == old(ecs).player_pos,
            final(ecs).player_entity == old(ecs).player_entity,
            final(ecs).run_state == old(ecs).run_state,
            final(ecs).log == old(ecs).log,
            final(ecs).map.tiles == old(ecs).map.tiles,
            final(ecs).map.rooms == old(ecs).map.rooms,
            final(ecs).map.width == old(ecs).map.width,
            final(ecs).map.height == old(ecs).map.height,
            final(ecs).map.blocked == old(ecs).map.blocked,
            final(ecs).map.tile_content == old(ecs).map.tile_content,
            !old(ecs).actors@[actor as int].needs_view() ==> *final(ecs) == *old(ecs),
            old(ecs).actors@[actor as int].needs_view() ==> {
                let before = old(ecs).actors@[actor as int];
                let after = final(ecs).actors@[actor as int];
                let kept = inside(&old(ecs).map, cells@);
                &&& after.viewshed.is_some()
                &&& after.viewshed.unwrap().visible_tiles@ == kept
                &&& after.viewshed.unwrap().range == before.viewshed.unwrap().range
                &&& !after.viewshed.unwrap().dirty
                &&& after == (Actor { viewshed: after.viewshed, ..before })
                &&& !before.is_player() ==> final(ecs).map == old(ecs).map
                &&& before.is_player() ==> forall|idx: int|
                    0 <= idx < old(ecs).map.size() ==> {
                        &&& #[trigger] final(ecs).map.visible_tiles@[idx] == among(
                            &old(ecs).map,
                            kept,
                            idx,
                        )
                        &&& final(ecs).map.revealed_tiles@[idx] == (old(ecs).map.revealed_tiles@[idx]
                            || among(&old(ecs).map, kept, idx))
                    }
            },
            forall|idx: int|
                0 <= idx < old(ecs).map.size() && old(ecs).map.revealed_tiles@[idx]
                    ==> #[trigger] final(ecs).map.revealed_tiles@[idx],
            old(ecs).ready() ==> final(ecs).ready(),
            old(ecs).swept() ==> final(ecs).swept(),
    {
        let range = match &ecs.actors[actor].viewshed {
            Some(viewshed) => {
                if !viewshed.dirty || ecs.actors[actor].position.is_none() {
                    return;
                }
                viewshed.range
            },
            None => {
                return;
            },
        };
        // cells on or beyond the rim are dropped
        let mut kept: Vec<Point> = Vec::new();
        let mut k: usize = 0;
        while k < cells.len()
            invariant
                k <= cells@.len(),
                *ecs == *old(ecs),
                ecs.wf(),
                kept@ == inside(&ecs.map, cells@.take(k as int)),
            decreases cells@.len() - k,
        {
            let p = cells[k];
            proof {
                assert(cells@.take(k + 1).drop_last() =~= cells@.take(k as int));
            }
            if p.x > 0 && p.x < ecs.map.width - 1 && p.y > 0 && p.y < ecs.map.height - 1 {
                kept.push(p);
            }
            k = k + 1;
        }
        proof {
            assert(cells@.take(k as int) =~= cells@);
        }
        // for the player, the map shows what is seen
        if ecs.actors[actor].player.is_some() {
            let n = ecs.map.visible_tiles.len();
            let mut t: usize = 0;
            while t < n
                invariant
                    t <= n,
                    n == ecs.map.size(),
                    ecs.map.wf(),
                    ecs.actors == old(ecs).actors,
                    ecs.player_pos == old(ecs).player_pos,
                    ecs.player_entity == old(ecs).player_entity,
                    ecs.run_state == old(ecs).run_state,
                    ecs.log == old(ecs).log,
                    ecs.map.tiles == old(ecs).map.tiles,
                    ecs.map.rooms == old(ecs).map.rooms,
                    ecs.map.width == old(ecs).map.width,
                    ecs.map.height == old(ecs).map.height,
                    ecs.map.blocked == old(ecs).map.blocked,
                    ecs.map.tile_content == old(ecs).map.tile_content,
                    ecs.map.revealed_tiles == old(ecs).map.revealed_tiles,
                    forall|idx: int| 0 <= idx < t ==> !ecs.map.visible_tiles@[idx],
                decreases n - t,
            {
                ecs.map.visible_tiles[t] = false;
                t = t + 1;
            }
            let mut v: usize = 0;
            while v < kept.len()
                invariant
                    v <= kept@.len(),
                    kept@ == inside(&old(ecs).map, cells@),
                    ecs.map.wf(),
                    old(ecs).map.wf(),
                    ecs.actors == old(ecs).actors,
                    ecs.player_pos == old(ecs).player_pos,
                    ecs.player_entity == old(ecs).player_entity,
                    ecs.run_state == old(ecs).run_state,
                    ecs.log == old(ecs).log,
                    ecs.map.tiles == old(ecs).map.tiles,
                    ecs.map.rooms == old(ecs).map.rooms,
                    ecs.map.width == old(ecs).map.width,
                    ecs.map.height == old(ecs).map.height,
                    ecs.map.blocked == old(ecs).map.blocked,
                    ecs.map.tile_content == old(ecs).map.tile_content,
                    forall|idx: int|
                        0 <= idx < ecs.map.size() ==> {
                            &&& #[trigger] ecs.map.visible_tiles@[idx] == among(
                                &old(ecs).map,
                                kept@.take(v as int),
                                idx,
                            )
                            &&& ecs.map.revealed_tiles@[idx] == (old(ecs).map.revealed_tiles@[idx]
                                || among(&old(ecs).map, kept@.take(v as int), idx))
                        },
                decreases kept@.len() - v,
            {
                let vis = kept[v];
                proof {
                    lemma_inside_interior(&old(ecs).map, cells@, v as int);
                }
                let idx = ecs.map.xy_idx(vis.x, vis.y);
                ecs.map.revealed_tiles[idx] = true;
                ecs.map.visible_tiles[idx] = true;
                proof {
                    let sooner = kept@.take(v as int);
                    assert(kept@.take(v as int + 1) =~= sooner.push(vis));
                    assert forall|c: int| 0 <= c < ecs.map.size() implies among(
                        &old(ecs).map,
                        sooner.push(vis),
                        c,
                    ) == (among(&old(ecs).map, sooner, c) || c == idx) by {
                        lemma_among_push(&old(ecs).map, sooner, vis, c);
                    }
                }
                v = v + 1;
            }
            proof {
                assert(kept@.take(v as int) =~= kept@);
                assert forall|idx: int|
                    0 <= idx < old(ecs).map.size() && old(
                        ecs,
                    ).map.revealed_tiles@[idx] implies #[trigger] ecs.map.revealed_tiles@[idx] by {
                    assert(ecs.map.visible_tiles@[idx] == among(&old(ecs).map, kept@, idx));
                }
            }
        }
        ecs.actors[actor].viewshed = Some(Viewshed { visible_tiles: kept, range, dirty: false });
        proof {
            if old(ecs).ready() {
                ecs.lemma_ready_kept(old(ecs));
            }
        }
    }
}

} // verus!
