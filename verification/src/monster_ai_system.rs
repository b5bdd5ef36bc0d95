use vstd::prelude::*;
use crate::components::{GridPosition, Point, WantsToMelee};
use crate::world::{Actor, World};

verus! {

/// Decides for every monster whether it hits the player, goes after the
/// player or waits.
pub struct MonsterAISystem {}

/// The wish for a route over the map from the cell `start` to the cell `goal`,
/// for the actor at the place `actor`.
#[derive(Clone, Copy, Debug, PartialEq, Eq, Structural)]
pub struct PathRequest {
    pub actor: usize,
    pub start: usize,
    pub goal: usize,
}

/// A route over the map. If `success` is set, `steps` holds the cells of the
/// route from its start to `destination`, both included.
#[derive(Clone, Debug, PartialEq)]
pub struct NavigationPath {
    pub destination: usize,
    pub success: bool,
    pub steps: Vec<usize>,
}

/// `pos` is the cell `p` or one of the eight cells around it.
pub open spec fn beside(pos: GridPosition, p: Point) -> bool {
    -1 <= pos.x - p.x <= 1 && -1 <= pos.y - p.y <= 1
}

/// Two cells are beside each other exactly if the straight line between them
/// is shorter than one and a half cells: its square is below nine quarters.
pub proof fn lemma_beside_is_near(pos: GridPosition, p: Point)
    ensures
        beside(pos, p) <==> 4 * ((pos.x - p.x) * (pos.x - p.x) + (pos.y - p.y) * (pos.y - p.y)) < 9,
{
    let dx = pos.x - p.x;
    let dy = pos.y - p.y;
    assert(dx * dx >= 0 && dy * dy >= 0) by (nonlinear_arith);
    assert(-1 <= dx <= 1 ==> dx * dx <= 1) by (nonlinear_arith);
    assert(-1 <= dy <= 1 ==> dy * dy <= 1) by (nonlinear_arith);
    assert(dx >= 2 || dx <= -2 ==> dx * dx >= 4) by (nonlinear_arith);
    assert(dy >= 2 || dy <= -2 ==> dy * dy >= 4) by (nonlinear_arith);
}

impl Actor {
    /// The monster AI steers the actor: it is a monster with eyes and a place.
    pub open spec fn is_hunter(&self) -> bool {
        self.monster.is_some() && self.viewshed.is_some() && self.position.is_some()
    }
}

impl World {
    /// The actor at the place `i` hits the player this turn: the AI steers it,
    /// and it stands beside the player.
    pub open spec fn attacks(&self, i: int) -> bool {
        self.actors@[i].is_hunter() && beside(self.actors@[i].position.unwrap(), self.player_pos)
    }

    /// The actor at the place `i` goes after the player this turn: the AI
    /// steers it, it does not stand beside the player, and it sees the player.
    pub open spec fn chases(&self, i: int) -> bool {
        &&& self.actors@[i].is_hunter()
        &&& !beside(self.actors@[i].position.unwrap(), self.player_pos)
        &&& self.actors@[i].viewshed.unwrap().visible_tiles@.contains(self.player_pos)
    }

    /// The route that the actor at the place `i` asks for: from its own cell
    /// to the player's.
    pub open spec fn path_request(&self, i: int) -> PathRequest {
        PathRequest {
            actor: i as usize,
            start: self.map.index_of(
                self.actors@[i].position.unwrap().x as int,
                self.actors@[i].position.unwrap().y as int,
            ) as usize,
            goal: self.map.index_of(self.player_pos.x as int, self.player_pos.y as int) as usize,
        }
    }

    /// The routes that those of the first `n` actors ask for that go after the
    /// player, in their order.
    pub open spec fn path_requests(&self, n: int) -> Seq<PathRequest>
        decreases n,
    {
        if n <= 0 {
            Seq::empty()
        } else if self.chases(n - 1) {
            self.path_requests(n - 1).push(self.path_request(n - 1))
        } else {
            self.path_requests(n - 1)
        }
    }

    /// The actor at the place `i` after the AI has decided for it: if it hits
    /// the player, it now wishes to.
    pub open spec fn decided(&self, i: int) -> Actor {
        if self.attacks(i) {
            Actor {
                wants_to_melee: Some(WantsToMelee { target: self.player_entity }),
                ..self.actors@[i]
            }
        } else {
            self.actors@[i]
        }
    }

    /// `path` holds a next step for the actor at the place `actor`: the actor
    /// is steered by the AI, and the route was found and is longer than its
    /// start.
    pub open spec fn leads(&self, actor: int, path: &NavigationPath) -> bool {
        self.actors@[actor].is_hunter() && path.success && path.steps@.len() > 1
    }
}

/// Whether `cells` holds `p`.
pub fn contains_point(cells: &Vec<Point>, p: Point) -> (found: bool)
    ensures
        found == cells@.contains(p),
{
    let mut k: usize = 0;
    while k < cells.len()
        invariant
            k <= cells@.len(),
            forall|j: int| 0 <= j < k ==> cells@[j] != p,
        decreases cells@.len() - k,
    {
        if cells[k].x == p.x && cells[k].y == p.y {
            return true;
        }
        k = k + 1;
    }
    false
}

impl MonsterAISystem {
    /// Decides for every monster that has eyes and a place. One that stands
    /// beside the player wishes to hit the player and stays. One that sees the
    /// player from farther away asks for a route to the player: the requests
    /// are returned in the order of the actors, and each answer goes to
    /// `follow`. One that does not see the player waits.
    pub fn run(&mut self, ecs: &mut World) -> (requests: Vec<PathRequest>)
        requires
            old(ecs).wf(),
        ensures
            final(ecs).wf(),
            final(ecs).same_but_actors(old(ecs)),
            final(ecs).actors@.len() == old(ecs).actors@.len(),
            forall|i: int|
                0 <= i < old(ecs).actors@.len() ==> #[trigger] final(ecs).actors@[i] == old(
                    ecs,
                ).decided(i),
            requests@ == old(ecs).path_requests(old(ecs).actors@.len() as int),
            old(ecs).ready() ==> final(ecs).ready(),
    {
        let mut requests: Vec<PathRequest> = Vec::new();
        let n = ecs.actors.len();
        let mut i: usize = 0;
        while i < n
            invariant
                i <= n,
                n == old(ecs).actors@.len(),
                ecs.actors@.len() == n,
                old(ecs).wf(),
                ecs.same_but_actors(old(ecs)),
                forall|k: int| 0 <= k < i ==> #[trigger] ecs.actors@[k] == old(ecs).decided(k),
                forall|k: int| i <= k < n ==> #[trigger] ecs.actors@[k] == old(ecs).actors@[k],
                requests@ == old(ecs).path_requests(i as int),
            decreases n - i,
        {
            let mut attack = false;
            if ecs.actors[i].monster.is_some() {
                match ecs.actors[i].position {
                    Some(pos) => {
                        match &ecs.actors[i].viewshed {
                            Some(viewshed) => {
                                let dx: i64 = pos.x as i64 - ecs.player_pos.x as i64;
                                let dy: i64 = pos.y as i64 - ecs.player_pos.y as i64;
                                if -1 <= dx && dx <= 1 && -1 <= dy && dy <= 1 {
                                    attack = true;
                                } else if contains_point(&viewshed.visible_tiles, ecs.player_pos) {
                                    // sees the player from afar: ask for a route
                                    let start = ecs.map.xy_idx(pos.x, pos.y);
                                    let goal = ecs.map.xy_idx(ecs.player_pos.x, ecs.player_pos.y);
                                    requests.push(PathRequest { actor: i, start, goal });
                                }
                            },
                            None => {},
                        }
                    },
                    None => {},
                }
            }
            if attack {
                ecs.actors[i].wants_to_melee = Some(WantsToMelee { target: ecs.player_entity });
            }
            i = i + 1;
        }
        proof {
            if old(ecs).ready() {
                ecs.lemma_ready_decided(old(ecs));
            }
        }
        requests
    }

    /// Moves the actor at the place `actor` one step along `path`, the answer
    /// to its request. If the route was found and is longer than its start,
    /// the actor leaves its cell, which is no longer blocked, for the second
    /// cell of the route, which now is; and what it sees is out of date.
    /// Otherwise nothing changes.
    pub fn follow(&mut self, ecs: &mut World, actor: usize, path: &NavigationPath)
        requires
            old(ecs).wf(),
            actor < old(ecs).actors@.len(),
            old(ecs).leads(actor as int, path) ==> path.steps@[1] < old(ecs).map.size(),
        ensures
            final(ecs).wf(),
            old(ecs).ready() ==> final(ecs).ready(),
            !old(ecs).leads(actor as int, path) ==> *final(ecs) == *old(ecs),
            old(ecs).leads(actor as int, path) ==> {
                let before = old(ecs).actors@[actor as int];
                let w = old(ecs).map.width as int;
                let from = old(ecs).map.index_of(
                    before.position.unwrap().x as int,
                    before.position.unwrap().y as int,
                );
                &&& final(ecs).actors@.len() == old(ecs).actors@.len()
                &&& forall|j: int|
                    0 <= j < old(ecs).actors@.len() && j != actor ==> final(ecs).actors@[j] == old(
                        ecs,
                    ).actors@[j]
                &&& final(ecs).actors@[actor as int].position == Some(
                    GridPosition {
                        x: ((path.steps@[1] as int) % w) as i32,
                        y: ((path.steps@[1] as int) / w) as i32,
                    },
                )
                &&& final(ecs).actors@[actor as int].viewshed.is_some()
                &&& final(ecs).actors@[actor as int].viewshed.unwrap().dirty
                &&& final(ecs).actors@[actor as int].viewshed.unwrap().range
                    == before.viewshed.unwrap().range
                &&& final(ecs).actors@[actor as int].viewshed.unwrap().visible_tiles
                    == before.viewshed.unwrap().visible_tiles
                &&& final(ecs).actors@[actor as int] == (Actor {
                    position: final(ecs).actors@[actor as int].position,
                    viewshed: final(ecs).actors@[actor as int].viewshed,
                    ..before
                })
                &&& final(ecs).map.blocked@ == old(ecs).map.blocked@.update(from, false).update(
                    path.steps@[1] as int,
                    true,
                )
                &&& final(ecs).map.tiles == old(ecs).map.tiles
                &&& final(ecs).map.rooms == old(ecs).map.rooms
                &&& final(ecs).map.width == old(ecs).map.width
                &&& final(ecs).map.height == old(ecs).map.height
                &&& final(ecs).map.revealed_tiles == old(ecs).map.revealed_tiles
                &&& final(ecs).map.visible_tiles == old(ecs).map.visible_tiles
                &&& final(ecs).map.tile_content == old(ecs).map.tile_content
                &&& final(ecs).player_pos == old(ecs).player_pos
                &&& final(ecs).player_entity == old(ecs).player_entity
                &&& final(ecs).run_state == old(ecs).run_state
                &&& final(ecs).log == old(ecs).log
            },
    {
        if !(path.success && path.steps.len() > 1) {
            return;
        }
        if ecs.actors[actor].monster.is_none() || ecs.actors[actor].viewshed.is_none() {
            return;
        }
        let pos = match ecs.actors[actor].position {
            Some(pos) => pos,
            None => {
                return;
            },
        };
        let next = path.steps[1];
        proof {
            old(ecs).map.lemma_index_split(next as int);
        }
        let idx = ecs.map.xy_idx(pos.x, pos.y);
        // the cell left is free again
        ecs.map.blocked[idx] = false;
        let x: i32 = next as i32 % ecs.map.width;
        let y: i32 = next as i32 / ecs.map.width;
        ecs.actors[actor].position = Some(GridPosition { x, y });
        ecs.map.blocked[next] = true;
        match &mut ecs.actors[actor].viewshed {
            Some(viewshed) => {
                viewshed.dirty = true;
            },
            None => {},
        }
        proof {
            if old(ecs).ready() {
                ecs.lemma_ready_kept(old(ecs));
            }
        }
    }
}

} // verus!
