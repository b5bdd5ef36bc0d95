use vstd::prelude::*;
use crate::damage_system::{delete_the_dead, hurt, player_fallen, survivors, DamageSystem};
use crate::map::TileType;
use crate::map_indexing_system::{lemma_standing_same, MapIndexingSystem};
use crate::melee_combat_system::{waiting, MeleeCombatSystem};
use crate::monster_ai_system::{MonsterAISystem, PathRequest};
use crate::player::player_input;
use crate::visibility_system::{ViewRequest, VisibilitySystem};
use crate::world::{Actor, World};

verus! {

/// Whose turn it is.
#[derive(Clone, Copy, Debug, PartialEq, Eq, Structural)]
pub enum RunState {
    AwaitingInput,
    PreRun,
    PlayerTurn,
    MonsterTurn,
}

/// How far the tick that is under way has come.
#[derive(Clone, Copy, Debug, PartialEq, Eq, Structural)]
pub enum Stage {
    /// No tick is under way.
    Idle,
    /// The tick waits for what the actors see.
    Looking,
    /// The tick waits for the routes of the monsters.
    Acting,
    /// The tick has nothing left to do but to take out the dead.
    Closing,
}

/// The game: the world, and how far the tick under way has come.
#[derive(Clone, Debug)]
pub struct State {
    pub ecs: World,
    pub stage: Stage,
}

impl RunState {
    /// The turn that comes when the systems have run in this one. The game
    /// starts in `PreRun`, and then goes round: it waits for input, the player
    /// has a turn, the monsters have a turn, and it waits again.
    pub open spec fn after_systems(self) -> RunState {
        match self {
            RunState::PreRun => RunState::AwaitingInput,
            RunState::PlayerTurn => RunState::MonsterTurn,
            RunState::MonsterTurn => RunState::AwaitingInput,
            RunState::AwaitingInput => RunState::AwaitingInput,
        }
    }

    /// The turn that comes when the systems have run in this one.
    pub fn next(self) -> (next: RunState)
        ensures
            next == self.after_systems(),
    {
        match self {
            RunState::PreRun => RunState::AwaitingInput,
            RunState::PlayerTurn => RunState::MonsterTurn,
            RunState::MonsterTurn => RunState::AwaitingInput,
            RunState::AwaitingInput => RunState::AwaitingInput,
        }
    }
}

impl World {
    /// The world with `run_state` as its turn.
    pub open spec fn at(&self, run_state: RunState) -> World {
        World { run_state, ..*self }
    }

    /// `after` is this world when the systems that follow the monsters have
    /// run and the dead have left: the map says anew where the actors stood,
    /// the blows have been struck and written to the log, the damage has been
    /// taken, the next turn has come, and only the survivors are there.
    pub open spec fn resolved(&self, after: &World) -> bool {
        let n = self.actors@.len() as int;
        &&& after.actors@ == survivors(self.after_fight())
        &&& after.log.lines() == self.log.lines() + self.fight_log(n)
        &&& after.run_state == self.run_state.after_systems()
        &&& after.player_pos == self.player_pos
        &&& after.player_entity == self.player_entity
        &&& after.map.tiles == self.map.tiles
        &&& after.map.rooms == self.map.rooms
        &&& after.map.width == self.map.width
        &&& after.map.height == self.map.height
        &&& after.map.revealed_tiles == self.map.revealed_tiles
        &&& after.map.visible_tiles == self.map.visible_tiles
        &&& forall|idx: int|
            0 <= idx < self.map.size() ==> {
                &&& #[trigger] after.map.blocked@[idx] == (self.map.tiles@[idx] == TileType::Wall
                    || self.occupied(idx, n))
                &&& after.map.tile_content@[idx]@ == self.standing_on(idx, n)
            }
    }
}

impl State {
    /// The world is ready for the next step of the tick. While the game waits
    /// for input, no dead actor is left in the world, but perhaps the player.
    pub open spec fn ready(&self) -> bool {
        &&& self.ecs.ready()
        &&& self.stage == Stage::Idle && self.ecs.run_state == RunState::AwaitingInput
            ==> self.ecs.swept()
    }

    /// Whether the world is ready for the next step of the tick.
    pub fn is_ready(&self) -> (ok: bool)
        ensures
            ok == self.ready(),
    {
        if !self.ecs.is_ready() {
            return false;
        }
        match self.stage {
            Stage::Idle => match self.ecs.run_state {
                RunState::AwaitingInput => self.ecs.is_swept(),
                _ => true,
            },
            _ => true,
        }
    }

    /// The game around `ecs`, with no tick under way.
    pub fn new(ecs: World) -> (gs: State)
        ensures
            gs.ecs == ecs,
            gs.stage == Stage::Idle,
    {
        State { ecs, stage: Stage::Idle }
    }

    /// Starts a tick. While the game waits for input, `intent` is taken: with
    /// a step the player tries it and the player's turn begins, with none the
    /// game goes on waiting; either way only the dead are left to take out. In
    /// every other turn the tick asks for what the actors see: each answer
    /// goes to `VisibilitySystem::see`, and then `plan` goes on.
    pub fn update(&mut self, intent: Option<(i32, i32)>) -> (requests: Vec<ViewRequest>)
        requires
            old(self).stage == Stage::Idle,
            old(self).ready(),
            intent matches Some(d) ==> -1 <= d.0 <= 1 && -1 <= d.1 <= 1,
        ensures
            final(self).ecs.ready(),
            old(self).ecs.run_state != RunState::AwaitingInput ==> {
                &&& final(self).stage == Stage::Looking
                &&& final(self).ecs == old(self).ecs
                &&& requests@ == old(self).ecs.view_requests(old(self).ecs.actors@.len() as int)
            },
            old(self).ecs.run_state == RunState::AwaitingInput ==> {
                &&& final(self).stage == Stage::Closing
                &&& requests@.len() == 0
                &&& final(self).ecs.swept()
                &&& intent is None ==> final(self).ecs == old(self).ecs
                &&& intent matches Some(d) ==> {
                    &&& final(self).ecs.run_state == RunState::PlayerTurn
                    &&& !old(self).ecs.has_steered() ==> final(self).ecs == old(self).ecs.at(
                        RunState::PlayerTurn,
                    )
                    &&& old(self).ecs.has_steered() ==> old(self).ecs.moved(
                        &final(self).ecs.at(RunState::AwaitingInput),
                        d.0 as int,
                        d.1 as int,
                    )
                }
            },
    {
        match self.ecs.run_state {
            RunState::AwaitingInput => {
                // only the input changes the turn here
                let next = player_input(self, intent);
                let ghost moved = self.ecs;
                self.ecs.run_state = next;
                self.stage = Stage::Closing;
                proof {
                    self.ecs.lemma_turn_kept(&moved);
                }
                Vec::new()
            },
            _ => {
                let mut vis = VisibilitySystem {};
                let requests = vis.run(&self.ecs);
                self.stage = Stage::Looking;
                requests
            },
        }
    }

    /// Goes on with a tick when the actors have seen. In the monsters' turn
    /// the monsters make up their minds: those beside the player wish to hit,
    /// and for those that go after the player the tick asks for routes. Each
    /// answer goes to `MonsterAISystem::follow`, in the order of the requests,
    /// and then `finish` goes on. In any other turn nothing is done and
    /// nothing asked.
    pub fn plan(&mut self) -> (requests: Vec<PathRequest>)
        requires
            old(self).stage == Stage::Looking || old(self).stage == Stage::Closing,
            old(self).ecs.ready(),
        ensures
            final(self).ecs.ready(),
            old(self).ecs.swept() && old(self).stage == Stage::Closing ==> final(self).ecs.swept(),
            old(self).stage == Stage::Closing ==> *final(self) == *old(self) && requests@.len() == 0,
            old(self).stage == Stage::Looking ==> final(self).stage == Stage::Acting,
            old(self).stage == Stage::Looking && old(self).ecs.run_state != RunState::MonsterTurn ==> {
                &&& final(self).ecs == old(self).ecs
                &&& requests@.len() == 0
            },
            old(self).stage == Stage::Looking && old(self).ecs.run_state == RunState::MonsterTurn ==> {
                &&& final(self).ecs.same_but_actors(&old(self).ecs)
                &&& final(self).ecs.actors@.len() == old(self).ecs.actors@.len()
                &&& forall|i: int|
                    0 <= i < old(self).ecs.actors@.len() ==> #[trigger] final(self).ecs.actors@[i]
                        == old(self).ecs.decided(i)
                &&& requests@ == old(self).ecs.path_requests(old(self).ecs.actors@.len() as int)
            },
    {
        match self.stage {
            Stage::Looking => {
                self.stage = Stage::Acting;
                match self.ecs.run_state {
                    RunState::MonsterTurn => {
                        let mut mob = MonsterAISystem {};
                        mob.run(&mut self.ecs)
                    },
                    _ => Vec::new(),
                }
            },
            _ => Vec::new(),
        }
    }

    /// Ends a tick. If systems ran in it, the rest of them run: the map is
    /// told anew where the actors stand, the blows are struck, the damage is
    /// taken, and the next turn comes. Then the dead leave the world, but not
    /// the player. Says whether the player is dead: then the game is over.
    pub fn finish(&mut self) -> (player_dead: bool)
        requires
            old(self).stage == Stage::Acting || old(self).stage == Stage::Closing,
            old(self).ecs.ready(),
        ensures
            final(self).stage == Stage::Idle,
            final(self).ready(),
            final(self).ecs.swept(),
            old(self).stage == Stage::Closing ==> {
                &&& final(self).ecs.same_but_actors(&old(self).ecs)
                &&& final(self).ecs.actors@ == survivors(old(self).ecs.actors@)
                &&& player_dead == player_fallen(
                    old(self).ecs.actors@,
                    old(self).ecs.actors@.len() as int,
                )
            },
            old(self).stage == Stage::Acting ==> {
                &&& old(self).ecs.resolved(&final(self).ecs)
                &&& player_dead == player_fallen(
                    old(self).ecs.after_fight(),
                    old(self).ecs.actors@.len() as int,
                )
            },
            old(self).stage == Stage::Acting ==> final(self).ecs.no_intents(),
            forall|idx: int|
                0 <= idx < old(self).ecs.map.size() && old(self).ecs.map.revealed_tiles@[idx]
                    ==> #[trigger] final(self).ecs.map.revealed_tiles@[idx],
    {
        match self.stage {
            Stage::Acting => {
                let mut mapindex = MapIndexingSystem {};
                mapindex.run(&mut self.ecs);
                let ghost indexed = self.ecs;
                proof {
                    self.ecs.lemma_ready_answerable();
                }
                let mut melee = MeleeCombatSystem {};
                melee.run(&mut self.ecs);
                let mut damage = DamageSystem {};
                damage.run(&mut self.ecs);
                self.ecs.run_state = self.ecs.run_state.next();
                let ghost fought = self.ecs;
                proof {
                    let n = old(self).ecs.actors@.len() as int;
                    assert forall|t: int| 0 <= t < n implies #[trigger] fought.actors@[t] == old(
                        self,
                    ).ecs.fought(t) by {
                        old(self).ecs.lemma_fight_same(&indexed, t, n);
                    }
                    assert(fought.actors@ =~= old(self).ecs.after_fight());
                    old(self).ecs.lemma_fight_same(&indexed, 0, n);
                    assert forall|idx: int| 0 <= idx < old(self).ecs.map.size() implies {
                        &&& #[trigger] fought.map.blocked@[idx] == (old(self).ecs.map.tiles@[idx]
                            == TileType::Wall || old(self).ecs.occupied(idx, n))
                        &&& fought.map.tile_content@[idx]@ == old(self).ecs.standing_on(idx, n)
                    } by {
                        lemma_standing_same(indexed, old(self).ecs, idx, n);
                    }
                    fought.lemma_fought_ready(&indexed);
                }
                let player_dead = delete_the_dead(&mut self.ecs);
                self.stage = Stage::Idle;
                proof {
                    self.ecs.lemma_survivors_ready(&fought);
                    let n = old(self).ecs.actors@.len() as int;
                    assert(self.ecs.actors@ == survivors(old(self).ecs.after_fight()));
                    assert(self.ecs.log.lines() == old(self).ecs.log.lines() + old(self).ecs.fight_log(n));
                    assert(self.ecs.map == fought.map);
                    assert forall|idx: int| 0 <= idx < old(self).ecs.map.size() implies {
                        &&& #[trigger] self.ecs.map.blocked@[idx] == (old(self).ecs.map.tiles@[idx]
                            == TileType::Wall || old(self).ecs.occupied(idx, n))
                        &&& self.ecs.map.tile_content@[idx]@ == old(self).ecs.standing_on(idx, n)
                    } by {
                        assert(fought.map.blocked@[idx] == (old(self).ecs.map.tiles@[idx]
                            == TileType::Wall || old(self).ecs.occupied(idx, n)));
                    }
                }
                player_dead
            },
            _ => {
                let ghost before = self.ecs;
                let player_dead = delete_the_dead(&mut self.ecs);
                self.stage = Stage::Idle;
                proof {
                    self.ecs.lemma_survivors_ready(&before);
                }
                player_dead
            },
        }
    }
}

impl World {
    /// A world that differs from a ready one only in its turn is ready, and
    /// has no dead actors left if that one had none.
    pub proof fn lemma_turn_kept(&self, before: &World)
        requires
            before.ready(),
            self.at(before.run_state) == *before,
        ensures
            self.ready(),
            before.swept() ==> self.swept(),
    {
        self.lemma_ready_kept(before);
    }

    /// When the blows have been struck and the damage has been taken in a
    /// ready world, the world is ready again, and nobody wishes to hit anybody.
    pub proof fn lemma_fought_ready(&self, before: &World)
        requires
            before.ready(),
            self.wf(),
            self.map == before.map,
            self.player_entity == before.player_entity,
            self.actors@.len() == before.actors@.len(),
            forall|t: int|
                0 <= t < before.actors@.len() ==> #[trigger] self.actors@[t] == hurt(
                    Actor {
                        wants_to_melee: None,
                        suffer_damage: waiting(before.damage_to(t, before.actors@.len() as int)),
                        ..before.actors@[t]
                    },
                ),
        ensures
            self.ready(),
            self.no_intents(),
    {
        self.lemma_same_places(before, self.player_entity);
    }
}

} // verus!
