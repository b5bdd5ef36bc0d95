use vstd::prelude::*;
use crate::components::{
    BlocksTile, CombatStats, Entity, GridPosition, Monster, Name, Player, Point, SufferDamage,
    Viewshed, WantsToMelee,
};
use crate::map::GridMap;
use crate::state::RunState;

verus! {

/// The most actors that a world holds.
pub const MAX_ACTORS: usize = 4096;

/// The bound on the size of `power` and `defense`, above and below zero.
pub const STAT_LIMIT: i32 = 100_000;

/// One actor: its identity and whatever it has of the things an actor can have.
#[derive(Clone, Debug, PartialEq)]
pub struct Actor {
    pub entity: Entity,
    pub position: Option<GridPosition>,
    pub player: Option<Player>,
    pub viewshed: Option<Viewshed>,
    pub monster: Option<Monster>,
    pub name: Option<Name>,
    pub blocks_tile: Option<BlocksTile>,
    pub combat_stats: Option<CombatStats>,
    pub wants_to_melee: Option<WantsToMelee>,
    pub suffer_damage: Option<SufferDamage>,
}

/// What happened in a fight, for the message log.
#[derive(Clone, Debug, PartialEq)]
pub enum LogEntry {
    /// The attacker's blow did no damage.
    UnableToHurt { attacker: String, target: String },
    /// The attacker's blow did `damage`.
    Hit { attacker: String, target: String, damage: i32 },
}

/// A log entry with its names as plain text.
pub enum LogLine {
    UnableToHurt { attacker: Seq<char>, target: Seq<char> },
    Hit { attacker: Seq<char>, target: Seq<char>, damage: int },
}

impl View for LogEntry {
    type V = LogLine;

    open spec fn view(&self) -> LogLine {
        match *self {
            LogEntry::UnableToHurt { attacker, target } => LogLine::UnableToHurt {
                attacker: attacker@,
                target: target@,
            },
            LogEntry::Hit { attacker, target, damage } => LogLine::Hit {
                attacker: attacker@,
                target: target@,
                damage: damage as int,
            },
        }
    }
}

/// The messages of the game, oldest first.
#[derive(Clone, Debug, PartialEq)]
pub struct GameLog {
    pub entries: Vec<LogEntry>,
}

impl GameLog {
    /// The messages as plain text values, oldest first.
    pub open spec fn lines(&self) -> Seq<LogLine> {
        self.entries@.map_values(|e: LogEntry| e@)
    }
}

/// Everything that a turn reads and changes.
#[derive(Clone, Debug)]
pub struct World {
    /// The actors in the order in which they were made. Every pass over the
    /// actors goes in this order.
    pub actors: Vec<Actor>,
    pub map: GridMap,
    /// Where the player was last known to stand.
    pub player_pos: Point,
    /// The actor that is the player.
    pub player_entity: Entity,
    pub run_state: RunState,
    pub log: GameLog,
}

impl Actor {
    /// An actor with the identity `entity` and nothing else.
    pub fn new(entity: Entity) -> (actor: Actor)
        ensures
            actor.entity == entity,
            actor.position.is_none(),
            actor.player.is_none(),
            actor.viewshed.is_none(),
            actor.monster.is_none(),
            actor.name.is_none(),
            actor.blocks_tile.is_none(),
            actor.combat_stats.is_none(),
            actor.wants_to_melee.is_none(),
            actor.suffer_damage.is_none(),
    {
        Actor {
            entity,
            position: None,
            player: None,
            viewshed: None,
            monster: None,
            name: None,
            blocks_tile: None,
            combat_stats: None,
            wants_to_melee: None,
            suffer_damage: None,
        }
    }

    /// Whether the numbers of the actor are in range.
    pub fn is_in_range(&self) -> (ok: bool)
        ensures
            ok == self.in_range(),
    {
        let stats_ok = match self.combat_stats {
            Some(stats) => -STAT_LIMIT <= stats.power && stats.power <= STAT_LIMIT && -STAT_LIMIT
                <= stats.defense && stats.defense <= STAT_LIMIT,
            None => true,
        };
        let damage_ok = match self.suffer_damage {
            Some(damage) => 0 <= damage.amount && match self.combat_stats {
                Some(stats) => stats.hp as i64 - damage.amount as i64 >= -0x8000_0000i64,
                None => true,
            },
            None => true,
        };
        stats_ok && damage_ok
    }

    /// The actor is the player.
    pub open spec fn is_player(&self) -> bool {
        self.player.is_some()
    }

    /// The actor has hit points and has lost them all.
    pub open spec fn is_dead(&self) -> bool {
        self.combat_stats.is_some() && self.combat_stats.unwrap().hp < 1
    }

    /// The actor keeps others off its cell: it is marked so and is not the player.
    pub open spec fn blocks(&self) -> bool {
        self.blocks_tile.is_some() && !self.is_player()
    }

    /// The actor stands on the cell `idx` of `map`.
    pub open spec fn stands_on(&self, map: &GridMap, idx: int) -> bool {
        self.position.is_some() && map.index_of(
            self.position.unwrap().x as int,
            self.position.unwrap().y as int,
        ) == idx
    }

    /// The numbers of the actor are small enough for the arithmetic of a fight,
    /// and damage waits only where taking it from the hit points cannot overflow.
    pub open spec fn in_range(&self) -> bool {
        &&& self.combat_stats.is_some() ==> {
            &&& -STAT_LIMIT <= self.combat_stats.unwrap().power <= STAT_LIMIT
            &&& -STAT_LIMIT <= self.combat_stats.unwrap().defense <= STAT_LIMIT
        }
        &&& self.suffer_damage.is_some() ==> 0 <= self.suffer_damage.unwrap().amount
        &&& self.combat_stats.is_some() && self.suffer_damage.is_some()
            ==> self.combat_stats.unwrap().hp - self.suffer_damage.unwrap().amount >= i32::MIN
    }
}

impl World {
    /// A world on `map` with no actors and an empty log, before its first turn.
    pub fn new(map: GridMap) -> (world: World)
        requires
            map.wf(),
        ensures
            world.wf(),
            world.map == map,
            world.actors@.len() == 0,
            world.log.entries@.len() == 0,
            world.player_pos == (Point { x: 0, y: 0 }),
            world.player_entity == 0,
            world.run_state == RunState::PreRun,
    {
        World {
            actors: Vec::new(),
            map,
            player_pos: Point { x: 0, y: 0 },
            player_entity: 0,
            run_state: RunState::PreRun,
            log: GameLog { entries: Vec::new() },
        }
    }

    /// The map is well formed, and the player was last seen on it; there are at
    /// most `MAX_ACTORS` actors, no two with the same identity, at most one of
    /// them the player, and none both player and monster; every actor that has
    /// a position stands on the map; and every actor is in range.
    pub open spec fn wf(&self) -> bool {
        &&& self.map.wf()
        &&& self.map.in_bounds(self.player_pos.x as int, self.player_pos.y as int)
        &&& forall|i: int|
            0 <= i < self.actors@.len() ==> !((#[trigger] self.actors@[i]).is_player()
                && self.actors@[i].monster.is_some())
        &&& self.actors@.len() <= MAX_ACTORS
        &&& forall|i: int, j: int|
            0 <= i < j < self.actors@.len() ==> (#[trigger] self.actors@[i]).entity != (
            #[trigger] self.actors@[j]).entity
        &&& forall|i: int, j: int|
            0 <= i < j < self.actors@.len() ==> !((#[trigger] self.actors@[i]).is_player() && (
            #[trigger] self.actors@[j]).is_player())
        &&& forall|i: int|
            0 <= i < self.actors@.len() && (#[trigger] self.actors@[i]).position.is_some()
                ==> self.map.in_bounds(
                self.actors@[i].position.unwrap().x as int,
                self.actors@[i].position.unwrap().y as int,
            )
        &&& forall|i: int| 0 <= i < self.actors@.len() ==> (#[trigger] self.actors@[i]).in_range()
    }

    /// Whether the world is well formed.
    pub fn is_valid(&self) -> (ok: bool)
        ensures
            ok == self.wf(),
    {
        if !self.map.is_valid() || !self.map.contains(self.player_pos.x, self.player_pos.y)
            || self.actors.len() > MAX_ACTORS {
            return false;
        }
        let n = self.actors.len();
        let mut players: usize = 0;
        let ghost mut first_player: int = -1;
        let mut i: usize = 0;
        while i < n
            invariant
                i <= n,
                n == self.actors@.len(),
                self.map.wf(),
                players <= i,
                players <= 1,
                players == 0 ==> forall|k: int| 0 <= k < i ==> !(#[trigger] self.actors@[k]).is_player(),
                players == 1 ==> 0 <= first_player < i && self.actors@[first_player].is_player()
                    && forall|k: int|
                    0 <= k < i && k != first_player ==> !(#[trigger] self.actors@[k]).is_player(),
                forall|a: int, b: int|
                    0 <= a < b < i ==> (#[trigger] self.actors@[a]).entity != (
                    #[trigger] self.actors@[b]).entity,
                forall|k: int|
                    0 <= k < i ==> {
                        &&& !((#[trigger] self.actors@[k]).is_player() && self.actors@[k].monster.is_some())
                        &&& self.actors@[k].in_range()
                        &&& self.actors@[k].position.is_some() ==> self.map.in_bounds(
                            self.actors@[k].position.unwrap().x as int,
                            self.actors@[k].position.unwrap().y as int,
                        )
                    },
            decreases n - i,
        {
            let actor = &self.actors[i];
            if actor.player.is_some() {
                if players == 1 || actor.monster.is_some() {
                    return false;
                }
                players = 1;
                proof {
                    first_player = i as int;
                }
            }
            if !actor.is_in_range() {
                return false;
            }
            match actor.position {
                Some(pos) => {
                    if !self.map.contains(pos.x, pos.y) {
                        return false;
                    }
                },
                None => {},
            }
            let mut j: usize = 0;
            while j < i
                invariant
                    j <= i,
                    i < n,
                    n == self.actors@.len(),
                    forall|a: int| 0 <= a < j ==> (#[trigger] self.actors@[a]).entity != self.actors@[i as int].entity,
                decreases i - j,
            {
                if self.actors[j].entity == self.actors[i].entity {
                    return false;
                }
                j = j + 1;
            }
            i = i + 1;
        }
        true
    }

    /// Some actor has the identity `e`.
    pub open spec fn holds(&self, e: Entity) -> bool {
        exists|i: int| 0 <= i < self.actors@.len() && (#[trigger] self.actors@[i]).entity == e
    }

    /// The place of the actor with the identity `e` among the actors.
    pub open spec fn place_of(&self, e: Entity) -> int {
        choose|i: int| 0 <= i < self.actors@.len() && (#[trigger] self.actors@[i]).entity == e
    }

    /// No damage waits for any actor.
    pub open spec fn no_pending_damage(&self) -> bool {
        forall|i: int| 0 <= i < self.actors@.len() ==> (#[trigger] self.actors@[i]).suffer_damage.is_none()
    }

    /// No actor wishes to hit anyone.
    pub open spec fn no_intents(&self) -> bool {
        forall|i: int| 0 <= i < self.actors@.len() ==> (#[trigger] self.actors@[i]).wants_to_melee.is_none()
    }

    /// Everything but the actors is as in `before`.
    pub open spec fn same_but_actors(&self, before: &World) -> bool {
        &&& self.map == before.map
        &&& self.player_pos == before.player_pos
        &&& self.player_entity == before.player_entity
        &&& self.run_state == before.run_state
        &&& self.log == before.log
    }

    /// Where the actor with the identity `e` is among the actors, if there is one.
    pub fn find(&self, e: Entity) -> (place: Option<usize>)
        ensures
            place.is_some() == self.holds(e),
            place matches Some(i) ==> i < self.actors@.len() && self.actors@[i as int].entity == e
                && forall|j: int| 0 <= j < i ==> self.actors@[j].entity != e,
    {
        let mut i: usize = 0;
        while i < self.actors.len()
            invariant
                i <= self.actors@.len(),
                forall|j: int| 0 <= j < i ==> self.actors@[j].entity != e,
            decreases self.actors@.len() - i,
        {
            if self.actors[i].entity == e {
                return Some(i);
            }
            i = i + 1;
        }
        None
    }

    /// A world is well formed if it has a well-formed map of the same extents
    /// as a well-formed world, the player last seen on it, and the same actors
    /// but for changes that leave each actor's identity and marks as they were,
    /// its place on the map and its numbers in range.
    pub proof fn lemma_wf_kept(&self, before: &World)
        requires
            before.wf(),
            self.map.wf(),
            self.map.in_bounds(self.player_pos.x as int, self.player_pos.y as int),
            self.actors@.len() == before.actors@.len(),
            forall|i: int|
                0 <= i < self.actors@.len() ==> {
                    &&& (#[trigger] self.actors@[i]).entity == before.actors@[i].entity
                    &&& self.actors@[i].player == before.actors@[i].player
                    &&& self.actors@[i].monster == before.actors@[i].monster
                    &&& self.actors@[i].in_range()
                    &&& self.actors@[i].position.is_some() ==> self.map.in_bounds(
                        self.actors@[i].position.unwrap().x as int,
                        self.actors@[i].position.unwrap().y as int,
                    )
                },
        ensures
            self.wf(),
    {
    }

    /// Among actors with distinct identities, the actor at the place `i` is the
    /// one that its identity leads to.
    pub proof fn lemma_place_of(&self, i: int)
        requires
            self.wf(),
            0 <= i < self.actors@.len(),
        ensures
            self.holds(self.actors@[i].entity),
            self.place_of(self.actors@[i].entity) == i,
    {
        let e = self.actors@[i].entity;
    }
}

} // verus!
