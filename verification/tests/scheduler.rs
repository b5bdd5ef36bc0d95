use dungeon_sim::{
    Actor, BlocksTile, CombatStats, GridMap, GridPosition, LogEntry, Monster, MonsterAISystem,
    Name, NavigationPath, Player, Point, Rect32, RunState, Stage, State, Viewshed,
    VisibilitySystem, World,
};

struct Terrain<'a>(&'a GridMap);

impl<'a> Terrain<'a> {
    fn cell(&self, idx: usize) -> rltk::Point {
        rltk::Point::new(idx as i32 % self.0.width, idx as i32 / self.0.width)
    }
}

impl<'a> rltk::BaseMap for Terrain<'a> {
    fn is_opaque(&self, idx: usize) -> bool {
        self.0.is_opaque(idx)
    }

    fn get_available_exits(&self, idx: usize) -> rltk::SmallVec<[(usize, f32); 10]> {
        self.0
            .get_available_exits(idx)
            .into_iter()
            .map(|(to, cost)| (to, cost as f32 / 100.0))
            .collect()
    }

    fn get_pathing_distance(&self, idx1: usize, idx2: usize) -> f32 {
        rltk::DistanceAlg::Pythagoras.distance2d(self.cell(idx1), self.cell(idx2))
    }
}

impl<'a> rltk::Algorithm2D for Terrain<'a> {
    fn dimensions(&self) -> rltk::Point {
        rltk::Point::new(self.0.width, self.0.height)
    }
}

/// One tick, with the field of view and the routes from outside.
fn tick(gs: &mut State, intent: Option<(i32, i32)>) -> bool {
    let views = gs.update(intent);
    for request in views {
        let cells = rltk::FieldOfViewAlg::SymmetricShadowcasting
            .field_of_view(rltk::Point::new(request.x, request.y), request.range, &Terrain(&gs.ecs.map))
            .into_iter()
            .map(|p| Point { x: p.x, y: p.y })
            .collect();
        VisibilitySystem {}.see(&mut gs.ecs, request.actor, cells);
    }
    let routes = gs.plan();
    for request in routes {
        let found = rltk::a_star_search(request.start, request.goal, &Terrain(&gs.ecs.map));
        let path = NavigationPath {
            destination: found.destination,
            success: found.success,
            steps: found.steps,
        };
        MonsterAISystem {}.follow(&mut gs.ecs, request.actor, &path);
    }
    gs.finish()
}

fn player_at(x: i32, y: i32, hp: i32) -> Actor {
    let mut actor = Actor::new(1);
    actor.position = Some(GridPosition { x, y });
    actor.player = Some(Player {});
    actor.viewshed = Some(Viewshed { visible_tiles: Vec::new(), range: 8, dirty: true });
    actor.name = Some(Name { name: "Player".to_string() });
    actor.combat_stats = Some(CombatStats { max_hp: 30, hp, defense: 2, power: 5 });
    actor
}

fn goblin_at(entity: u32, x: i32, y: i32, hp: i32) -> Actor {
    let mut actor = Actor::new(entity);
    actor.position = Some(GridPosition { x, y });
    actor.monster = Some(Monster {});
    actor.blocks_tile = Some(BlocksTile {});
    actor.viewshed = Some(Viewshed { visible_tiles: Vec::new(), range: 8, dirty: true });
    actor.name = Some(Name { name: format!("Goblin #{}", entity) });
    actor.combat_stats = Some(CombatStats { max_hp: 16, hp, defense: 1, power: 4 });
    actor
}

fn game(actors: Vec<Actor>) -> State {
    let mut map = GridMap::new(14, 9);
    map.apply_room_to_map(&Rect32::new(0, 0, 12, 7));
    let mut world = World::new(map);
    let player = actors.iter().find(|a| a.player.is_some()).unwrap().position.unwrap();
    world.player_entity = 1;
    world.player_pos = Point { x: player.x, y: player.y };
    world.actors = actors;
    State::new(world)
}

fn place_of(gs: &State, entity: u32) -> GridPosition {
    gs.ecs.actors[gs.ecs.find(entity).unwrap()].position.unwrap()
}

fn hp_of(gs: &State, entity: u32) -> i32 {
    gs.ecs.actors[gs.ecs.find(entity).unwrap()].combat_stats.unwrap().hp
}

#[test]
fn the_turns_go_round() {
    let mut gs = game(vec![player_at(3, 3, 30)]);
    assert_eq!(gs.ecs.run_state, RunState::PreRun);
    assert_eq!(gs.stage, Stage::Idle);
    tick(&mut gs, None);
    assert_eq!(gs.ecs.run_state, RunState::AwaitingInput);
    // without input the game goes on waiting
    tick(&mut gs, None);
    tick(&mut gs, None);
    assert_eq!(gs.ecs.run_state, RunState::AwaitingInput);
    tick(&mut gs, Some((1, 0)));
    assert_eq!(gs.ecs.run_state, RunState::PlayerTurn);
    assert_eq!(place_of(&gs, 1), GridPosition { x: 4, y: 3 });
    tick(&mut gs, Some((1, 0)));
    assert_eq!(gs.ecs.run_state, RunState::MonsterTurn);
    tick(&mut gs, Some((1, 0)));
    assert_eq!(gs.ecs.run_state, RunState::AwaitingInput);
    // input is taken only while the game waits for it
    assert_eq!(place_of(&gs, 1), GridPosition { x: 4, y: 3 });
    assert_eq!(gs.stage, Stage::Idle);
    assert_eq!(RunState::PreRun.next(), RunState::AwaitingInput);
    assert_eq!(RunState::PlayerTurn.next(), RunState::MonsterTurn);
    assert_eq!(RunState::MonsterTurn.next(), RunState::AwaitingInput);
    assert_eq!(RunState::AwaitingInput.next(), RunState::AwaitingInput);
}

#[test]
fn the_first_tick_shows_the_player_the_room() {
    let mut gs = game(vec![player_at(3, 3, 30), goblin_at(2, 10, 5, 16)]);
    assert!(gs.ecs.map.revealed_tiles.iter().all(|r| !*r));
    tick(&mut gs, None);
    let map = &gs.ecs.map;
    assert!(map.visible_tiles[map.xy_idx(3, 3)]);
    assert!(map.visible_tiles[map.xy_idx(10, 5)]);
    assert!(map.revealed_tiles[map.xy_idx(10, 5)]);
    assert!(gs.ecs.actors.iter().all(|a| !a.viewshed.clone().unwrap().dirty));
    // the index knows the monster, which has not moved: it is not its turn
    assert_eq!(map.tile_content[map.xy_idx(10, 5)], vec![2]);
    assert!(map.blocked[map.xy_idx(10, 5)]);
    assert!(!map.blocked[map.xy_idx(3, 3)]);
    assert_eq!(place_of(&gs, 2), GridPosition { x: 10, y: 5 });
    assert!(gs.ecs.log.entries.is_empty());
}

#[test]
fn monsters_move_in_their_turn_only() {
    let mut gs = game(vec![player_at(3, 3, 30), goblin_at(2, 10, 3, 16)]);
    tick(&mut gs, None);
    tick(&mut gs, Some((0, 1)));
    assert_eq!(place_of(&gs, 2), GridPosition { x: 10, y: 3 });
    tick(&mut gs, None);
    assert_eq!(gs.ecs.run_state, RunState::MonsterTurn);
    assert_eq!(place_of(&gs, 2), GridPosition { x: 10, y: 3 });
    tick(&mut gs, None);
    assert_eq!(gs.ecs.run_state, RunState::AwaitingInput);
    let pos = place_of(&gs, 2);
    assert_eq!(pos.x, 9);
    assert!((pos.y - 3).abs() <= 1);
    // the index follows the move
    let map = &gs.ecs.map;
    assert_eq!(map.tile_content[map.xy_idx(pos.x, pos.y)], vec![2]);
    assert!(map.blocked[map.xy_idx(pos.x, pos.y)]);
    assert!(!map.blocked[map.xy_idx(10, 3)]);
    assert!(map.tile_content[map.xy_idx(10, 3)].is_empty());
}

#[test]
fn the_player_kills_a_goblin() {
    let mut gs = game(vec![player_at(3, 3, 30), goblin_at(2, 4, 3, 8)]);
    tick(&mut gs, None);
    // each round: the player strikes for 5 - 1, the goblin for 4 - 2
    tick(&mut gs, Some((1, 0)));
    assert_eq!(gs.ecs.run_state, RunState::PlayerTurn);
    assert!(gs.ecs.actors[0].wants_to_melee.is_some());
    assert_eq!(place_of(&gs, 1), GridPosition { x: 3, y: 3 });
    tick(&mut gs, None);
    assert_eq!(hp_of(&gs, 2), 4);
    assert_eq!(hp_of(&gs, 1), 30);
    tick(&mut gs, None);
    assert_eq!(hp_of(&gs, 1), 28);
    assert_eq!(
        gs.ecs.log.entries,
        vec![
            LogEntry::Hit { attacker: "Player".to_string(), target: "Goblin #2".to_string(), damage: 4 },
            LogEntry::Hit { attacker: "Goblin #2".to_string(), target: "Player".to_string(), damage: 2 },
        ]
    );
    tick(&mut gs, Some((1, 0)));
    let dead = tick(&mut gs, None);
    assert!(!dead);
    // the goblin is at 0 and has left the world in the same tick
    assert_eq!(gs.ecs.find(2), None);
    assert_eq!(gs.ecs.actors.len(), 1);
    tick(&mut gs, None);
    assert_eq!(gs.ecs.run_state, RunState::AwaitingInput);
    assert_eq!(hp_of(&gs, 1), 28);
    assert_eq!(gs.ecs.log.entries.len(), 3);
    // the way is free now
    tick(&mut gs, None);
    tick(&mut gs, Some((1, 0)));
    assert_eq!(place_of(&gs, 1), GridPosition { x: 4, y: 3 });
}

#[test]
fn a_dead_player_is_reported_and_stays() {
    let mut gs = game(vec![goblin_at(2, 4, 3, 16), player_at(3, 3, 2), goblin_at(3, 2, 3, 16)]);
    assert!(!tick(&mut gs, None));
    assert!(!tick(&mut gs, Some((0, 1))));
    assert!(!tick(&mut gs, None));
    // both goblins are beside the player still, and strike for 4 - 2 each
    let dead = tick(&mut gs, None);
    assert!(dead);
    assert_eq!(hp_of(&gs, 1), -2);
    assert_eq!(gs.ecs.actors.len(), 3);
    assert_eq!(gs.ecs.run_state, RunState::AwaitingInput);
    assert!(tick(&mut gs, None));
    assert_eq!(gs.ecs.actors.len(), 3);
}
