use dungeon_sim::{
    Actor, CombatStats, GridMap, GridPosition, Monster, Name, NavigationPath, Player, Point,
    Rect32, RunState, Stage, State, SufferDamage, Viewshed, WantsToMelee, World,
};

fn player() -> Actor {
    let mut actor = Actor::new(1);
    actor.position = Some(GridPosition { x: 2, y: 2 });
    actor.player = Some(Player {});
    actor.viewshed = Some(Viewshed { visible_tiles: Vec::new(), range: 8, dirty: true });
    actor.name = Some(Name { name: "Player".to_string() });
    actor.combat_stats = Some(CombatStats { max_hp: 30, hp: 30, defense: 2, power: 5 });
    actor
}

fn goblin(entity: u32) -> Actor {
    let mut actor = Actor::new(entity);
    actor.position = Some(GridPosition { x: 4, y: 4 });
    actor.monster = Some(Monster {});
    actor.viewshed = Some(Viewshed { visible_tiles: Vec::new(), range: 8, dirty: true });
    actor.name = Some(Name { name: "Goblin".to_string() });
    actor.combat_stats = Some(CombatStats { max_hp: 16, hp: 16, defense: 1, power: 4 });
    actor
}

fn world() -> World {
    let mut map = GridMap::new(8, 7);
    map.apply_room_to_map(&Rect32::new(0, 0, 6, 5));
    let mut world = World::new(map);
    world.actors = vec![player(), goblin(2), goblin(3)];
    world.player_entity = 1;
    world.player_pos = Point { x: 2, y: 2 };
    world
}

#[test]
fn a_fresh_world_is_in_order() {
    let w = world();
    assert!(w.map.is_valid());
    assert!(w.is_valid());
    assert!(w.is_ready());
    assert!(w.is_swept());
    assert!(State::new(w).is_ready());
    assert!(World::new(GridMap::new(3, 3)).is_valid());
    // without a player a world is in order, but a tick cannot start
    assert!(!World::new(GridMap::new(3, 3)).is_ready());
}

#[test]
fn a_map_with_a_table_too_short_is_not_valid() {
    let mut map = GridMap::new(4, 4);
    assert!(map.is_valid());
    map.blocked.pop();
    assert!(!map.is_valid());
    let mut map = GridMap::new(4, 4);
    map.width = 0;
    assert!(!map.is_valid());
    let mut map = GridMap::new(4, 4);
    map.height = 5;
    assert!(!map.is_valid());
    assert!(map.contains(3, 4));
    assert!(!map.contains(4, 0));
    assert!(!map.contains(0, 5));
    assert!(!map.contains(-1, 0));
}

#[test]
fn what_puts_a_world_out_of_order() {
    let mut w = world();
    w.actors[2].entity = 2;
    assert!(!w.is_valid());

    let mut w = world();
    w.actors[1].player = Some(Player {});
    assert!(!w.is_valid());

    let mut w = world();
    w.actors[0].monster = Some(Monster {});
    assert!(!w.is_valid());

    let mut w = world();
    w.actors[1].position = Some(GridPosition { x: 8, y: 2 });
    assert!(!w.is_valid());

    let mut w = world();
    w.player_pos = Point { x: 0, y: 7 };
    assert!(!w.is_valid());

    let mut w = world();
    w.actors[1].combat_stats = Some(CombatStats { max_hp: 1, hp: 1, defense: 0, power: 100_001 });
    assert!(!w.is_valid());
    w.actors[1].combat_stats = Some(CombatStats { max_hp: 1, hp: 1, defense: -100_000, power: 100_000 });
    assert!(w.is_valid());

    let mut w = world();
    w.actors[1].suffer_damage = Some(SufferDamage { amount: -1 });
    assert!(!w.is_valid());
    w.actors[1].suffer_damage = Some(SufferDamage { amount: 5 });
    assert!(w.is_valid());
    assert!(!w.is_ready());
    w.actors[1].combat_stats = Some(CombatStats { max_hp: 1, hp: i32::MIN + 4, defense: 0, power: 0 });
    assert!(!w.is_valid());
}

#[test]
fn what_keeps_a_tick_from_starting() {
    let mut w = world();
    w.actors[1].name = None;
    assert!(w.is_valid());
    assert!(!w.is_ready());

    let mut w = world();
    w.player_entity = 9;
    assert!(!w.is_ready());

    let mut w = world();
    w.actors[0].combat_stats = None;
    assert!(!w.is_ready());

    let mut w = world();
    w.actors[0].position = Some(GridPosition { x: 0, y: 2 });
    assert!(w.is_valid());
    assert!(!w.is_ready());

    // a wish has to name somebody who is there, has hit points and will stay
    let mut w = world();
    w.actors[1].wants_to_melee = Some(WantsToMelee { target: 1 });
    assert!(w.is_ready());
    w.actors[1].wants_to_melee = Some(WantsToMelee { target: 7 });
    assert!(!w.is_ready());
    w.actors[1].wants_to_melee = Some(WantsToMelee { target: 3 });
    assert!(w.is_ready());
    w.actors[2].combat_stats = Some(CombatStats { max_hp: 16, hp: 0, defense: 1, power: 4 });
    assert!(!w.is_ready());
    assert!(!w.is_swept());
    w.actors[1].wants_to_melee = None;
    assert!(w.is_ready());

    // a dead monster may lie about, but not while the game waits for input
    let mut gs = State::new(w);
    assert!(gs.is_ready());
    gs.ecs.run_state = RunState::AwaitingInput;
    assert!(!gs.is_ready());
    gs.stage = Stage::Closing;
    assert!(gs.is_ready());
    // the player may be dead
    gs.stage = Stage::Idle;
    gs.ecs.actors[2].combat_stats = Some(CombatStats { max_hp: 16, hp: 3, defense: 1, power: 4 });
    gs.ecs.actors[0].combat_stats = Some(CombatStats { max_hp: 30, hp: -3, defense: 2, power: 5 });
    assert!(gs.is_ready());
}

#[test]
fn a_route_has_to_stay_on_the_map() {
    let w = world();
    let off = NavigationPath { destination: 56, success: true, steps: vec![36, 56] };
    let on = NavigationPath { destination: 55, success: true, steps: vec![36, 55] };
    let failed = NavigationPath { destination: 56, success: false, steps: vec![36, 56] };
    let short = NavigationPath { destination: 99, success: true, steps: vec![99] };
    assert!(!w.can_follow(1, &off));
    assert!(w.can_follow(1, &on));
    assert!(w.can_follow(1, &failed));
    assert!(w.can_follow(1, &short));
    // the player follows no route, so any will do
    assert!(w.can_follow(0, &off));
    assert!(!w.can_follow(3, &on));
}

#[test]
fn finding_an_actor_by_its_identity() {
    let w = world();
    assert_eq!(w.find(1), Some(0));
    assert_eq!(w.find(3), Some(2));
    assert_eq!(w.find(0), None);
    assert_eq!(World::new(GridMap::new(3, 3)).find(0), None);
}
