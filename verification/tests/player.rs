use dungeon_sim::{
    player_input, try_move_player, Actor, CombatStats, GridMap, GridPosition, MapIndexingSystem,
    Name, Player, Point, Rect32, RunState, State, Viewshed, WantsToMelee, World,
};

fn player_at(x: i32, y: i32) -> Actor {
    let mut actor = Actor::new(1);
    actor.position = Some(GridPosition { x, y });
    actor.player = Some(Player {});
    actor.viewshed = Some(Viewshed { visible_tiles: vec![Point { x: 9, y: 9 }], range: 8, dirty: false });
    actor.name = Some(Name { name: "Player".to_string() });
    actor.combat_stats = Some(CombatStats { max_hp: 30, hp: 30, defense: 2, power: 5 });
    actor
}

fn monster_at(entity: u32, x: i32, y: i32) -> Actor {
    let mut actor = Actor::new(entity);
    actor.position = Some(GridPosition { x, y });
    actor.name = Some(Name { name: "Goblin".to_string() });
    actor.combat_stats = Some(CombatStats { max_hp: 16, hp: 16, defense: 1, power: 4 });
    actor
}

fn hall(actors: Vec<Actor>) -> World {
    let mut map = GridMap::new(8, 8);
    map.apply_room_to_map(&Rect32::new(0, 0, 6, 6));
    let mut world = World::new(map);
    world.actors = actors;
    world.player_entity = 1;
    world.player_pos = Point { x: 3, y: 3 };
    MapIndexingSystem {}.run(&mut world);
    world
}

#[test]
fn the_player_steps_onto_a_free_cell() {
    let mut world = hall(vec![player_at(3, 3)]);
    try_move_player(1, -1, &mut world);
    assert_eq!(world.actors[0].position, Some(GridPosition { x: 4, y: 2 }));
    assert_eq!(world.player_pos, Point { x: 4, y: 2 });
    let viewshed = world.actors[0].viewshed.clone().unwrap();
    assert!(viewshed.dirty);
    assert_eq!(viewshed.range, 8);
    assert_eq!(viewshed.visible_tiles, vec![Point { x: 9, y: 9 }]);
    assert_eq!(world.actors[0].wants_to_melee, None);
}

#[test]
fn the_player_does_not_walk_into_a_wall() {
    let mut world = hall(vec![player_at(1, 1)]);
    let before = world.clone();
    try_move_player(-1, 0, &mut world);
    assert_eq!(world.actors, before.actors);
    assert_eq!(world.player_pos, before.player_pos);
    try_move_player(0, -1, &mut world);
    assert_eq!(world.actors, before.actors);
}

#[test]
fn the_player_hits_who_stands_in_the_way() {
    let mut bystander = Actor::new(7);
    bystander.position = Some(GridPosition { x: 4, y: 3 });
    let mut world = hall(vec![bystander, player_at(3, 3), monster_at(2, 4, 3), monster_at(3, 4, 3)]);
    try_move_player(1, 0, &mut world);
    // the first on the cell that has hit points is hit, and the player stays
    assert_eq!(world.actors[1].wants_to_melee, Some(WantsToMelee { target: 2 }));
    assert_eq!(world.actors[1].position, Some(GridPosition { x: 3, y: 3 }));
    assert!(!world.actors[1].viewshed.clone().unwrap().dirty);
    assert_eq!(world.player_pos, Point { x: 3, y: 3 });
}

#[test]
fn a_step_that_would_leave_the_inside_is_pulled_back() {
    let mut world = hall(vec![player_at(1, 2)]);
    // nothing says that the rim is blocked
    let rim = world.map.xy_idx(0, 2);
    world.map.blocked[rim] = false;
    try_move_player(-1, 0, &mut world);
    assert_eq!(world.actors[0].position, Some(GridPosition { x: 1, y: 2 }));
    assert_eq!(world.player_pos, Point { x: 1, y: 2 });
    assert!(world.actors[0].viewshed.clone().unwrap().dirty);
}

#[test]
fn without_a_player_nothing_moves() {
    let mut world = hall(vec![monster_at(2, 4, 3)]);
    let before = world.clone();
    try_move_player(1, 0, &mut world);
    assert_eq!(world.actors, before.actors);
    assert_eq!(world.map, before.map);
}

#[test]
fn input_starts_the_players_turn() {
    let mut gs = State::new(hall(vec![player_at(3, 3)]));
    assert_eq!(player_input(&mut gs, None), RunState::AwaitingInput);
    assert_eq!(gs.ecs.actors[0].position, Some(GridPosition { x: 3, y: 3 }));
    assert_eq!(player_input(&mut gs, Some((0, 1))), RunState::PlayerTurn);
    assert_eq!(gs.ecs.actors[0].position, Some(GridPosition { x: 3, y: 4 }));
}
