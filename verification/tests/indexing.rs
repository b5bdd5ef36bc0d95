use dungeon_sim::{
    Actor, BlocksTile, GridMap, GridPosition, MapIndexingSystem, Player, Rect32, TileType, World,
};

fn at(entity: u32, x: i32, y: i32, blocks: bool) -> Actor {
    let mut actor = Actor::new(entity);
    actor.position = Some(GridPosition { x, y });
    if blocks {
        actor.blocks_tile = Some(BlocksTile {});
    }
    actor
}

#[test]
fn walls_are_blocked_and_floor_is_free() {
    let mut map = GridMap::new(6, 6);
    map.apply_room_to_map(&Rect32::new(0, 0, 4, 4));
    map.populate_blocked();
    for idx in 0..36 {
        assert_eq!(map.blocked[idx], map.tiles[idx] == TileType::Wall);
    }
    assert!(!map.blocked[map.xy_idx(2, 2)]);
    assert!(map.blocked[map.xy_idx(0, 0)]);
    assert!(map.blocked[map.xy_idx(5, 2)]);
}

#[test]
fn the_index_says_who_stands_where() {
    let mut map = GridMap::new(6, 6);
    map.apply_room_to_map(&Rect32::new(0, 0, 4, 4));
    let mut world = World::new(map);
    let mut player = at(1, 1, 1, true);
    player.player = Some(Player {});
    let bodiless = Actor::new(5);
    world.actors = vec![at(2, 3, 2, true), player, at(3, 3, 2, false), bodiless, at(4, 2, 4, false)];
    // stale content from an earlier turn
    world.map.tile_content[0].push(99);
    let corner = world.map.xy_idx(4, 4);
    world.map.blocked[corner] = true;
    MapIndexingSystem {}.run(&mut world);

    let m = &world.map;
    assert_eq!(m.tile_content[m.xy_idx(3, 2)], vec![2, 3]);
    assert_eq!(m.tile_content[m.xy_idx(1, 1)], vec![1]);
    assert_eq!(m.tile_content[m.xy_idx(2, 4)], vec![4]);
    assert!(m.tile_content[0].is_empty());
    let filled = m.tile_content.iter().filter(|c| !c.is_empty()).count();
    assert_eq!(filled, 3);
    // a monster blocks its cell, the player does not, nor does who is not marked
    assert!(m.blocked[m.xy_idx(3, 2)]);
    assert!(!m.blocked[m.xy_idx(1, 1)]);
    assert!(!m.blocked[m.xy_idx(2, 4)]);
    assert!(!m.blocked[m.xy_idx(4, 4)]);
    assert!(m.blocked[m.xy_idx(0, 3)]);
    assert_eq!(world.actors.len(), 5);
}

#[test]
fn clearing_the_index_empties_every_cell() {
    let mut map = GridMap::new(4, 3);
    map.tile_content[5].push(1);
    map.tile_content[5].push(2);
    map.tile_content[11].push(3);
    map.clear_content_index();
    assert_eq!(map.tile_content.len(), 12);
    assert!(map.tile_content.iter().all(|c| c.is_empty()));
}
