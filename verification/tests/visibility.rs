use dungeon_sim::{
    Actor, GridMap, GridPosition, Player, Point, Rect32, TileType, ViewRequest, Viewshed,
    VisibilitySystem, World,
};

struct Sight<'a>(&'a GridMap);

impl<'a> rltk::BaseMap for Sight<'a> {
    fn is_opaque(&self, idx: usize) -> bool {
        self.0.is_opaque(idx)
    }
}

impl<'a> rltk::Algorithm2D for Sight<'a> {
    fn dimensions(&self) -> rltk::Point {
        let d = self.0.dimensions();
        rltk::Point::new(d.x, d.y)
    }
}

fn field_of_view(map: &GridMap, x: i32, y: i32, range: i32) -> Vec<Point> {
    rltk::FieldOfViewAlg::SymmetricShadowcasting
        .field_of_view(rltk::Point::new(x, y), range, &Sight(map))
        .into_iter()
        .map(|p| Point { x: p.x, y: p.y })
        .collect()
}

fn watcher(entity: u32, x: i32, y: i32, dirty: bool) -> Actor {
    let mut actor = Actor::new(entity);
    actor.position = Some(GridPosition { x, y });
    actor.viewshed = Some(Viewshed { visible_tiles: Vec::new(), range: 8, dirty });
    actor
}

fn cave() -> GridMap {
    let mut map = GridMap::new(12, 9);
    map.apply_room_to_map(&Rect32::new(0, 0, 10, 7));
    // two pillars
    let a = map.xy_idx(4, 3);
    map.tiles[a] = TileType::Wall;
    let b = map.xy_idx(7, 5);
    map.tiles[b] = TileType::Wall;
    map
}

#[test]
fn only_views_out_of_date_are_asked_for() {
    let mut world = World::new(cave());
    let mut blind = Actor::new(4);
    blind.position = Some(GridPosition { x: 1, y: 1 });
    let mut placeless = Actor::new(5);
    placeless.viewshed = Some(Viewshed { visible_tiles: Vec::new(), range: 3, dirty: true });
    let mut far = watcher(6, 9, 6, true);
    far.viewshed = Some(Viewshed { visible_tiles: Vec::new(), range: 3, dirty: true });
    world.actors = vec![watcher(1, 2, 2, true), watcher(2, 3, 3, false), blind, placeless, far];
    let requests = VisibilitySystem {}.run(&world);
    assert_eq!(
        requests,
        vec![
            ViewRequest { actor: 0, x: 2, y: 2, range: 8 },
            ViewRequest { actor: 4, x: 9, y: 6, range: 3 },
        ]
    );
}

#[test]
fn what_is_seen_is_kept_without_the_rim() {
    let mut world = World::new(cave());
    world.actors = vec![watcher(1, 2, 2, true)];
    let before = world.map.clone();
    let cells = vec![
        Point { x: 2, y: 2 },
        Point { x: 0, y: 2 },
        Point { x: 11, y: 4 },
        Point { x: 10, y: 7 },
        Point { x: 3, y: 0 },
        Point { x: 3, y: 8 },
        Point { x: 1, y: 1 },
        Point { x: -4, y: 3 },
        Point { x: 5, y: 40 },
    ];
    VisibilitySystem {}.see(&mut world, 0, cells);
    let viewshed = world.actors[0].viewshed.clone().unwrap();
    assert_eq!(
        viewshed.visible_tiles,
        vec![Point { x: 2, y: 2 }, Point { x: 10, y: 7 }, Point { x: 1, y: 1 }]
    );
    assert!(!viewshed.dirty);
    assert_eq!(viewshed.range, 8);
    // who is not the player leaves the map alone
    assert_eq!(world.map, before);
}

#[test]
fn the_player_reveals_the_map() {
    let mut world = World::new(cave());
    let mut player = watcher(1, 2, 2, true);
    player.player = Some(Player {});
    world.actors = vec![player];
    let stale = world.map.xy_idx(9, 6);
    world.map.visible_tiles[stale] = true;
    world.map.revealed_tiles[stale] = true;

    VisibilitySystem {}.see(&mut world, 0, vec![Point { x: 2, y: 2 }, Point { x: 3, y: 2 }, Point { x: 0, y: 0 }]);
    let lit: Vec<usize> = (0..world.map.tiles.len()).filter(|i| world.map.visible_tiles[*i]).collect();
    assert_eq!(lit, vec![world.map.xy_idx(2, 2), world.map.xy_idx(3, 2)]);
    let known: Vec<usize> = (0..world.map.tiles.len()).filter(|i| world.map.revealed_tiles[*i]).collect();
    assert_eq!(known, vec![world.map.xy_idx(2, 2), world.map.xy_idx(3, 2), stale]);

    // the view is up to date now, so another answer changes nothing
    let before = world.clone();
    VisibilitySystem {}.see(&mut world, 0, vec![Point { x: 5, y: 5 }]);
    assert_eq!(world.map, before.map);
    assert_eq!(world.actors, before.actors);
}

#[test]
fn what_was_revealed_stays_revealed() {
    let mut world = World::new(cave());
    let mut player = watcher(1, 2, 2, true);
    player.player = Some(Player {});
    world.actors = vec![player];
    let mut known = vec![false; world.map.tiles.len()];
    for (x, y) in [(2, 2), (9, 6), (5, 1), (2, 6), (8, 3)] {
        let cells = field_of_view(&world.map, x, y, 8);
        world.actors[0].position = Some(GridPosition { x, y });
        if let Some(viewshed) = world.actors[0].viewshed.as_mut() {
            viewshed.dirty = true;
        }
        VisibilitySystem {}.see(&mut world, 0, cells);
        for idx in 0..known.len() {
            assert!(!known[idx] || world.map.revealed_tiles[idx]);
            assert!(!world.map.visible_tiles[idx] || world.map.revealed_tiles[idx]);
            known[idx] = world.map.revealed_tiles[idx];
        }
    }
    assert!(known.iter().any(|k| *k));
}

#[test]
fn the_player_sees_the_room_and_not_through_walls() {
    let mut map = GridMap::new(20, 9);
    map.apply_room_to_map(&Rect32::new(0, 0, 6, 6));
    map.apply_room_to_map(&Rect32::new(10, 0, 6, 6));
    let mut world = World::new(map);
    let mut player = watcher(1, 3, 3, true);
    player.player = Some(Player {});
    world.actors = vec![player];
    let requests = VisibilitySystem {}.run(&world);
    assert_eq!(requests.len(), 1);
    let cells = field_of_view(&world.map, requests[0].x, requests[0].y, requests[0].range);
    VisibilitySystem {}.see(&mut world, requests[0].actor, cells);
    let seen = world.actors[0].viewshed.clone().unwrap().visible_tiles;
    assert!(seen.contains(&Point { x: 3, y: 3 }));
    for y in 1..=6 {
        for x in 1..=6 {
            assert!(seen.contains(&Point { x, y }), "({}, {})", x, y);
            assert!(world.map.visible_tiles[world.map.xy_idx(x, y)]);
        }
    }
    // the wall of the room is seen, the room behind it is not
    assert!(seen.contains(&Point { x: 7, y: 3 }));
    for y in 1..=6 {
        for x in 11..=16 {
            assert!(!seen.contains(&Point { x, y }));
            assert!(!world.map.revealed_tiles[world.map.xy_idx(x, y)]);
        }
    }
    assert!(seen.iter().all(|p| 0 < p.x && p.x < 19 && 0 < p.y && p.y < 8));
    let mut sorted: Vec<(i32, i32)> = seen.iter().map(|p| (p.x, p.y)).collect();
    sorted.sort();
    sorted.dedup();
    assert_eq!(sorted.len(), seen.len());
}

#[test]
fn sight_goes_both_ways() {
    let map = cave();
    let mut floor = Vec::new();
    for y in 1..8 {
        for x in 1..11 {
            if map.tiles[map.xy_idx(x, y)] == TileType::Floor {
                floor.push(Point { x, y });
            }
        }
    }
    let views: Vec<Vec<Point>> = floor.iter().map(|p| field_of_view(&map, p.x, p.y, 5)).collect();
    let mut pairs = 0;
    for (i, a) in floor.iter().enumerate() {
        for (j, b) in floor.iter().enumerate() {
            assert_eq!(views[i].contains(b), views[j].contains(a), "{:?} and {:?}", a, b);
            if i != j && views[i].contains(b) {
                pairs += 1;
            }
        }
    }
    assert!(pairs > 0);
    // a pillar hides what lies behind it
    let from = floor.iter().position(|p| *p == Point { x: 3, y: 3 }).unwrap();
    assert!(!views[from].contains(&Point { x: 6, y: 3 }));
}
