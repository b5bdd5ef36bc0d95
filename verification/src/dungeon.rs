use vstd::prelude::*;
use crate::map::{GridMap, TileType};
use crate::random::{new_generator, range, roll_dice};
use crate::rect32::Rect32;

verus! {

/// `v` lies between `a` and `b`, whichever of the two is smaller.
pub open spec fn between(a: int, b: int, v: int) -> bool {
    (a <= v <= b) || (b <= v <= a)
}

/// `(x, y)` is one of the cells that a room turns to floor: all of the
/// rectangle but its first column and its first row.
pub open spec fn in_room(room: Rect32, x: int, y: int) -> bool {
    room.x1 < x <= room.x2 && room.y1 < y <= room.y2
}

/// `(x, y)` lies on the row `y0`, between the columns `x1` and `x2`.
pub open spec fn on_row(x1: int, x2: int, y0: int, x: int, y: int) -> bool {
    y == y0 && between(x1, x2, x)
}

/// `(x, y)` lies on the column `x0`, between the rows `y1` and `y2`.
pub open spec fn on_column(y1: int, y2: int, x0: int, x: int, y: int) -> bool {
    x == x0 && between(y1, y2, y)
}

/// `(x, y)` lies on the corridor from `from` to `to`: a row and a column that
/// meet in a corner. With `horizontal_first` the row starts at `from`, otherwise
/// the column does.
pub open spec fn on_corridor(
    from: (int, int),
    to: (int, int),
    horizontal_first: bool,
    x: int,
    y: int,
) -> bool {
    if horizontal_first {
        on_row(from.0, to.0, from.1, x, y) || on_column(from.1, to.1, to.0, x, y)
    } else {
        on_column(from.1, to.1, from.0, x, y) || on_row(from.0, to.0, to.1, x, y)
    }
}

/// One step west, east, north or south leads from `a` to `b`.
pub open spec fn step4(a: (int, int), b: (int, int)) -> bool {
    (a.0 == b.0 && (a.1 == b.1 + 1 || b.1 == a.1 + 1)) || (a.1 == b.1 && (a.0 == b.0 + 1 || b.0
        == a.0 + 1))
}

impl GridMap {
    /// `c` is a floor cell of the map.
    pub open spec fn is_floor(&self, c: (int, int)) -> bool {
        self.in_bounds(c.0, c.1) && self.tile_at(c.0, c.1) == TileType::Floor
    }

    /// `path` runs over floor cells only, by steps west, east, north or south.
    pub open spec fn walkable(&self, path: Seq<(int, int)>) -> bool {
        &&& path.len() > 0
        &&& forall|k: int| 0 <= k < path.len() ==> self.is_floor(#[trigger] path[k])
        &&& forall|k: int| 0 <= k < path.len() - 1 ==> step4(#[trigger] path[k], path[k + 1])
    }

    /// `b` can be reached from `a` over floor cells.
    pub open spec fn connected(&self, a: (int, int), b: (int, int)) -> bool {
        exists|path: Seq<(int, int)>|
            #[trigger] self.walkable(path) && path[0] == a && path[path.len() - 1] == b
    }

    /// The room lies inside the rim of the map and is at least two cells wide
    /// and two cells high.
    pub open spec fn room_inside(&self, room: Rect32) -> bool {
        &&& 0 <= room.x1
        &&& room.x1 + 2 <= room.x2 <= self.width - 2
        &&& 0 <= room.y1
        &&& room.y1 + 2 <= room.y2 <= self.height - 2
    }

    /// Every room lies inside the rim of the map.
    pub open spec fn rooms_inside(&self) -> bool {
        forall|i: int| 0 <= i < self.rooms@.len() ==> self.room_inside(#[trigger] self.rooms@[i])
    }

    /// No two rooms overlap, not even at an edge.
    pub open spec fn rooms_apart(&self) -> bool {
        forall|i: int, j: int|
            0 <= i < j < self.rooms@.len() ==> !(#[trigger] self.rooms@[i]).overlaps(
                #[trigger] self.rooms@[j],
            )
    }

    /// Every cell of every room is floor.
    pub open spec fn rooms_carved(&self) -> bool {
        forall|i: int, x: int, y: int|
            0 <= i < self.rooms@.len() && #[trigger] in_room(self.rooms@[i], x, y)
                ==> self.tile_at(x, y) == TileType::Floor
    }

    /// The centre of every room can be reached from the centre of the first.
    pub open spec fn rooms_linked(&self) -> bool {
        forall|i: int|
            0 <= i < self.rooms@.len() ==> self.connected(
                self.rooms@[0].center_point(),
                (#[trigger] self.rooms@[i]).center_point(),
            )
    }

    /// `(x, y)` was dug for the room at the place `i`: it lies in the room or,
    /// unless the room is the first, on a corridor from the centre of the room
    /// before it.
    pub open spec fn dug_for(&self, i: int, x: int, y: int) -> bool {
        in_room(self.rooms@[i], x, y) || (i > 0 && (on_corridor(
            self.rooms@[i - 1].center_point(),
            self.rooms@[i].center_point(),
            true,
            x,
            y,
        ) || on_corridor(
            self.rooms@[i - 1].center_point(),
            self.rooms@[i].center_point(),
            false,
            x,
            y,
        )))
    }

    /// Every floor cell was dug for one of the rooms.
    pub open spec fn floor_explained(&self) -> bool {
        forall|x: int, y: int|
            self.in_bounds(x, y) && #[trigger] self.tile_at(x, y) == TileType::Floor ==> exists|
                i: int,
            | 0 <= i < self.rooms@.len() && #[trigger] self.dug_for(i, x, y)
    }

    /// Every room is at least `MIN_SIZE` and less than `MAX_SIZE` wide and high.
    pub open spec fn rooms_sized(&self) -> bool {
        forall|i: int|
            0 <= i < self.rooms@.len() ==> {
                &&& MIN_SIZE <= (#[trigger] self.rooms@[i]).x2 - self.rooms@[i].x1 < MAX_SIZE
                &&& MIN_SIZE <= self.rooms@[i].y2 - self.rooms@[i].y1 < MAX_SIZE
            }
    }

    /// What holds of a map that was built room by room: it is walled in, its
    /// rooms lie inside the rim, keep apart, are dug out and hang together,
    /// and nothing else is dug out.
    pub open spec fn is_dungeon(&self) -> bool {
        &&& self.wf()
        &&& self.enclosed()
        &&& self.rooms_inside()
        &&& self.rooms_apart()
        &&& self.rooms_carved()
        &&& self.rooms_linked()
        &&& self.floor_explained()
    }

    /// The cells that `add_room` turns to floor when it adds `room`: the room
    /// itself and, unless it is the first, the corridor from the centre of the
    /// room before it.
    pub open spec fn room_region(&self, room: Rect32, horizontal_first: bool, x: int, y: int) -> bool {
        in_room(room, x, y) || (self.rooms@.len() > 0 && on_corridor(
            self.rooms@[self.rooms@.len() - 1].center_point(),
            room.center_point(),
            horizontal_first,
            x,
            y,
        ))
    }

    /// A floor cell can be reached from itself.
    pub proof fn lemma_connected_refl(&self, a: (int, int))
        requires
            self.is_floor(a),
        ensures
            self.connected(a, a),
    {
        let path = seq![a];
        assert(self.walkable(path));
    }

    /// Reaching goes both ways.
    pub proof fn lemma_connected_sym(&self, a: (int, int), b: (int, int))
        requires
            self.connected(a, b),
        ensures
            self.connected(b, a),
    {
        let path = choose|path: Seq<(int, int)>|
            #[trigger] self.walkable(path) && path[0] == a && path[path.len() - 1] == b;
        let n = path.len() as int;
        let back = Seq::new(path.len(), |k: int| path[n - 1 - k]);
        assert(self.walkable(back));
    }

    /// What can be reached from a cell that can be reached can be reached.
    pub proof fn lemma_connected_trans(&self, a: (int, int), b: (int, int), c: (int, int))
        requires
            self.connected(a, b),
            self.connected(b, c),
        ensures
            self.connected(a, c),
    {
        let p = choose|path: Seq<(int, int)>|
            #[trigger] self.walkable(path) && path[0] == a && path[path.len() - 1] == b;
        let q = choose|path: Seq<(int, int)>|
            #[trigger] self.walkable(path) && path[0] == b && path[path.len() - 1] == c;
        let n = p.len() as int;
        let m = q.len() as int;
        let joined = Seq::new((n + m - 1) as nat, |k: int| if k < n { p[k] } else { q[k - n + 1] });
        assert(self.walkable(joined));
    }

    /// One more step onto a floor cell reaches that cell.
    pub proof fn lemma_connected_extend(&self, a: (int, int), b: (int, int), c: (int, int))
        requires
            self.connected(a, b),
            step4(b, c),
            self.is_floor(c),
        ensures
            self.connected(a, c),
    {
        let p = choose|path: Seq<(int, int)>|
            #[trigger] self.walkable(path) && path[0] == a && path[path.len() - 1] == b;
        let longer = p.push(c);
        assert(self.walkable(longer));
    }

    /// Digging never cuts a way: what could be reached in `before` can be
    /// reached in a map with the same extents that has all its floor cells.
    pub proof fn lemma_connected_kept(&self, before: &GridMap, a: (int, int), b: (int, int))
        requires
            before.connected(a, b),
            self.width == before.width,
            self.height == before.height,
            forall|x: int, y: int|
                before.in_bounds(x, y) && #[trigger] before.tile_at(x, y) == TileType::Floor
                    ==> self.tile_at(x, y) == TileType::Floor,
        ensures
            self.connected(a, b),
    {
        let p = choose|path: Seq<(int, int)>|
            #[trigger] before.walkable(path) && path[0] == a && path[path.len() - 1] == b;
        assert(self.walkable(p));
    }

    /// A row of floor cells joins its two ends.
    pub proof fn lemma_row_connected(&self, xa: int, xb: int, y: int)
        requires
            xa <= xb,
            forall|x: int| xa <= x <= xb ==> #[trigger] self.is_floor((x, y)),
        ensures
            self.connected((xa, y), (xb, y)),
        decreases xb - xa,
    {
        if xa == xb {
            self.lemma_connected_refl((xa, y));
        } else {
            self.lemma_row_connected(xa, xb - 1, y);
            self.lemma_connected_extend((xa, y), (xb - 1, y), (xb, y));
        }
    }

    /// A column of floor cells joins its two ends.
    pub proof fn lemma_column_connected(&self, ya: int, yb: int, x: int)
        requires
            ya <= yb,
            forall|y: int| ya <= y <= yb ==> #[trigger] self.is_floor((x, y)),
        ensures
            self.connected((x, ya), (x, yb)),
        decreases yb - ya,
    {
        if ya == yb {
            self.lemma_connected_refl((x, ya));
        } else {
            self.lemma_column_connected(ya, yb - 1, x);
            self.lemma_connected_extend((x, ya), (x, yb - 1), (x, yb));
        }
    }

    /// A row of floor cells joins any two of its cells, in either direction.
    pub proof fn lemma_row_joins(&self, x1: int, x2: int, y: int)
        requires
            forall|x: int| between(x1, x2, x) ==> #[trigger] self.is_floor((x, y)),
        ensures
            self.connected((x1, y), (x2, y)),
    {
        if x1 <= x2 {
            self.lemma_row_connected(x1, x2, y);
        } else {
            self.lemma_row_connected(x2, x1, y);
            self.lemma_connected_sym((x2, y), (x1, y));
        }
    }

    /// A column of floor cells joins any two of its cells, in either direction.
    pub proof fn lemma_column_joins(&self, y1: int, y2: int, x: int)
        requires
            forall|y: int| between(y1, y2, y) ==> #[trigger] self.is_floor((x, y)),
        ensures
            self.connected((x, y1), (x, y2)),
    {
        if y1 <= y2 {
            self.lemma_column_connected(y1, y2, x);
        } else {
            assert forall|y: int| y2 <= y <= y1 implies #[trigger] self.is_floor((x, y)) by {}
            self.lemma_column_connected(y2, y1, x);
            self.lemma_connected_sym((x, y2), (x, y1));
        }
    }
}

/// How many rooms the generator tries to place.
pub const MAX_ROOMS: i32 = 30;

/// The smallest width and height of a room.
pub const MIN_SIZE: i32 = 6;

/// The bound above the width and height of a room.
pub const MAX_SIZE: i32 = 10;

impl GridMap {
    /// Turns the cells of `room` to floor.
    pub fn apply_room_to_map(&mut self, room: &Rect32)
        requires
            old(self).wf(),
            0 <= room.x1,
            room.x2 < old(self).width,
            0 <= room.y1,
            room.y2 < old(self).height,
        ensures
            final(self).wf(),
            final(self).same_but_tiles(old(self)),
            final(self).dug_from(old(self), |x: int, y: int| in_room(*room, x, y)),
    {
        if room.x1 >= room.x2 || room.y1 >= room.y2 {
            return;
        }
        let mut y: i32 = room.y1 + 1;
        while y <= room.y2
            invariant
                room.y1 + 1 <= y <= room.y2 + 1,
                room.x1 < room.x2,
                0 <= room.x1,
                room.x2 < self.width,
                0 <= room.y1,
                room.y2 < self.height,
                self.wf(),
                self.same_but_tiles(old(self)),
                self.dug_from(
                    old(self),
                    |xx: int, yy: int| room.x1 < xx <= room.x2 && room.y1 < yy < y,
                ),
            decreases room.y2 + 1 - y,
        {
            self.carve_row(room.x1 + 1, room.x2, y);
            y = y + 1;
        }
    }

    /// Digs a corridor along the row `y` from column `x1` to column `x2`, as far
    /// as it lies on the map.
    pub fn apply_horizontal_tunnel(&mut self, x1: i32, x2: i32, y: i32)
        requires
            old(self).wf(),
        ensures
            final(self).wf(),
            final(self).same_but_tiles(old(self)),
            final(self).dug_from(
                old(self),
                |xx: int, yy: int| on_row(x1 as int, x2 as int, y as int, xx, yy),
            ),
    {
        if 0 <= y && y < self.height {
            let lo = if x1 <= x2 { x1 } else { x2 };
            let hi = if x1 <= x2 { x2 } else { x1 };
            let from = if lo < 0 { 0 } else { lo };
            let to = if hi >= self.width { self.width - 1 } else { hi };
            self.carve_row(from, to, y);
        }
    }

    /// Digs a corridor along the column `x` from row `y1` to row `y2`, as far as
    /// it lies on the map.
    pub fn apply_vertical_tunnel(&mut self, y1: i32, y2: i32, x: i32)
        requires
            old(self).wf(),
        ensures
            final(self).wf(),
            final(self).same_but_tiles(old(self)),
            final(self).dug_from(
                old(self),
                |xx: int, yy: int| on_column(y1 as int, y2 as int, x as int, xx, yy),
            ),
    {
        if 0 <= x && x < self.width {
            let lo = if y1 <= y2 { y1 } else { y2 };
            let hi = if y1 <= y2 { y2 } else { y1 };
            let from = if lo < 0 { 0 } else { lo };
            let to = if hi >= self.height { self.height - 1 } else { hi };
            self.carve_column(from, to, x);
        }
    }

    /// Whether `room` keeps clear of every room of the map.
    pub fn room_fits(&self, room: &Rect32) -> (ok: bool)
        ensures
            ok == (forall|i: int| 0 <= i < self.rooms@.len() ==> !room.overlaps(#[trigger] self.rooms@[i])),
    {
        let mut ok = true;
        let mut i: usize = 0;
        while i < self.rooms.len()
            invariant
                i <= self.rooms@.len(),
                ok == (forall|k: int| 0 <= k < i ==> !room.overlaps(#[trigger] self.rooms@[k])),
            decreases self.rooms@.len() - i,
        {
            if room.intersect(&self.rooms[i]) {
                ok = false;
            }
            i = i + 1;
        }
        ok
    }

    /// Adds `room` to the map: digs it out, joins its centre to the centre of
    /// the room added before it by a corridor, and appends it to the rooms.
    pub fn add_room(&mut self, room: Rect32, horizontal_first: bool)
        requires
            old(self).wf(),
            0 <= room.x1,
            room.x2 < old(self).width,
            0 <= room.y1,
            room.y2 < old(self).height,
        ensures
            final(self).wf(),
            final(self).width == old(self).width,
            final(self).height == old(self).height,
            final(self).revealed_tiles == old(self).revealed_tiles,
            final(self).visible_tiles == old(self).visible_tiles,
            final(self).blocked == old(self).blocked,
            final(self).tile_content == old(self).tile_content,
            final(self).rooms@ == old(self).rooms@.push(room),
            final(self).dug_from(
                old(self),
                |x: int, y: int| old(self).room_region(room, horizontal_first, x, y),
            ),
            old(self).is_dungeon() && old(self).room_inside(room) && (forall|i: int|
                0 <= i < old(self).rooms@.len() ==> !room.overlaps(#[trigger] old(self).rooms@[i]))
                ==> final(self).is_dungeon(),
    {
        self.apply_room_to_map(&room);
        if !self.rooms.is_empty() {
            let (new_x, new_y) = room.center();
            let (prev_x, prev_y) = self.rooms[self.rooms.len() - 1].center();
            if horizontal_first {
                self.apply_horizontal_tunnel(prev_x, new_x, prev_y);
                self.apply_vertical_tunnel(prev_y, new_y, new_x);
            } else {
                self.apply_vertical_tunnel(prev_y, new_y, prev_x);
                self.apply_horizontal_tunnel(prev_x, new_x, new_y);
            }
        }
        let ghost carved = *self;
        self.rooms.push(room);
        proof {
            assert forall|x: int, y: int| self.in_bounds(x, y) implies #[trigger] self.tile_at(
                x,
                y,
            ) == if old(self).room_region(room, horizontal_first, x, y) {
                TileType::Floor
            } else {
                old(self).tile_at(x, y)
            } by {
                assert(self.tile_at(x, y) == carved.tile_at(x, y));
            }
            if old(self).is_dungeon() && old(self).room_inside(room) && (forall|i: int|
                0 <= i < old(self).rooms@.len() ==> !room.overlaps(#[trigger] old(self).rooms@[i])) {
                self.lemma_room_added(old(self), room, horizontal_first);
            }
        }
    }

    /// A dungeon stays a dungeon when a room that lies inside the rim and keeps
    /// clear of the others is added to it.
    pub proof fn lemma_room_added(&self, before: &GridMap, room: Rect32, horizontal_first: bool)
        requires
            before.is_dungeon(),
            before.room_inside(room),
            forall|i: int| 0 <= i < before.rooms@.len() ==> !room.overlaps(#[trigger] before.rooms@[i]),
            self.wf(),
            self.width == before.width,
            self.height == before.height,
            self.rooms@ == before.rooms@.push(room),
            self.dug_from(before, |x: int, y: int| before.room_region(room, horizontal_first, x, y)),
        ensures
            self.is_dungeon(),
    {
        let n = before.rooms@.len() as int;
        let c = room.center_point();
        // every floor cell was dug for a room: for the new one, or for an earlier one
        assert forall|x: int, y: int|
            self.in_bounds(x, y) && #[trigger] self.tile_at(x, y) == TileType::Floor implies exists|
            i: int,
        | 0 <= i < self.rooms@.len() && #[trigger] self.dug_for(i, x, y) by {
            if before.room_region(room, horizontal_first, x, y) {
                assert(self.dug_for(n, x, y));
            } else {
                let i = choose|i: int| 0 <= i < before.rooms@.len() && #[trigger] before.dug_for(i, x, y);
                assert(self.dug_for(i, x, y));
            }
        }
        if n > 0 {
            let prev = before.rooms@[n - 1];
            let p = prev.center_point();
            // the corridor joins the two centres
            let corner = if horizontal_first { (c.0, p.1) } else { (p.0, c.1) };
            if horizontal_first {
                self.lemma_row_joins(p.0, c.0, p.1);
                self.lemma_column_joins(p.1, c.1, c.0);
            } else {
                self.lemma_column_joins(p.1, c.1, p.0);
                self.lemma_row_joins(p.0, c.0, c.1);
            }
            self.lemma_connected_trans(p, corner, c);
            let first = before.rooms@[0].center_point();
            assert forall|i: int| 0 <= i < self.rooms@.len() implies self.connected(
                self.rooms@[0].center_point(),
                (#[trigger] self.rooms@[i]).center_point(),
            ) by {
                if i < n {
                    self.lemma_connected_kept(before, first, before.rooms@[i].center_point());
                } else {
                    self.lemma_connected_kept(before, first, p);
                    self.lemma_connected_trans(first, p, c);
                }
            }
        } else {
            self.lemma_connected_refl(c);
        }
    }

    /// Any cell of any room can be reached from any cell of any other room, so
    /// in particular every room from the first.
    pub proof fn lemma_rooms_reachable(&self, i: int, j: int, a: (int, int), b: (int, int))
        requires
            self.is_dungeon(),
            0 <= i < self.rooms@.len(),
            0 <= j < self.rooms@.len(),
            in_room(self.rooms@[i], a.0, a.1),
            in_room(self.rooms@[j], b.0, b.1),
        ensures
            self.connected(a, b),
    {
        let ci = self.rooms@[i].center_point();
        let cj = self.rooms@[j].center_point();
        let c0 = self.rooms@[0].center_point();
        self.lemma_room_reaches_center(i, a);
        self.lemma_room_reaches_center(j, b);
        self.lemma_connected_sym(b, cj);
        self.lemma_connected_sym(c0, ci);
        self.lemma_connected_trans(a, ci, c0);
        self.lemma_connected_trans(a, c0, cj);
        self.lemma_connected_trans(a, cj, b);
    }

    /// The centre of a room can be reached from each of its cells.
    pub proof fn lemma_room_reaches_center(&self, i: int, a: (int, int))
        requires
            self.wf(),
            self.rooms_inside(),
            self.rooms_carved(),
            0 <= i < self.rooms@.len(),
            in_room(self.rooms@[i], a.0, a.1),
        ensures
            self.connected(a, self.rooms@[i].center_point()),
    {
        let room = self.rooms@[i];
        let c = room.center_point();
        assert forall|x: int| between(a.0, c.0, x) implies #[trigger] self.is_floor((x, a.1)) by {
            assert(in_room(self.rooms@[i], x, a.1));
        }
        self.lemma_row_joins(a.0, c.0, a.1);
        assert forall|y: int| between(a.1, c.1, y) implies #[trigger] self.is_floor((c.0, y)) by {
            assert(in_room(self.rooms@[i], c.0, y));
        }
        self.lemma_column_joins(a.1, c.1, c.0);
        self.lemma_connected_trans(a, (c.0, a.1), c);
    }

    /// A new dungeon of 80 by 50 cells: up to `MAX_ROOMS` rooms at random places,
    /// each joined to the one before it by a corridor. A room that would touch
    /// an earlier one is dropped, so there may be fewer rooms than were tried;
    /// the first one tried always stays.
    pub fn new_map_rooms_and_corridors() -> (map: GridMap)
        ensures
            map.is_dungeon(),
            map.rooms_sized(),
            map.width == 80,
            map.height == 50,
            1 <= map.rooms@.len() <= MAX_ROOMS,
            forall|i: int| 0 <= i < map.size() ==> !map.revealed_tiles@[i],
            forall|i: int| 0 <= i < map.size() ==> !map.visible_tiles@[i],
            forall|i: int| 0 <= i < map.size() ==> !map.blocked@[i],
            forall|i: int| 0 <= i < map.size() ==> map.tile_content@[i]@.len() == 0,
    {
        let mut map = GridMap::new(80, 50);
        let mut rng = new_generator();
        let mut tried: i32 = 0;
        while tried < MAX_ROOMS
            invariant
                0 <= tried <= MAX_ROOMS,
                map.is_dungeon(),
                map.rooms_sized(),
                map.width == 80,
                map.height == 50,
                map.rooms@.len() <= tried,
                tried > 0 ==> map.rooms@.len() >= 1,
                forall|i: int| 0 <= i < map.size() ==> !map.revealed_tiles@[i],
                forall|i: int| 0 <= i < map.size() ==> !map.visible_tiles@[i],
                forall|i: int| 0 <= i < map.size() ==> !map.blocked@[i],
                forall|i: int| 0 <= i < map.size() ==> map.tile_content@[i]@.len() == 0,
            decreases MAX_ROOMS - tried,
        {
            // a candidate of random size at a random place
            let w = range(&mut rng, MIN_SIZE, MAX_SIZE);
            let h = range(&mut rng, MIN_SIZE, MAX_SIZE);
            let x = roll_dice(&mut rng, 1, 80 - w - 1) - 1;
            let y = roll_dice(&mut rng, 1, 50 - h - 1) - 1;
            let new_room = Rect32::new(x, y, w, h);

            // one that touches an earlier room is dropped
            if map.room_fits(&new_room) {
                let horizontal_first = map.rooms.is_empty() || range(&mut rng, 0, 2) == 1;
                map.add_room(new_room, horizontal_first);
            }
            tried = tried + 1;
        }
        map
    }
}

} // verus!
