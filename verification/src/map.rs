use vstd::prelude::*;
use vstd::arithmetic::div_mod::{lemma_fundamental_div_mod, lemma_fundamental_div_mod_converse};
use crate::components::{Entity, Point};
use crate::rect32::Rect32;

verus! {

/// What a cell is made of.
#[derive(Clone, Copy, Debug, PartialEq, Eq, Structural)]
pub enum TileType {
    Wall,
    Floor,
}

/// The cost of a step to the west, east, north or south, in hundredths.
pub const CARDINAL_COST: u32 = 100;

/// The cost of a diagonal step, in hundredths.
pub const DIAGONAL_COST: u32 = 145;

/// The dungeon: its terrain, its rooms and, cell by cell, what is known of it
/// and who stands on it. The cell `(x, y)` has the index `y * width + x`.
#[derive(Clone, Debug, PartialEq)]
pub struct GridMap {
    pub tiles: Vec<TileType>,
    /// The rooms in the order in which they were accepted.
    pub rooms: Vec<Rect32>,
    pub width: i32,
    pub height: i32,
    /// Cells that the player has seen at some time.
    pub revealed_tiles: Vec<bool>,
    /// Cells that the player sees now.
    pub visible_tiles: Vec<bool>,
    /// Cells that cannot be entered this turn.
    pub blocked: Vec<bool>,
    /// The actors that stand on each cell.
    pub tile_content: Vec<Vec<Entity>>,
}

impl GridMap {
    /// The number of cells.
    pub open spec fn size(&self) -> int {
        self.width * self.height
    }

    /// The extents are positive, the cell count fits the index type, and every
    /// per-cell table has one entry for each cell.
    pub open spec fn wf(&self) -> bool {
        &&& 0 < self.width
        &&& 0 < self.height
        &&& self.width * self.height <= i32::MAX
        &&& self.tiles@.len() == self.size()
        &&& self.revealed_tiles@.len() == self.size()
        &&& self.visible_tiles@.len() == self.size()
        &&& self.blocked@.len() == self.size()
        &&& self.tile_content@.len() == self.size()
    }

    /// `(x, y)` is a cell of the map.
    pub open spec fn in_bounds(&self, x: int, y: int) -> bool {
        0 <= x < self.width && 0 <= y < self.height
    }

    /// `(x, y)` is a cell that does not lie on the rim of the map.
    pub open spec fn interior(&self, x: int, y: int) -> bool {
        0 < x < self.width - 1 && 0 < y < self.height - 1
    }

    /// The index of the cell `(x, y)`.
    pub open spec fn index_of(&self, x: int, y: int) -> int {
        y * self.width + x
    }

    /// The terrain of the cell `(x, y)`.
    pub open spec fn tile_at(&self, x: int, y: int) -> TileType {
        self.tiles@[self.index_of(x, y)]
    }

    /// Every cell on the rim of the map is a wall.
    pub open spec fn enclosed(&self) -> bool {
        forall|x: int, y: int|
            self.in_bounds(x, y) && !self.interior(x, y) ==> #[trigger] self.tile_at(x, y)
                == TileType::Wall
    }

    /// A step onto `(x, y)` is possible: the cell is inside the rim and not blocked.
    pub open spec fn exit_valid(&self, x: int, y: int) -> bool {
        self.interior(x, y) && !self.blocked@[self.index_of(x, y)]
    }

    /// `exits`, with the step onto `(x, y)` added where that step is possible.
    pub open spec fn with_exit(&self, exits: Seq<(usize, u32)>, x: int, y: int, cost: u32) -> Seq<
        (usize, u32),
    > {
        if self.exit_valid(x, y) {
            exits.push((self.index_of(x, y) as usize, cost))
        } else {
            exits
        }
    }

    /// The steps possible from the cell `idx`, each with its target and cost:
    /// west, east, north, south, then the four diagonals. A diagonal step does
    /// not ask whether the two cells beside it are free.
    pub open spec fn exits_of(&self, idx: int) -> Seq<(usize, u32)> {
        let x = idx % (self.width as int);
        let y = idx / (self.width as int);
        let e = Seq::<(usize, u32)>::empty();
        let e = self.with_exit(e, x - 1, y, CARDINAL_COST);
        let e = self.with_exit(e, x + 1, y, CARDINAL_COST);
        let e = self.with_exit(e, x, y - 1, CARDINAL_COST);
        let e = self.with_exit(e, x, y + 1, CARDINAL_COST);
        let e = self.with_exit(e, x - 1, y - 1, DIAGONAL_COST);
        let e = self.with_exit(e, x + 1, y - 1, DIAGONAL_COST);
        let e = self.with_exit(e, x - 1, y + 1, DIAGONAL_COST);
        let e = self.with_exit(e, x + 1, y + 1, DIAGONAL_COST);
        e
    }

    /// A map of `width` by `height` cells, all of them wall, with no room, nothing
    /// seen, nothing blocked and nobody on it.
    pub fn new(width: i32, height: i32) -> (map: GridMap)
        requires
            0 < width,
            0 < height,
            width * height <= i32::MAX,
        ensures
            map.wf(),
            map.width == width,
            map.height == height,
            map.rooms@.len() == 0,
            forall|i: int| 0 <= i < map.size() ==> map.tiles@[i] == TileType::Wall,
            forall|i: int| 0 <= i < map.size() ==> !map.revealed_tiles@[i],
            forall|i: int| 0 <= i < map.size() ==> !map.visible_tiles@[i],
            forall|i: int| 0 <= i < map.size() ==> !map.blocked@[i],
            forall|i: int| 0 <= i < map.size() ==> map.tile_content@[i]@.len() == 0,
            map.enclosed(),
    {
        let n: usize = (width as usize) * (height as usize);
        let mut tiles: Vec<TileType> = Vec::new();
        let mut revealed_tiles: Vec<bool> = Vec::new();
        let mut visible_tiles: Vec<bool> = Vec::new();
        let mut blocked: Vec<bool> = Vec::new();
        let mut tile_content: Vec<Vec<Entity>> = Vec::new();
        let mut i: usize = 0;
        while i < n
            invariant
                i <= n,
                tiles@.len() == i,
                revealed_tiles@.len() == i,
                visible_tiles@.len() == i,
                blocked@.len() == i,
                tile_content@.len() == i,
                forall|k: int| 0 <= k < i ==> tiles@[k] == TileType::Wall,
                forall|k: int| 0 <= k < i ==> !revealed_tiles@[k],
                forall|k: int| 0 <= k < i ==> !visible_tiles@[k],
                forall|k: int| 0 <= k < i ==> !blocked@[k],
                forall|k: int| 0 <= k < i ==> tile_content@[k]@.len() == 0,
            decreases n - i,
        {
            tiles.push(TileType::Wall);
            revealed_tiles.push(false);
            visible_tiles.push(false);
            blocked.push(false);
            tile_content.push(Vec::new());
            i = i + 1;
        }
        let map = GridMap {
            tiles,
            rooms: Vec::new(),
            width,
            height,
            revealed_tiles,
            visible_tiles,
            blocked,
            tile_content,
        };
        proof {
            assert forall|x: int, y: int|
                map.in_bounds(x, y) && !map.interior(x, y) implies #[trigger] map.tile_at(x, y)
                == TileType::Wall by {
                map.lemma_index_in_range(x, y);
            }
        }
        map
    }

    /// Whether the map is well formed.
    pub fn is_valid(&self) -> (ok: bool)
        ensures
            ok == self.wf(),
    {
        if self.width <= 0 || self.height <= 0 {
            return false;
        }
        assert(self.width * self.height <= 0x7fff_ffff * 0x7fff_ffff) by (nonlinear_arith)
            requires
                0 < self.width <= 0x7fff_ffff,
                0 < self.height <= 0x7fff_ffff,
        ;
        let cells: u64 = self.width as u64 * self.height as u64;
        cells <= 0x7fff_ffff && self.tiles.len() as u64 == cells && self.revealed_tiles.len() as u64
            == cells && self.visible_tiles.len() as u64 == cells && self.blocked.len() as u64
            == cells && self.tile_content.len() as u64 == cells
    }

    /// Whether `(x, y)` is a cell of the map.
    pub fn contains(&self, x: i32, y: i32) -> (inside: bool)
        ensures
            inside == self.in_bounds(x as int, y as int),
    {
        0 <= x && x < self.width && 0 <= y && y < self.height
    }

    /// The index of a cell of the map is below the cell count.
    pub proof fn lemma_index_in_range(&self, x: int, y: int)
        requires
            0 < self.width,
            0 < self.height,
            self.in_bounds(x, y),
        ensures
            0 <= self.index_of(x, y) < self.size(),
            self.index_of(x, y) % (self.width as int) == x,
            self.index_of(x, y) / (self.width as int) == y,
    {
        let w = self.width as int;
        let h = self.height as int;
        assert(y * w + x < w * h && 0 <= y * w) by (nonlinear_arith)
            requires
                0 <= x < w,
                0 <= y < h,
        ;
        lemma_fundamental_div_mod_converse(y * w + x, w, y, x);
    }

    /// Every index below the cell count is the index of the one cell
    /// `(idx % width, idx / width)`.
    pub proof fn lemma_index_split(&self, idx: int)
        requires
            0 < self.width,
            0 < self.height,
            0 <= idx < self.size(),
        ensures
            self.in_bounds(idx % (self.width as int), idx / (self.width as int)),
            self.index_of(idx % (self.width as int), idx / (self.width as int)) == idx,
    {
        let w = self.width as int;
        let h = self.height as int;
        lemma_fundamental_div_mod(idx, w);
        let q = idx / w;
        let r = idx % w;
        assert(0 <= q < h) by (nonlinear_arith)
            requires
                0 <= idx < w * h,
                idx == w * q + r,
                0 <= r < w,
                0 < w,
        ;
    }

    /// The index of the cell `(x, y)`.
    pub fn xy_idx(&self, x: i32, y: i32) -> (idx: usize)
        requires
            self.wf(),
            self.in_bounds(x as int, y as int),
        ensures
            idx == self.index_of(x as int, y as int),
            idx < self.size(),
    {
        proof {
            self.lemma_index_in_range(x as int, y as int);
        }
        (y as usize * self.width as usize) + x as usize
    }

    /// Whether a step onto `(x, y)` is possible.
    pub fn is_exit_valid(&self, x: i32, y: i32) -> (valid: bool)
        requires
            self.wf(),
        ensures
            valid == self.exit_valid(x as int, y as int),
    {
        if x < 1 || x >= self.width - 1 || y < 1 || y >= self.height - 1 {
            return false;
        }
        let idx = self.xy_idx(x, y);
        !self.blocked[idx]
    }

    /// Marks every wall cell as blocked and every other cell as free.
    pub fn populate_blocked(&mut self)
        requires
            old(self).wf(),
        ensures
            final(self).wf(),
            forall|i: int|
                0 <= i < old(self).size() ==> final(self).blocked@[i] == (old(self).tiles@[i]
                    == TileType::Wall),
            final(self).tiles == old(self).tiles,
            final(self).rooms == old(self).rooms,
            final(self).width == old(self).width,
            final(self).height == old(self).height,
            final(self).revealed_tiles == old(self).revealed_tiles,
            final(self).visible_tiles == old(self).visible_tiles,
            final(self).tile_content == old(self).tile_content,
    {
        let n = self.tiles.len();
        let mut i: usize = 0;
        while i < n
            invariant
                i <= n,
                n == self.tiles@.len(),
                self.wf(),
                forall|k: int| 0 <= k < i ==> self.blocked@[k] == (self.tiles@[k] == TileType::Wall),
                self.tiles == old(self).tiles,
                self.rooms == old(self).rooms,
                self.width == old(self).width,
                self.height == old(self).height,
                self.revealed_tiles == old(self).revealed_tiles,
                self.visible_tiles == old(self).visible_tiles,
                self.tile_content == old(self).tile_content,
            decreases n - i,
        {
            self.blocked[i] = self.tiles[i] == TileType::Wall;
            i = i + 1;
        }
    }

    /// Takes every actor off every cell.
    pub fn clear_content_index(&mut self)
        requires
            old(self).wf(),
        ensures
            final(self).wf(),
            forall|i: int| 0 <= i < old(self).size() ==> final(self).tile_content@[i]@.len() == 0,
            final(self).tiles == old(self).tiles,
            final(self).rooms == old(self).rooms,
            final(self).width == old(self).width,
            final(self).height == old(self).height,
            final(self).revealed_tiles == old(self).revealed_tiles,
            final(self).visible_tiles == old(self).visible_tiles,
            final(self).blocked == old(self).blocked,
    {
        let n = self.tile_content.len();
        let mut i: usize = 0;
        while i < n
            invariant
                i <= n,
                n == self.tile_content@.len(),
                self.wf(),
                forall|k: int| 0 <= k < i ==> self.tile_content@[k]@.len() == 0,
                self.tiles == old(self).tiles,
                self.rooms == old(self).rooms,
                self.width == old(self).width,
                self.height == old(self).height,
                self.revealed_tiles == old(self).revealed_tiles,
                self.visible_tiles == old(self).visible_tiles,
                self.blocked == old(self).blocked,
            decreases n - i,
        {
            self.tile_content[i].clear();
            i = i + 1;
        }
    }

    /// Everything but the terrain is as in `before`.
    pub open spec fn same_but_tiles(&self, before: &GridMap) -> bool {
        &&& self.width == before.width
        &&& self.height == before.height
        &&& self.rooms == before.rooms
        &&& self.revealed_tiles == before.revealed_tiles
        &&& self.visible_tiles == before.visible_tiles
        &&& self.blocked == before.blocked
        &&& self.tile_content == before.tile_content
        &&& self.tiles@.len() == before.tiles@.len()
    }

    /// The terrain is that of `before` with the cells of `region` turned to floor.
    pub open spec fn dug_from(&self, before: &GridMap, region: spec_fn(int, int) -> bool) -> bool {
        forall|x: int, y: int|
            self.in_bounds(x, y) ==> #[trigger] self.tile_at(x, y) == if region(x, y) {
                TileType::Floor
            } else {
                before.tile_at(x, y)
            }
    }

    /// Turns the cells `(xa, y)` to `(xb, y)` to floor.
    pub(crate) fn carve_row(&mut self, xa: i32, xb: i32, y: i32)
        requires
            old(self).wf(),
            0 <= xa,
            xb < old(self).width,
            0 <= y < old(self).height,
        ensures
            final(self).wf(),
            final(self).same_but_tiles(old(self)),
            final(self).dug_from(old(self), |x: int, yy: int| yy == y && xa <= x <= xb),
    {
        let mut x: i32 = xa;
        while x <= xb
            invariant
                xa <= x,
                x <= xb + 1 || x == xa,
                0 <= xa,
                xb < self.width,
                0 <= y < self.height,
                self.wf(),
                self.same_but_tiles(old(self)),
                self.dug_from(old(self), |xx: int, yy: int| yy == y && xa <= xx < x),
            decreases xb + 1 - x,
        {
            let idx = self.xy_idx(x, y);
            let ghost prev = *self;
            self.tiles[idx] = TileType::Floor;
            proof {
                assert forall|xx: int, yy: int| self.in_bounds(xx, yy) implies #[trigger] self.tile_at(
                    xx,
                    yy,
                ) == if yy == y && xa <= xx < x + 1 {
                    TileType::Floor
                } else {
                    old(self).tile_at(xx, yy)
                } by {
                    self.lemma_index_in_range(xx, yy);
                    self.lemma_index_in_range(x as int, y as int);
                    assert(prev.tile_at(xx, yy) == if yy == y && xa <= xx < x {
                        TileType::Floor
                    } else {
                        old(self).tile_at(xx, yy)
                    });
                }
            }
            x = x + 1;
        }
    }

    /// Turns the cells `(x, ya)` to `(x, yb)` to floor.
    pub(crate) fn carve_column(&mut self, ya: i32, yb: i32, x: i32)
        requires
            old(self).wf(),
            0 <= ya,
            yb < old(self).height,
            0 <= x < old(self).width,
        ensures
            final(self).wf(),
            final(self).same_but_tiles(old(self)),
            final(self).dug_from(old(self), |xx: int, y: int| xx == x && ya <= y <= yb),
    {
        let mut y: i32 = ya;
        while y <= yb
            invariant
                ya <= y,
                y <= yb + 1 || y == ya,
                0 <= ya,
                yb < self.height,
                0 <= x < self.width,
                self.wf(),
                self.same_but_tiles(old(self)),
                self.dug_from(old(self), |xx: int, yy: int| xx == x && ya <= yy < y),
            decreases yb + 1 - y,
        {
            let idx = self.xy_idx(x, y);
            let ghost prev = *self;
            self.tiles[idx] = TileType::Floor;
            proof {
                assert forall|xx: int, yy: int| self.in_bounds(xx, yy) implies #[trigger] self.tile_at(
                    xx,
                    yy,
                ) == if xx == x && ya <= yy < y + 1 {
                    TileType::Floor
                } else {
                    old(self).tile_at(xx, yy)
                } by {
                    self.lemma_index_in_range(xx, yy);
                    self.lemma_index_in_range(x as int, y as int);
                    assert(prev.tile_at(xx, yy) == if xx == x && ya <= yy < y {
                        TileType::Floor
                    } else {
                        old(self).tile_at(xx, yy)
                    });
                }
            }
            y = y + 1;
        }
    }

    /// The extents of the map as a point: `x` the width, `y` the height.
    pub fn dimensions(&self) -> (d: Point)
        ensures
            d.x == self.width,
            d.y == self.height,
    {
        Point { x: self.width, y: self.height }
    }

    /// Whether the cell `idx` stops the eye: walls do, floor does not.
    pub fn is_opaque(&self, idx: usize) -> (opaque: bool)
        requires
            idx < self.tiles@.len(),
        ensures
            opaque == (self.tiles@[idx as int] == TileType::Wall),
    {
        self.tiles[idx] == TileType::Wall
    }

    /// The steps possible from the cell `idx`, with their costs in hundredths.
    pub fn get_available_exits(&self, idx: usize) -> (exits: Vec<(usize, u32)>)
        requires
            self.wf(),
            idx < self.size(),
        ensures
            exits@ == self.exits_of(idx as int),
    {
        let mut exits: Vec<(usize, u32)> = Vec::new();
        let x: i32 = idx as i32 % self.width;
        let y: i32 = idx as i32 / self.width;
        let w: usize = self.width as usize;
        proof {
            self.lemma_index_split(idx as int);
            assert((y - 1) * self.width + x == idx - w) by (nonlinear_arith)
                requires
                    y * self.width + x == idx,
                    w == self.width,
            ;
            assert((y + 1) * self.width + x == idx + w) by (nonlinear_arith)
                requires
                    y * self.width + x == idx,
                    w == self.width,
            ;
        }

        // west, east, north, south
        if self.is_exit_valid(x - 1, y) {
            exits.push((idx - 1, CARDINAL_COST));
        }
        if self.is_exit_valid(x + 1, y) {
            exits.push((idx + 1, CARDINAL_COST));
        }
        if self.is_exit_valid(x, y - 1) {
            exits.push((idx - w, CARDINAL_COST));
        }
        if self.is_exit_valid(x, y + 1) {
            exits.push((idx + w, CARDINAL_COST));
        }

        // the diagonals
        if self.is_exit_valid(x - 1, y - 1) {
            exits.push(((idx - w) - 1, DIAGONAL_COST));
        }
        if self.is_exit_valid(x + 1, y - 1) {
            exits.push(((idx - w) + 1, DIAGONAL_COST));
        }
        if self.is_exit_valid(x - 1, y + 1) {
            exits.push(((idx + w) - 1, DIAGONAL_COST));
        }
        if self.is_exit_valid(x + 1, y + 1) {
            exits.push(((idx + w) + 1, DIAGONAL_COST));
        }

        exits
    }
}

} // verus!
