//! The tile map: tiles, rooms, and the seeded dungeon generator.
//!
//! Generation is specified exactly: `spec_generate` mirrors, draw by draw,
//! what the executable generator does with the random stream, so the level
//! a seed produces is pinned down completely and twice the same seed gives
//! twice the same level.

use vstd::prelude::*;

use crate::rng::{stream_coin, stream_i32, Draw, Rng};
use crate::util::{Bound, Point};

verus! {

/// Maximum height and width of a room.
pub const ROOM_MAX_SIZE: i32 = 10;

/// Minimum height and width of a room.
pub const ROOM_MIN_SIZE: i32 = 6;

/// Maximum number of rooms in a level.
pub const MAX_ROOMS: i32 = 30;

/// An RGB colour used for debug highlighting of tiles.
#[derive(Copy, Clone, Debug, Eq, PartialEq, Structural)]
pub struct ColorRgb {
    pub r: u8,
    pub g: u8,
    pub b: u8,
}

/// Struct representing one coordinate on the map.
#[derive(Clone, Copy, Debug)]
pub struct Tile {
    /// Whether the tile blocks walking paths.
    pub blocked: bool,
    /// Whether the tile blocks the sight of actors.
    pub block_sight: bool,
    /// Whether the tile has been explored by the player.
    pub explored: bool,
    /// Whether a living entity currently stands on the tile.
    pub occupied: bool,
    /// Debug field for displaying AI paths.
    pub color_override: Option<ColorRgb>,
}

impl Tile {
    /// Creates a new floor tile.
    pub fn empty() -> (t: Tile)
        ensures
            t == Tile::floor_tile(),
    {
        Tile {
            blocked: false,
            block_sight: false,
            explored: false,
            occupied: false,
            color_override: None,
        }
    }

    /// Creates a new wall tile.
    pub fn wall() -> (t: Tile)
        ensures
            t == Tile::wall_tile(),
    {
        Tile {
            blocked: true,
            block_sight: true,
            explored: false,
            occupied: false,
            color_override: None,
        }
    }

    /// The floor tile value that `empty` builds.
    pub open spec fn floor_tile() -> Tile {
        Tile {
            blocked: false,
            block_sight: false,
            explored: false,
            occupied: false,
            color_override: None,
        }
    }

    /// The wall tile value that `wall` builds.
    pub open spec fn wall_tile() -> Tile {
        Tile {
            blocked: true,
            block_sight: true,
            explored: false,
            occupied: false,
            color_override: None,
        }
    }
}

/// Simple struct representing a rectangle.
#[derive(Clone, Copy, Debug, Eq, PartialEq, Structural)]
pub struct Rect {
    pub x1: i32,
    pub y1: i32,
    pub x2: i32,
    pub y2: i32,
}

impl Rect {
    /// Convenience method for creating new rectangles.
    pub fn new(x: i32, y: i32, w: i32, h: i32) -> (r: Rect)
        requires
            i32::MIN <= x + w <= i32::MAX,
            i32::MIN <= y + h <= i32::MAX,
        ensures
            r == (Rect { x1: x, y1: y, x2: (x + w) as i32, y2: (y + h) as i32 }),
    {
        Rect { x1: x, y1: y, x2: x + w, y2: y + h }
    }

    /// The centre point of a rectangle whose corner sums do not overflow
    /// (all rectangles carved into a map qualify).
    pub open spec fn spec_center(self) -> (int, int) {
        ((self.x1 + self.x2) / 2, (self.y1 + self.y2) / 2)
    }

    /// Returns the center of the rectangle. Every rectangle of this
    /// project lives in map coordinates, so the nonnegative corner sums
    /// the rounding argument needs always hold.
    pub fn center(&self) -> (r: (i32, i32))
        requires
            0 <= self.x1 + self.x2 <= i32::MAX,
            0 <= self.y1 + self.y2 <= i32::MAX,
        ensures
            (r.0 as int, r.1 as int) == self.spec_center(),
    {
        let center_x = (self.x1 + self.x2) / 2;
        let center_y = (self.y1 + self.y2) / 2;
        (center_x, center_y)
    }

    /// What `intersects_with` decides: overlap test, borders inclusive,
    /// so that rooms sharing an edge still count as intersecting.
    pub open spec fn spec_intersects(self, other: Rect) -> bool {
        self.x1 <= other.x2 && self.x2 >= other.x1 && self.y1 <= other.y2 && self.y2 >= other.y1
    }

    /// Checks if the rectangle collides with another.
    pub fn intersects_with(&self, other: &Rect) -> (r: bool)
        ensures
            r == self.spec_intersects(*other),
    {
        (self.x1 <= other.x2) && (self.x2 >= other.x1) && (self.y1 <= other.y2) && (self.y2
            >= other.y1)
    }

    /// A point drawn uniformly from the strict interior of the rectangle.
    pub fn rand_point(&self, random: &mut Rng) -> (p: Point)
        requires
            self.x1 + 1 < self.x2,
            self.y1 + 1 < self.y2,
        ensures
            self.x1 < p.x < self.x2,
            self.y1 < p.y < self.y2,
            p.x == stream_i32(old(random).seed(), old(random).draws(), self.x1 + 1, self.x2 as int),
            p.y == stream_i32(
                old(random).seed(),
                old(random).draws().push(Draw::RangeI32(self.x1 + 1, self.x2 as int)),
                self.y1 + 1,
                self.y2 as int,
            ),
            final(random).seed() == old(random).seed(),
            final(random).draws() == old(random).draws().push(
                Draw::RangeI32(self.x1 + 1, self.x2 as int),
            ).push(Draw::RangeI32(self.y1 + 1, self.y2 as int)),
    {
        let x = random.gen_range_i32(self.x1 + 1, self.x2);
        let y = random.gen_range_i32(self.y1 + 1, self.y2);
        Point { x, y }
    }
}

/// The tile grid of a map, one inner sequence per column.
pub open spec fn grid_view(m: Vec<Vec<Tile>>) -> Seq<Seq<Tile>> {
    m@.map_values(|v: Vec<Tile>| v@)
}

/// The grid is `w` columns of `h` tiles each.
pub open spec fn grid_dims_ok(g: Seq<Seq<Tile>>, w: int, h: int) -> bool {
    g.len() == w && forall|x: int| 0 <= x < w ==> (#[trigger] g[x]).len() == h
}

/// Every tile on the outermost ring of the grid is a wall, so nothing
/// walks (and no search escapes) off the edge of the map.
pub open spec fn border_blocked(g: Seq<Seq<Tile>>, w: int, h: int) -> bool {
    forall|x: int, y: int|
        0 <= x < w && 0 <= y < h && (x == 0 || y == 0 || x == w - 1 || y == h - 1)
            ==> (#[trigger] g[x][y]).blocked
}

/// Every tile is an untouched wall or floor tile: nothing explored,
/// occupied or highlighted yet.
pub open spec fn tiles_clean(g: Seq<Seq<Tile>>) -> bool {
    forall|x: int, y: int|
        0 <= x < g.len() && 0 <= y < g[x].len()
            ==> ((#[trigger] g[x][y]) == Tile::wall_tile() || g[x][y] == Tile::floor_tile())
}

/// The room fits strictly inside a `w` by `h` map, one tile of wall
/// spare on every side, and is at least minimum-sized.
pub open spec fn room_in_bounds(r: Rect, w: int, h: int) -> bool {
    &&& 0 <= r.x1
    &&& r.x1 + ROOM_MIN_SIZE <= r.x2
    &&& r.x2 <= r.x1 + ROOM_MAX_SIZE
    &&& r.x2 <= w - 2
    &&& 0 <= r.y1
    &&& r.y1 + ROOM_MIN_SIZE <= r.y2
    &&& r.y2 <= r.y1 + ROOM_MAX_SIZE
    &&& r.y2 <= h - 2
}

/// The point lies strictly inside the room.
pub open spec fn room_holds(r: Rect, p: Point) -> bool {
    r.x1 < p.x < r.x2 && r.y1 < p.y < r.y2
}

/// No two rooms of the list overlap (borders inclusive).
pub open spec fn rooms_disjoint(rooms: Seq<Rect>) -> bool {
    forall|i: int, j: int|
        #![trigger rooms[i], rooms[j]]
        0 <= i < rooms.len() && 0 <= j < rooms.len() && i != j ==> !rooms[i].spec_intersects(
            rooms[j],
        )
}

/// Some room of the list overlaps `r`.
pub open spec fn any_intersects(rooms: Seq<Rect>, r: Rect) -> bool {
    exists|i: int| 0 <= i < rooms.len() && (#[trigger] rooms[i]).spec_intersects(r)
}

/// The all-wall grid that generation starts from.
pub open spec fn initial_grid(w: int, h: int) -> Seq<Seq<Tile>> {
    Seq::new(w as nat, |x: int| Seq::new(h as nat, |y: int| Tile::wall_tile()))
}

/// The grid with the strict interior of `room` carved out to floor.
pub open spec fn carve_room(g: Seq<Seq<Tile>>, room: Rect) -> Seq<Seq<Tile>> {
    Seq::new(
        g.len(),
        |x: int|
            Seq::new(
                g[x].len(),
                |y: int|
                    if room.x1 < x < room.x2 && room.y1 < y < room.y2 {
                        Tile::floor_tile()
                    } else {
                        g[x][y]
                    },
            ),
    )
}

/// The grid with the horizontal corridor at row `y`, spanning the
/// inclusive range between `xa` and `xb`, carved out to floor.
pub open spec fn carve_h_tunnel(g: Seq<Seq<Tile>>, xa: int, xb: int, y: int) -> Seq<Seq<Tile>> {
    Seq::new(
        g.len(),
        |x: int|
            Seq::new(
                g[x].len(),
                |yy: int|
                    if spec_min(xa, xb) <= x <= spec_max(xa, xb) && yy == y {
                        Tile::floor_tile()
                    } else {
                        g[x][yy]
                    },
            ),
    )
}

/// The grid with the vertical corridor at column `x`, spanning the
/// inclusive range between `ya` and `yb`, carved out to floor.
pub open spec fn carve_v_tunnel(g: Seq<Seq<Tile>>, ya: int, yb: int, x: int) -> Seq<Seq<Tile>> {
    Seq::new(
        g.len(),
        |xx: int|
            Seq::new(
                g[xx].len(),
                |y: int|
                    if spec_min(ya, yb) <= y <= spec_max(ya, yb) && xx == x {
                        Tile::floor_tile()
                    } else {
                        g[xx][y]
                    },
            ),
    )
}

/// The smaller of two integers.
pub open spec fn spec_min(a: int, b: int) -> int {
    if a <= b {
        a
    } else {
        b
    }
}

/// The larger of two integers.
pub open spec fn spec_max(a: int, b: int) -> int {
    if a <= b {
        b
    } else {
        a
    }
}

/// Everything one generation attempt can touch: the rooms accepted so
/// far, the grid, the player spawn point, and the draw trace.
pub struct GenState {
    pub rooms: Seq<Rect>,
    pub grid: Seq<Seq<Tile>>,
    pub player_start: Point,
    pub trace: Seq<Draw>,
}

/// One attempt of the generator: four draws pick a candidate room; it is
/// dropped if it overlaps an accepted room, else it is carved, and, after
/// the first room, an L-shaped corridor (corner by coin flip) joins it to
/// the previously accepted room. The first room's centre becomes the
/// player spawn point.
pub open spec fn gen_attempt(seed: u64, w: int, h: int, s: GenState) -> GenState {
    let rw = stream_i32(seed, s.trace, ROOM_MIN_SIZE as int, ROOM_MAX_SIZE + 1);
    let t1 = s.trace.push(Draw::RangeI32(ROOM_MIN_SIZE as int, ROOM_MAX_SIZE + 1));
    let rh = stream_i32(seed, t1, ROOM_MIN_SIZE as int, ROOM_MAX_SIZE + 1);
    let t2 = t1.push(Draw::RangeI32(ROOM_MIN_SIZE as int, ROOM_MAX_SIZE + 1));
    let x = stream_i32(seed, t2, 0, w - rw - 1);
    let t3 = t2.push(Draw::RangeI32(0, w - rw - 1));
    let y = stream_i32(seed, t3, 0, h - rh - 1);
    let t4 = t3.push(Draw::RangeI32(0, h - rh - 1));
    let room = Rect { x1: x as i32, y1: y as i32, x2: (x + rw) as i32, y2: (y + rh) as i32 };
    if any_intersects(s.rooms, room) {
        GenState { rooms: s.rooms, grid: s.grid, player_start: s.player_start, trace: t4 }
    } else {
        let carved = carve_room(s.grid, room);
        let c = room.spec_center();
        if s.rooms.len() == 0 {
            GenState {
                rooms: s.rooms.push(room),
                grid: carved,
                player_start: Point { x: c.0 as i32, y: c.1 as i32 },
                trace: t4,
            }
        } else {
            let p = s.rooms.last().spec_center();
            let coin = stream_coin(seed, t4);
            let t5 = t4.push(Draw::Coin);
            let tunneled = if coin {
                carve_v_tunnel(carve_h_tunnel(carved, p.0, c.0, p.1), p.1, c.1, c.0)
            } else {
                carve_h_tunnel(carve_v_tunnel(carved, p.1, c.1, p.0), p.0, c.0, c.1)
            };
            GenState {
                rooms: s.rooms.push(room),
                grid: tunneled,
                player_start: s.player_start,
                trace: t5,
            }
        }
    }
}

/// The generation state after the first `i` attempts, starting from an
/// all-wall grid and the draw trace `trace0`.
pub open spec fn gen_upto(seed: u64, trace0: Seq<Draw>, w: int, h: int, i: nat) -> GenState
    decreases i,
{
    if i == 0 {
        GenState {
            rooms: Seq::empty(),
            grid: initial_grid(w, h),
            player_start: Point { x: 0, y: 0 },
            trace: trace0,
        }
    } else {
        gen_attempt(seed, w, h, gen_upto(seed, trace0, w, h, (i - 1) as nat))
    }
}

/// The complete generation run: what `DungeonMapComponent::new` builds
/// from a generator with seed `seed` and draw trace `trace0`.
pub open spec fn spec_generate(seed: u64, trace0: Seq<Draw>, w: int, h: int) -> GenState {
    gen_upto(seed, trace0, w, h, MAX_ROOMS as nat)
}

/// Basic struct for simple dungeon levels.
pub struct DungeonMapComponent {
    /// The coordinates for the rooms in the dungeon.
    pub rooms: Vec<Rect>,
    /// The grid of tiles representing the level, indexed column first.
    pub map: Vec<Vec<Tile>>,
    /// Where this particular map generator thinks the player should start.
    pub player_start: Point,
    /// The bounds (size) of the map.
    pub bounds: Bound,
}

impl DungeonMapComponent {
    /// Width of the map in tiles.
    pub open spec fn width(self) -> int {
        self.bounds.max.x as int
    }

    /// Height of the map in tiles.
    pub open spec fn height(self) -> int {
        self.bounds.max.y as int
    }

    /// The tile grid as a sequence of columns.
    pub open spec fn grid(self) -> Seq<Seq<Tile>> {
        grid_view(self.map)
    }

    /// The bounds start at the origin and agree with the grid's
    /// dimensions, and the map is at least three tiles each way within
    /// machine-safe sizes: every tile access is in range, and with at
    /// most 0x4000 tiles a side, even a path visiting every tile costs
    /// under `u32::MAX`, so the search's cost sums cannot wrap.
    pub open spec fn dims_ok(self) -> bool {
        &&& self.bounds.min == (Point { x: 0, y: 0 })
        &&& 3 <= self.width() <= 0x4000
        &&& 3 <= self.height() <= 0x4000
        &&& grid_dims_ok(self.grid(), self.width(), self.height())
    }

    /// Well-formedness: sound dimensions and a border of solid wall.
    pub open spec fn wf(self) -> bool {
        &&& self.dims_ok()
        &&& border_blocked(self.grid(), self.width(), self.height())
    }

    /// What `contains` decides.
    pub open spec fn spec_contains(self, x: int, y: int) -> bool {
        0 <= x < self.width() && 0 <= y < self.height()
    }

    /// What `is_blocked` decides: in bounds and flagged as blocking.
    pub open spec fn spec_blocked(self, x: int, y: int) -> bool {
        self.spec_contains(x, y) && self.grid()[x][y].blocked
    }

    /// What `is_occupied` decides: in bounds and holding an entity.
    pub open spec fn spec_occupied(self, x: int, y: int) -> bool {
        self.spec_contains(x, y) && self.grid()[x][y].occupied
    }

    /// Get the position of all rooms in the level.
    pub fn get_rooms(&self) -> (r: &Vec<Rect>)
        ensures
            r@ == self.rooms@,
    {
        &self.rooms
    }

    /// Get the underlying tile grid.
    pub fn get_map(&self) -> (m: &Vec<Vec<Tile>>)
        ensures
            grid_view(*m) == self.grid(),
    {
        &self.map
    }

    /// Gets where the level generator thinks the player should spawn.
    pub fn get_player_start(&self) -> (p: Point)
        ensures
            p == self.player_start,
    {
        self.player_start
    }

    /// Gets the bounds (size) of the map.
    pub fn get_bounds(&self) -> (b: Bound)
        ensures
            b == self.bounds,
    {
        self.bounds
    }

    /// Whether the current map display area contains a point.
    pub fn contains(&self, x: i32, y: i32) -> (r: bool)
        ensures
            r == self.spec_contains(x as int, y as int),
    {
        (x < self.bounds.max.x && x >= 0) && (y < self.bounds.max.y && y >= 0)
    }

    /// Whether the supplied position has the `blocked` flag set.
    pub fn is_blocked(&self, x: i32, y: i32) -> (r: bool)
        requires
            self.dims_ok(),
        ensures
            r == self.spec_blocked(x as int, y as int),
    {
        if self.contains(x, y) {
            proof {
                assert(self.grid().len() == self.map@.len());
                assert(self.grid()[x as int] == self.map@[x as int]@);
            }
            if self.map[x as usize][y as usize].blocked {
                return true;
            }
        }
        false
    }

    /// Whether the supplied position currently holds a living entity.
    pub fn is_occupied(&self, x: i32, y: i32) -> (r: bool)
        requires
            self.dims_ok(),
        ensures
            r == self.spec_occupied(x as int, y as int),
    {
        if self.contains(x, y) {
            proof {
                assert(self.grid().len() == self.map@.len());
                assert(self.grid()[x as int] == self.map@[x as int]@);
            }
            if self.map[x as usize][y as usize].occupied {
                return true;
            }
        }
        false
    }

    /// The tile at an in-bounds position.
    pub fn get_tile(&self, x: i32, y: i32) -> (t: Tile)
        requires
            self.dims_ok(),
            self.spec_contains(x as int, y as int),
        ensures
            t == self.grid()[x as int][y as int],
    {
        self.map[x as usize][y as usize]
    }

    /// Set or clear the occupancy flag of an in-bounds tile.
    pub fn set_occupied(&mut self, x: i32, y: i32, v: bool)
        requires
            old(self).dims_ok(),
            old(self).spec_contains(x as int, y as int),
        ensures
            final(self).dims_ok(),
            old(self).wf() ==> final(self).wf(),
            final(self).rooms@ == old(self).rooms@,
            final(self).player_start == old(self).player_start,
            final(self).bounds == old(self).bounds,
            final(self).grid() == old(self).grid().update(
                x as int,
                old(self).grid()[x as int].update(
                    y as int,
                    (Tile { occupied: v, ..old(self).grid()[x as int][y as int] }),
                ),
            ),
    {
        let xi = x as usize;
        let yi = y as usize;
        self.map[xi][yi].occupied = v;
        proof {
            assert(final(self).grid() =~~= old(self).grid().update(
                x as int,
                old(self).grid()[x as int].update(
                    y as int,
                    (Tile { occupied: v, ..old(self).grid()[x as int][y as int] }),
                ),
            ));
        }
    }

    /// Set or clear the debug highlight of an in-bounds tile.
    pub fn set_color_override(&mut self, x: i32, y: i32, c: Option<ColorRgb>)
        requires
            old(self).dims_ok(),
            old(self).spec_contains(x as int, y as int),
        ensures
            final(self).dims_ok(),
            old(self).wf() ==> final(self).wf(),
            final(self).rooms@ == old(self).rooms@,
            final(self).player_start == old(self).player_start,
            final(self).bounds == old(self).bounds,
            final(self).grid() == old(self).grid().update(
                x as int,
                old(self).grid()[x as int].update(
                    y as int,
                    (Tile { color_override: c, ..old(self).grid()[x as int][y as int] }),
                ),
            ),
    {
        let xi = x as usize;
        let yi = y as usize;
        self.map[xi][yi].color_override = c;
        proof {
            assert(final(self).grid() =~~= old(self).grid().update(
                x as int,
                old(self).grid()[x as int].update(
                    y as int,
                    (Tile { color_override: c, ..old(self).grid()[x as int][y as int] }),
                ),
            ));
        }
    }

    /// Mark an in-bounds tile as explored (used by the renderer).
    pub fn mark_explored(&mut self, x: i32, y: i32)
        requires
            old(self).dims_ok(),
            old(self).spec_contains(x as int, y as int),
        ensures
            final(self).dims_ok(),
            old(self).wf() ==> final(self).wf(),
            final(self).rooms@ == old(self).rooms@,
            final(self).player_start == old(self).player_start,
            final(self).bounds == old(self).bounds,
            final(self).grid() == old(self).grid().update(
                x as int,
                old(self).grid()[x as int].update(
                    y as int,
                    (Tile { explored: true, ..old(self).grid()[x as int][y as int] }),
                ),
            ),
    {
        let xi = x as usize;
        let yi = y as usize;
        self.map[xi][yi].explored = true;
        proof {
            assert(final(self).grid() =~~= old(self).grid().update(
                x as int,
                old(self).grid()[x as int].update(
                    y as int,
                    (Tile { explored: true, ..old(self).grid()[x as int][y as int] }),
                ),
            ));
        }
    }
}

/// Two grids with equal dimensions and equal tiles are equal.
proof fn lemma_grid_ext(a: Seq<Seq<Tile>>, b: Seq<Seq<Tile>>)
    requires
        a.len() == b.len(),
        forall|x: int| 0 <= x < a.len() ==> (#[trigger] a[x]).len() == b[x].len(),
        forall|x: int, y: int|
            0 <= x < a.len() && 0 <= y < a[x].len() ==> (#[trigger] a[x][y]) == b[x][y],
    ensures
        a == b,
{
    assert forall|x: int| 0 <= x < a.len() implies #[trigger] a[x] == b[x] by {
        assert(a[x] =~= b[x]);
    }
    assert(a =~= b);
}

/// The grid partway through carving `room`: columns before `cx` are done,
/// and column `cx` is done up to (excluding) row `cy`.
spec fn carved_upto(g: Seq<Seq<Tile>>, room: Rect, cx: int, cy: int) -> Seq<Seq<Tile>> {
    Seq::new(
        g.len(),
        |x: int|
            Seq::new(
                g[x].len(),
                |y: int|
                    if (room.x1 < x < cx && room.y1 < y < room.y2) || (x == cx && room.y1 < y
                        < cy) {
                        Tile::floor_tile()
                    } else {
                        g[x][y]
                    },
            ),
    )
}

/// The grid partway through a horizontal corridor at row `y`: columns
/// from `lo` up to (excluding) `cx` are carved.
spec fn htunnel_upto(g: Seq<Seq<Tile>>, lo: int, cx: int, y: int) -> Seq<Seq<Tile>> {
    Seq::new(
        g.len(),
        |xx: int|
            Seq::new(
                g[xx].len(),
                |yy: int|
                    if lo <= xx < cx && yy == y {
                        Tile::floor_tile()
                    } else {
                        g[xx][yy]
                    },
            ),
    )
}

/// The grid partway through a vertical corridor at column `x`: rows
/// from `lo` up to (excluding) `cy` are carved.
spec fn vtunnel_upto(g: Seq<Seq<Tile>>, lo: int, cy: int, x: int) -> Seq<Seq<Tile>> {
    Seq::new(
        g.len(),
        |xx: int|
            Seq::new(
                g[xx].len(),
                |yy: int|
                    if lo <= yy < cy && xx == x {
                        Tile::floor_tile()
                    } else {
                        g[xx][yy]
                    },
            ),
    )
}

/// Writing one floor tile advances `carved_upto` by one row.
proof fn lemma_carved_upto_step(g0: Seq<Seq<Tile>>, room: Rect, x: int, y: int)
    requires
        0 <= x < g0.len(),
        0 <= y < g0[x].len(),
        room.x1 < x < room.x2,
        room.y1 < y < room.y2,
    ensures
        carved_upto(g0, room, x, y + 1) == carved_upto(g0, room, x, y).update(
            x,
            carved_upto(g0, room, x, y)[x].update(y, Tile::floor_tile()),
        ),
{
    let a = carved_upto(g0, room, x, y + 1);
    let b = carved_upto(g0, room, x, y).update(
        x,
        carved_upto(g0, room, x, y)[x].update(y, Tile::floor_tile()),
    );
    assert forall|i: int| 0 <= i < a.len() implies #[trigger] a[i] == b[i] by {
        assert(a[i] =~= b[i]);
    }
    assert(a =~= b);
}

/// Writing one floor tile advances `htunnel_upto` by one column.
proof fn lemma_htunnel_upto_step(g0: Seq<Seq<Tile>>, lo: int, x: int, y: int)
    requires
        0 <= x < g0.len(),
        lo <= x,
        0 <= y < g0[x].len(),
    ensures
        htunnel_upto(g0, lo, x + 1, y) == htunnel_upto(g0, lo, x, y).update(
            x,
            htunnel_upto(g0, lo, x, y)[x].update(y, Tile::floor_tile()),
        ),
{
    let a = htunnel_upto(g0, lo, x + 1, y);
    let b = htunnel_upto(g0, lo, x, y).update(
        x,
        htunnel_upto(g0, lo, x, y)[x].update(y, Tile::floor_tile()),
    );
    assert forall|i: int| 0 <= i < a.len() implies #[trigger] a[i] == b[i] by {
        assert(a[i] =~= b[i]);
    }
    assert(a =~= b);
}

/// Writing one floor tile advances `vtunnel_upto` by one row.
proof fn lemma_vtunnel_upto_step(g0: Seq<Seq<Tile>>, lo: int, y: int, x: int)
    requires
        0 <= x < g0.len(),
        lo <= y,
        0 <= y < g0[x].len(),
    ensures
        vtunnel_upto(g0, lo, y + 1, x) == vtunnel_upto(g0, lo, y, x).update(
            x,
            vtunnel_upto(g0, lo, y, x)[x].update(y, Tile::floor_tile()),
        ),
{
    let a = vtunnel_upto(g0, lo, y + 1, x);
    let b = vtunnel_upto(g0, lo, y, x).update(
        x,
        vtunnel_upto(g0, lo, y, x)[x].update(y, Tile::floor_tile()),
    );
    assert forall|i: int| 0 <= i < a.len() implies #[trigger] a[i] == b[i] by {
        assert(a[i] =~= b[i]);
    }
    assert(a =~= b);
}

/// Writes one tile of the grid.
fn set_grid_tile(map: &mut Vec<Vec<Tile>>, x: usize, y: usize, t: Tile)
    requires
        x < old(map)@.len(),
        y < old(map)@[x as int]@.len(),
    ensures
        final(map)@.len() == old(map)@.len(),
        final(map)@[x as int]@ == old(map)@[x as int]@.update(y as int, t),
        forall|i: int| 0 <= i < old(map)@.len() && i != x ==> final(map)@[i] == old(map)@[i],
        grid_view(*final(map)) == grid_view(*old(map)).update(
            x as int,
            grid_view(*old(map))[x as int].update(y as int, t),
        ),
{
    map[x][y] = t;
    proof {
        let gprev = grid_view(*old(map));
        let gcur = grid_view(*map);
        assert forall|i: int| 0 <= i < gprev.len() implies #[trigger] gcur[i] == gprev.update(
            x as int,
            gprev[x as int].update(y as int, t),
        )[i] by {
            assert(gcur[i] == map@[i]@);
            assert(gprev[i] == old(map)@[i]@);
            if i != x as int {
                assert(map@[i] == old(map)@[i]);
            }
        }
        assert(gcur =~= gprev.update(x as int, gprev[x as int].update(y as int, t)));
    }
}

/// Carves the strict interior of `room` out to floor tiles.
#[verifier::loop_isolation(false)]
fn create_room(room: Rect, map: &mut Vec<Vec<Tile>>)
    requires
        0 <= room.x1 < room.x2,
        room.x2 <= grid_view(*old(map)).len() as int - 1,
        0 <= room.y1 < room.y2,
        forall|x: int|
            room.x1 < x < room.x2 ==> room.y2 <= (#[trigger] grid_view(*old(map))[x]).len() as int
                - 1,
    ensures
        grid_view(*final(map)) == carve_room(grid_view(*old(map)), room),
{
    let ghost g0 = grid_view(*old(map));
    let mut x: i32 = room.x1 + 1;
    proof {
        lemma_grid_ext(grid_view(*map), carved_upto(g0, room, room.x1 + 1, room.y1 + 1));
    }
    while x < room.x2
        invariant
            room.x1 + 1 <= x <= room.x2,
            grid_view(*map) == carved_upto(g0, room, x as int, room.y1 + 1),
        decreases room.x2 - x,
    {
        let mut y: i32 = room.y1 + 1;
        while y < room.y2
            invariant
                room.x1 + 1 <= x < room.x2,
                room.y1 + 1 <= y <= room.y2,
                grid_view(*map) == carved_upto(g0, room, x as int, y as int),
            decreases room.y2 - y,
        {
            proof {
                assert(grid_view(*map).len() == map@.len());
                assert(grid_view(*map)[x as int] == map@[x as int]@);
                assert(g0[x as int].len() == map@[x as int]@.len());
            }
            set_grid_tile(map, x as usize, y as usize, Tile::empty());
            proof {
                lemma_carved_upto_step(g0, room, x as int, y as int);
            }
            y += 1;
        }
        proof {
            lemma_grid_ext(grid_view(*map), carved_upto(g0, room, x + 1, room.y1 + 1));
        }
        x += 1;
    }
    proof {
        lemma_grid_ext(grid_view(*map), carve_room(g0, room));
    }
}

/// Carves a horizontal corridor at row `y`, spanning the inclusive range
/// between `xa` and `xb`.
#[verifier::loop_isolation(false)]
fn create_h_tunnel(xa: i32, xb: i32, y: i32, map: &mut Vec<Vec<Tile>>)
    requires
        0 <= spec_min(xa as int, xb as int),
        spec_max(xa as int, xb as int) < grid_view(*old(map)).len() as int,
        spec_max(xa as int, xb as int) < 0x7fff_ffff,
        0 <= y,
        forall|x: int|
            spec_min(xa as int, xb as int) <= x <= spec_max(xa as int, xb as int) ==> (y as int) < (
            #[trigger] grid_view(*old(map))[x]).len() as int,
    ensures
        grid_view(*final(map)) == carve_h_tunnel(
            grid_view(*old(map)),
            xa as int,
            xb as int,
            y as int,
        ),
{
    let ghost g0 = grid_view(*old(map));
    let lo: i32 = if xa <= xb {
        xa
    } else {
        xb
    };
    let hi: i32 = if xa <= xb {
        xb
    } else {
        xa
    };
    let mut x: i32 = lo;
    proof {
        lemma_grid_ext(grid_view(*map), htunnel_upto(g0, lo as int, lo as int, y as int));
    }
    while x <= hi
        invariant
            lo <= x <= hi + 1,
            grid_view(*map) == htunnel_upto(g0, lo as int, x as int, y as int),
        decreases hi + 1 - x,
    {
        proof {
            assert(grid_view(*map).len() == map@.len());
            assert(grid_view(*map)[x as int] == map@[x as int]@);
            assert(g0[x as int].len() == map@[x as int]@.len());
        }
        set_grid_tile(map, x as usize, y as usize, Tile::empty());
        proof {
            lemma_htunnel_upto_step(g0, lo as int, x as int, y as int);
        }
        x += 1;
    }
    proof {
        lemma_grid_ext(grid_view(*map), carve_h_tunnel(g0, xa as int, xb as int, y as int));
    }
}

/// Carves a vertical corridor at column `x`, spanning the inclusive range
/// between `ya` and `yb`.
#[verifier::loop_isolation(false)]
fn create_v_tunnel(ya: i32, yb: i32, x: i32, map: &mut Vec<Vec<Tile>>)
    requires
        0 <= x,
        (x as int) < grid_view(*old(map)).len() as int,
        0 <= spec_min(ya as int, yb as int),
        spec_max(ya as int, yb as int) < grid_view(*old(map))[x as int].len() as int,
        spec_max(ya as int, yb as int) < 0x7fff_ffff,
    ensures
        grid_view(*final(map)) == carve_v_tunnel(
            grid_view(*old(map)),
            ya as int,
            yb as int,
            x as int,
        ),
{
    let ghost g0 = grid_view(*old(map));
    let lo: i32 = if ya <= yb {
        ya
    } else {
        yb
    };
    let hi: i32 = if ya <= yb {
        yb
    } else {
        ya
    };
    let mut y: i32 = lo;
    proof {
        lemma_grid_ext(grid_view(*map), vtunnel_upto(g0, lo as int, lo as int, x as int));
    }
    while y <= hi
        invariant
            lo <= y <= hi + 1,
            grid_view(*map) == vtunnel_upto(g0, lo as int, y as int, x as int),
        decreases hi + 1 - y,
    {
        proof {
            assert(grid_view(*map).len() == map@.len());
            assert(grid_view(*map)[x as int] == map@[x as int]@);
            assert(g0[x as int].len() == map@[x as int]@.len());
        }
        set_grid_tile(map, x as usize, y as usize, Tile::empty());
        proof {
            lemma_vtunnel_upto_step(g0, lo as int, y as int, x as int);
        }
        y += 1;
    }
    proof {
        lemma_grid_ext(grid_view(*map), carve_v_tunnel(g0, ya as int, yb as int, x as int));
    }
}

/// Whether some accepted room overlaps the candidate.
fn intersects_any(rooms: &Vec<Rect>, r: &Rect) -> (b: bool)
    ensures
        b == any_intersects(rooms@, *r),
{
    let mut i: usize = 0;
    while i < rooms.len()
        invariant
            0 <= i <= rooms@.len(),
            forall|k: int| 0 <= k < i ==> !(#[trigger] rooms@[k]).spec_intersects(*r),
        decreases rooms@.len() - i,
    {
        if r.intersects_with(&rooms[i]) {
            assert(rooms@[i as int].spec_intersects(*r)) by {
                assert(r.spec_intersects(rooms@[i as int]));
            }
            return true;
        }
        i += 1;
    }
    false
}

/// Carving a room inside the map keeps the dimensions, keeps every tile
/// a clean wall or floor, and leaves the border walled.
proof fn lemma_carve_room_props(g: Seq<Seq<Tile>>, room: Rect, w: int, h: int)
    requires
        grid_dims_ok(g, w, h),
        tiles_clean(g),
        border_blocked(g, w, h),
        room_in_bounds(room, w, h),
    ensures
        grid_dims_ok(carve_room(g, room), w, h),
        tiles_clean(carve_room(g, room)),
        border_blocked(carve_room(g, room), w, h),
{
    let c = carve_room(g, room);
    assert forall|x: int| 0 <= x < w implies (#[trigger] c[x]).len() == h by {
        assert(g[x].len() == h);
    }
    assert forall|x: int, y: int| 0 <= x < c.len() && 0 <= y < c[x].len() implies ((
    #[trigger] c[x][y]) == Tile::wall_tile() || c[x][y] == Tile::floor_tile()) by {
        assert(g[x].len() == h);
        assert(g[x][y] == Tile::wall_tile() || g[x][y] == Tile::floor_tile());
    }
    assert forall|x: int, y: int|
        0 <= x < w && 0 <= y < h && (x == 0 || y == 0 || x == w - 1 || y == h - 1) implies (
    #[trigger] c[x][y]).blocked by {
        assert(g[x].len() == h);
        assert(g[x][y].blocked);
        assert(!(room.x1 < x < room.x2 && room.y1 < y < room.y2));
    }
}

/// Carving a corridor strictly inside the border keeps the dimensions,
/// keeps every tile clean, and leaves the border walled.
proof fn lemma_h_tunnel_props(g: Seq<Seq<Tile>>, xa: int, xb: int, y: int, w: int, h: int)
    requires
        grid_dims_ok(g, w, h),
        tiles_clean(g),
        border_blocked(g, w, h),
        1 <= spec_min(xa, xb),
        spec_max(xa, xb) <= w - 2,
        1 <= y <= h - 2,
    ensures
        grid_dims_ok(carve_h_tunnel(g, xa, xb, y), w, h),
        tiles_clean(carve_h_tunnel(g, xa, xb, y)),
        border_blocked(carve_h_tunnel(g, xa, xb, y), w, h),
{
    let c = carve_h_tunnel(g, xa, xb, y);
    assert forall|x: int| 0 <= x < w implies (#[trigger] c[x]).len() == h by {
        assert(g[x].len() == h);
    }
    assert forall|x: int, yy: int| 0 <= x < c.len() && 0 <= yy < c[x].len() implies ((
    #[trigger] c[x][yy]) == Tile::wall_tile() || c[x][yy] == Tile::floor_tile()) by {
        assert(g[x].len() == h);
        assert(g[x][yy] == Tile::wall_tile() || g[x][yy] == Tile::floor_tile());
    }
    assert forall|x: int, yy: int|
        0 <= x < w && 0 <= yy < h && (x == 0 || yy == 0 || x == w - 1 || yy == h - 1) implies (
    #[trigger] c[x][yy]).blocked by {
        assert(g[x].len() == h);
        assert(g[x][yy].blocked);
    }
}

/// Vertical counterpart of `lemma_h_tunnel_props`.
proof fn lemma_v_tunnel_props(g: Seq<Seq<Tile>>, ya: int, yb: int, x: int, w: int, h: int)
    requires
        grid_dims_ok(g, w, h),
        tiles_clean(g),
        border_blocked(g, w, h),
        1 <= spec_min(ya, yb),
        spec_max(ya, yb) <= h - 2,
        1 <= x <= w - 2,
    ensures
        grid_dims_ok(carve_v_tunnel(g, ya, yb, x), w, h),
        tiles_clean(carve_v_tunnel(g, ya, yb, x)),
        border_blocked(carve_v_tunnel(g, ya, yb, x), w, h),
{
    let c = carve_v_tunnel(g, ya, yb, x);
    assert forall|xx: int| 0 <= xx < w implies (#[trigger] c[xx]).len() == h by {
        assert(g[xx].len() == h);
    }
    assert forall|xx: int, yy: int| 0 <= xx < c.len() && 0 <= yy < c[xx].len() implies ((
    #[trigger] c[xx][yy]) == Tile::wall_tile() || c[xx][yy] == Tile::floor_tile()) by {
        assert(g[xx].len() == h);
        assert(g[xx][yy] == Tile::wall_tile() || g[xx][yy] == Tile::floor_tile());
    }
    assert forall|xx: int, yy: int|
        0 <= xx < w && 0 <= yy < h && (xx == 0 || yy == 0 || xx == w - 1 || yy == h - 1) implies (
    #[trigger] c[xx][yy]).blocked by {
        assert(g[xx].len() == h);
        assert(g[xx][yy].blocked);
    }
}

impl DungeonMapComponent {
    /// Creates a new dungeon map from the injected seeded random stream.
    ///
    /// The result is exactly `spec_generate` applied to the stream's seed
    /// and draw trace, so a fixed seed reproduces the identical map,
    /// room list and spawn point.
    #[verifier::loop_isolation(false)]
    #[verifier::rlimit(60)]
    pub fn new(width: i32, height: i32, random: &mut Rng) -> (m: DungeonMapComponent)
        requires
            12 <= width <= 0x4000,
            12 <= height <= 0x4000,
        ensures
            m.wf(),
            m.bounds == (Bound {
                min: Point { x: 0, y: 0 },
                max: Point { x: width, y: height },
            }),
            m.rooms@ == spec_generate(
                old(random).seed(),
                old(random).draws(),
                width as int,
                height as int,
            ).rooms,
            m.grid() == spec_generate(
                old(random).seed(),
                old(random).draws(),
                width as int,
                height as int,
            ).grid,
            m.player_start == spec_generate(
                old(random).seed(),
                old(random).draws(),
                width as int,
                height as int,
            ).player_start,
            final(random).seed() == old(random).seed(),
            final(random).draws() == spec_generate(
                old(random).seed(),
                old(random).draws(),
                width as int,
                height as int,
            ).trace,
            1 <= m.rooms@.len() <= MAX_ROOMS,
            rooms_disjoint(m.rooms@),
            forall|k: int|
                0 <= k < m.rooms@.len() ==> room_in_bounds(
                    #[trigger] m.rooms@[k],
                    width as int,
                    height as int,
                ),
            m.player_start == (Point {
                x: m.rooms@[0].spec_center().0 as i32,
                y: m.rooms@[0].spec_center().1 as i32,
            }),
            tiles_clean(m.grid()),
    {
        let ghost seed = old(random).seed();
        let ghost t0 = old(random).draws();
        let ghost w = width as int;
        let ghost h = height as int;

        // fill map with wall tiles
        let mut map: Vec<Vec<Tile>> = Vec::new();
        let mut gx: i32 = 0;
        while gx < width
            invariant
                0 <= gx <= width,
                map@.len() == gx,
                forall|x: int|
                    0 <= x < gx ==> (#[trigger] map@[x])@ == Seq::new(
                        h as nat,
                        |y: int| Tile::wall_tile(),
                    ),
            decreases width - gx,
        {
            let mut col: Vec<Tile> = Vec::new();
            let mut gy: i32 = 0;
            while gy < height
                invariant
                    0 <= gy <= height,
                    col@.len() == gy,
                    forall|y: int| 0 <= y < gy ==> #[trigger] col@[y] == Tile::wall_tile(),
                decreases height - gy,
            {
                col.push(Tile::wall());
                gy += 1;
            }
            proof {
                assert(col@ =~= Seq::new(h as nat, |y: int| Tile::wall_tile()));
            }
            map.push(col);
            gx += 1;
        }
        proof {
            assert(forall|x: int|
                0 <= x < map@.len() ==> #[trigger] grid_view(map)[x] == map@[x]@);
            lemma_grid_ext(grid_view(map), initial_grid(w, h));
        }

        let zero_point = Point { x: 0, y: 0 };
        let mut player_start = zero_point;
        let bounds = Bound { min: zero_point, max: Point { x: width, y: height } };
        let mut rooms: Vec<Rect> = Vec::new();

        let mut i: i32 = 0;
        while i < MAX_ROOMS
            invariant
                0 <= i <= MAX_ROOMS,
                random.seed() == seed,
                random.draws() == gen_upto(seed, t0, w, h, i as nat).trace,
                rooms@ == gen_upto(seed, t0, w, h, i as nat).rooms,
                grid_view(map) == gen_upto(seed, t0, w, h, i as nat).grid,
                player_start == gen_upto(seed, t0, w, h, i as nat).player_start,
                grid_dims_ok(grid_view(map), w, h),
                tiles_clean(grid_view(map)),
                border_blocked(grid_view(map), w, h),
                forall|k: int|
                    0 <= k < rooms@.len() ==> room_in_bounds(#[trigger] rooms@[k], w, h),
                rooms_disjoint(rooms@),
                rooms@.len() <= i,
                i >= 1 ==> rooms@.len() >= 1,
                rooms@.len() >= 1 ==> player_start == (Point {
                    x: rooms@[0].spec_center().0 as i32,
                    y: rooms@[0].spec_center().1 as i32,
                }),
            decreases MAX_ROOMS - i,
        {
            let ghost gi = gen_upto(seed, t0, w, h, i as nat);
            let ghost gn = gen_upto(seed, t0, w, h, (i + 1) as nat);
            proof {
                assert(gn == gen_attempt(seed, w, h, gi));
            }

            // random width and height
            let rw = random.gen_range_i32(ROOM_MIN_SIZE, ROOM_MAX_SIZE + 1);
            let rh = random.gen_range_i32(ROOM_MIN_SIZE, ROOM_MAX_SIZE + 1);
            // random position without going out of the boundaries of the map
            let x = random.gen_range_i32(0, width - rw - 1);
            let y = random.gen_range_i32(0, height - rh - 1);

            let new_room = Rect::new(x, y, rw, rh);

            // run through the other rooms and see if they intersect with this one
            let failed = intersects_any(&rooms, &new_room);

            proof {
                let s_rw = stream_i32(seed, gi.trace, ROOM_MIN_SIZE as int, ROOM_MAX_SIZE + 1);
                let t1 = gi.trace.push(Draw::RangeI32(ROOM_MIN_SIZE as int, ROOM_MAX_SIZE + 1));
                let s_rh = stream_i32(seed, t1, ROOM_MIN_SIZE as int, ROOM_MAX_SIZE + 1);
                let t2 = t1.push(Draw::RangeI32(ROOM_MIN_SIZE as int, ROOM_MAX_SIZE + 1));
                let s_x = stream_i32(seed, t2, 0, w - s_rw - 1);
                let t3 = t2.push(Draw::RangeI32(0, w - s_rw - 1));
                let s_y = stream_i32(seed, t3, 0, h - s_rh - 1);
                assert(rw == s_rw && rh == s_rh && x == s_x && y == s_y);
                assert(new_room == (Rect {
                    x1: s_x as i32,
                    y1: s_y as i32,
                    x2: (s_x + s_rw) as i32,
                    y2: (s_y + s_rh) as i32,
                }));
                assert(room_in_bounds(new_room, w, h));
                assert(failed == any_intersects(gi.rooms, new_room));
            }

            if !failed {
                // this means there are no intersections, so this room is valid
                create_room(new_room, &mut map);
                proof {
                    lemma_carve_room_props(gi.grid, new_room, w, h);
                }
                let center = new_room.center();
                let new_x = center.0;
                let new_y = center.1;
                proof {
                    lemma_center_bounds(new_room);
                }

                if rooms.len() == 0 {
                    // set the player start to the center of the first room
                    player_start = Point { x: new_x, y: new_y };
                } else {
                    // center coordinates of the previous room
                    let prev_room = rooms[rooms.len() - 1];
                    let prev_center = prev_room.center();
                    let prev_x = prev_center.0;
                    let prev_y = prev_center.1;
                    proof {
                        lemma_center_bounds(prev_room);
                    }

                    // coin flip for the corridor corner
                    if random.gen_coin() {
                        create_h_tunnel(prev_x, new_x, prev_y, &mut map);
                        proof {
                            lemma_h_tunnel_props(
                                carve_room(gi.grid, new_room),
                                prev_x as int,
                                new_x as int,
                                prev_y as int,
                                w,
                                h,
                            );
                        }
                        create_v_tunnel(prev_y, new_y, new_x, &mut map);
                        proof {
                            lemma_v_tunnel_props(
                                carve_h_tunnel(
                                    carve_room(gi.grid, new_room),
                                    prev_x as int,
                                    new_x as int,
                                    prev_y as int,
                                ),
                                prev_y as int,
                                new_y as int,
                                new_x as int,
                                w,
                                h,
                            );
                        }
                    } else {
                        create_v_tunnel(prev_y, new_y, prev_x, &mut map);
                        proof {
                            lemma_v_tunnel_props(
                                carve_room(gi.grid, new_room),
                                prev_y as int,
                                new_y as int,
                                prev_x as int,
                                w,
                                h,
                            );
                        }
                        create_h_tunnel(prev_x, new_x, new_y, &mut map);
                        proof {
                            lemma_h_tunnel_props(
                                carve_v_tunnel(
                                    carve_room(gi.grid, new_room),
                                    prev_y as int,
                                    new_y as int,
                                    prev_x as int,
                                ),
                                prev_x as int,
                                new_x as int,
                                new_y as int,
                                w,
                                h,
                            );
                        }
                    }
                }

                // finally, append the new room to the list
                rooms.push(new_room);
                proof {
                    assert(rooms@ == gn.rooms);
                    assert(grid_view(map) == gn.grid);
                    assert(player_start == gn.player_start);
                    assert(random.draws() == gn.trace);
                    assert forall|a: int, b: int|
                        #![trigger rooms@[a], rooms@[b]]
                        0 <= a < rooms@.len() && 0 <= b < rooms@.len() && a
                            != b implies !rooms@[a].spec_intersects(rooms@[b]) by {
                        if b == rooms@.len() - 1 {
                            assert(!any_intersects(gi.rooms, new_room));
                            assert(!gi.rooms[a].spec_intersects(new_room));
                        } else if a == rooms@.len() - 1 {
                            assert(!gi.rooms[b].spec_intersects(new_room));
                        }
                    }
                }
            } else {
                proof {
                    assert(rooms@ == gn.rooms);
                    assert(grid_view(map) == gn.grid);
                    assert(player_start == gn.player_start);
                    assert(random.draws() == gn.trace);
                }
            }

            i += 1;
        }

        DungeonMapComponent { rooms, map, player_start, bounds }
    }
}

/// The grid with one tile's occupancy flag set to `v`.
pub open spec fn grid_occupied_set(g: Seq<Seq<Tile>>, x: int, y: int, v: bool) -> Seq<Seq<Tile>> {
    g.update(x, g[x].update(y, (Tile { occupied: v, ..g[x][y] })))
}

/// The two grids agree on everything except, possibly, the tiles'
/// occupancy flags.
pub open spec fn grids_same_but_occupied(a: Seq<Seq<Tile>>, b: Seq<Seq<Tile>>) -> bool {
    &&& b.len() == a.len()
    &&& forall|x: int| 0 <= x < a.len() ==> (#[trigger] b[x]).len() == a[x].len()
    &&& forall|x: int, y: int|
        0 <= x < a.len() && 0 <= y < a[x].len() ==> {
            let ta = a[x][y];
            let tb = #[trigger] b[x][y];
            tb.blocked == ta.blocked && tb.block_sight == ta.block_sight && tb.explored
                == ta.explored && tb.color_override == ta.color_override
        }
}

/// Setting an occupancy flag keeps a grid in the same-but-occupied
/// relation to a reference grid.
pub proof fn lemma_occupied_set_keeps_same(
    a: Seq<Seq<Tile>>,
    b: Seq<Seq<Tile>>,
    x: int,
    y: int,
    v: bool,
)
    requires
        grids_same_but_occupied(a, b),
        0 <= x < b.len(),
        0 <= y < b[x].len(),
    ensures
        grids_same_but_occupied(a, grid_occupied_set(b, x, y, v)),
{
}

/// The two maps agree on everything except, possibly, the tiles' debug
/// highlight colours.
pub open spec fn map_same_but_color(a: DungeonMapComponent, b: DungeonMapComponent) -> bool {
    &&& b.rooms@ == a.rooms@
    &&& b.player_start == a.player_start
    &&& b.bounds == a.bounds
    &&& b.grid().len() == a.grid().len()
    &&& forall|x: int|
        0 <= x < a.grid().len() ==> (#[trigger] b.grid()[x]).len() == a.grid()[x].len()
    &&& forall|x: int, y: int|
        0 <= x < a.grid().len() && 0 <= y < a.grid()[x].len() ==> {
            let ta = a.grid()[x][y];
            let tb = #[trigger] b.grid()[x][y];
            tb.blocked == ta.blocked && tb.block_sight == ta.block_sight && tb.explored
                == ta.explored && tb.occupied == ta.occupied
        }
}

/// A map that agrees with a well-formed map on everything but highlight
/// colours is well-formed too, with the same blocking and occupancy.
pub proof fn lemma_same_but_color_wf(a: DungeonMapComponent, b: DungeonMapComponent)
    requires
        a.wf(),
        map_same_but_color(a, b),
    ensures
        b.wf(),
        forall|x: int, y: int| b.spec_blocked(x, y) == a.spec_blocked(x, y),
        forall|x: int, y: int| b.spec_occupied(x, y) == a.spec_occupied(x, y),
{
    assert forall|x: int, y: int| b.spec_blocked(x, y) == a.spec_blocked(x, y) by {
        if 0 <= x < a.grid().len() && 0 <= y < a.grid()[x].len() {
            assert(b.grid()[x][y].blocked == a.grid()[x][y].blocked);
        }
    }
    assert forall|x: int, y: int| b.spec_occupied(x, y) == a.spec_occupied(x, y) by {
        if 0 <= x < a.grid().len() && 0 <= y < a.grid()[x].len() {
            assert(b.grid()[x][y].occupied == a.grid()[x][y].occupied);
        }
    }
    assert forall|x: int, y: int|
        0 <= x < b.width() && 0 <= y < b.height() && (x == 0 || y == 0 || x == b.width() - 1 || y
            == b.height() - 1) implies (#[trigger] b.grid()[x][y]).blocked by {
        assert(a.grid()[x][y].blocked);
        assert(b.grid()[x][y].blocked == a.grid()[x][y].blocked);
    }
}

/// Determinism of generation: any two maps built from generators with
/// the same seed and the same draw history are identical — same room
/// list, same tile grid, same player spawn point.
pub proof fn lemma_generation_deterministic(
    seed: u64,
    trace0: Seq<Draw>,
    w: int,
    h: int,
    a: DungeonMapComponent,
    b: DungeonMapComponent,
)
    requires
        a.rooms@ == spec_generate(seed, trace0, w, h).rooms,
        a.grid() == spec_generate(seed, trace0, w, h).grid,
        a.player_start == spec_generate(seed, trace0, w, h).player_start,
        b.rooms@ == spec_generate(seed, trace0, w, h).rooms,
        b.grid() == spec_generate(seed, trace0, w, h).grid,
        b.player_start == spec_generate(seed, trace0, w, h).player_start,
    ensures
        a.rooms@ == b.rooms@,
        a.grid() == b.grid(),
        a.player_start == b.player_start,
{
}

/// The centre of a room lies at least three tiles inside each of the
/// room's edges.
pub proof fn lemma_center_bounds(r: Rect)
    requires
        0 <= r.x1,
        r.x1 + ROOM_MIN_SIZE <= r.x2,
        0 <= r.y1,
        r.y1 + ROOM_MIN_SIZE <= r.y2,
    ensures
        r.x1 + 3 <= r.spec_center().0 <= r.x2 - 3,
        r.y1 + 3 <= r.spec_center().1 <= r.y2 - 3,
{
    vstd::arithmetic::div_mod::lemma_fundamental_div_mod(r.x1 + r.x2, 2);
    vstd::arithmetic::div_mod::lemma_mod_bound(r.x1 + r.x2, 2);
    vstd::arithmetic::div_mod::lemma_fundamental_div_mod(r.y1 + r.y2, 2);
    vstd::arithmetic::div_mod::lemma_mod_bound(r.y1 + r.y2, 2);
}

} // verus!
