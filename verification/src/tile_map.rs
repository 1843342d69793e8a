//! Terrain model: grid positions, the terrain materials and tile kinds of the
//! sprite atlas, and the occupancy map that solid terrain marks itself into.

use vstd::assert_sets_equal;
use vstd::prelude::*;

verus! {

broadcast use vstd::std_specs::hash::group_hash_axioms;

/// A cell of the integer grid (16x16-pixel cells in world space).
#[derive(Clone, Copy, Debug, PartialEq, Eq, Structural)]
pub struct GridPos {
    pub x: i32,
    pub y: i32,
}

/// A grid offset with a depth layer, as terrain blocks carry one.
#[derive(Clone, Copy, Debug, PartialEq, Eq, Structural)]
pub struct GridOffset {
    pub x: i32,
    pub y: i32,
    pub z: i32,
}

/// The material of a terrain block; selects the row of the terrain atlas.
#[derive(Clone, Copy, Debug, PartialEq, Eq, Structural)]
pub enum TerrainMaterial {
    Gold,
    Brick,
    Copper,
    Iron,
    Clay,
}

/// The shape of one terrain tile within a block; selects the column offset
/// of the terrain atlas.
#[derive(Clone, Copy, Debug, PartialEq, Eq, Structural)]
pub enum TerrainType {
    OneLeft,
    OneHorizontal,
    OneRight,
    OneDown,
    Block,
    TopLeft,
    TopRight,
    OneVertical,
    BottomLeft,
    BottomRight,
    OneUp,
}

/// Atlas index of the first tile of a material's row.
pub open spec fn spec_material_base(m: TerrainMaterial) -> usize {
    match m {
        TerrainMaterial::Gold => 193,
        TerrainMaterial::Brick => 105,
        TerrainMaterial::Copper => 188,
        TerrainMaterial::Iron => 100,
        TerrainMaterial::Clay => 12,
    }
}

/// Column offset of a tile shape within a material's row.
pub open spec fn spec_terrain_offset(t: TerrainType) -> usize {
    match t {
        TerrainType::OneLeft => 0,
        TerrainType::OneHorizontal => 1,
        TerrainType::OneRight => 2,
        TerrainType::OneDown => 3,
        TerrainType::Block => 22,
        TerrainType::TopLeft => 23,
        TerrainType::TopRight => 24,
        TerrainType::OneVertical => 25,
        TerrainType::BottomLeft => 45,
        TerrainType::BottomRight => 46,
        TerrainType::OneUp => 47,
    }
}

impl TerrainMaterial {
    /// Atlas sprite index for this material drawn with the given tile shape.
    pub fn to_sprite(self, terrain_type: TerrainType) -> (r: usize)
        ensures
            r == spec_material_base(self) + spec_terrain_offset(terrain_type),
    {
        let base: usize = match self {
            TerrainMaterial::Gold => 193,
            TerrainMaterial::Brick => 105,
            TerrainMaterial::Copper => 188,
            TerrainMaterial::Iron => 100,
            TerrainMaterial::Clay => 12,
        };
        let offset: usize = match terrain_type {
            TerrainType::OneLeft => 0,
            TerrainType::OneHorizontal => 1,
            TerrainType::OneRight => 2,
            TerrainType::OneDown => 3,
            TerrainType::Block => 22,
            TerrainType::TopLeft => 23,
            TerrainType::TopRight => 24,
            TerrainType::OneVertical => 25,
            TerrainType::BottomLeft => 45,
            TerrainType::BottomRight => 46,
            TerrainType::OneUp => 47,
        };
        base + offset
    }
}

/// The value of a cell's coordinates folded into one occupancy-map key:
/// the x coordinate, reinterpreted as an unsigned 32-bit value, in the high
/// half, and y likewise in the low half.
pub open spec fn spec_cell_key(p: GridPos) -> u64 {
    (spec_u32_of_i32(p.x) * 0x1_0000_0000 + spec_u32_of_i32(p.y)) as u64
}

/// The unsigned 32-bit reinterpretation of a signed 32-bit value.
pub open spec fn spec_u32_of_i32(x: i32) -> int {
    if x >= 0 {
        x as int
    } else {
        x + 0x1_0000_0000
    }
}

/// Folding two coordinates into one key loses nothing: distinct cells get
/// distinct keys.
pub proof fn lemma_cell_key_injective(a: GridPos, b: GridPos)
    ensures
        spec_cell_key(a) == spec_cell_key(b) <==> a == b,
{
    let ka = spec_u32_of_i32(a.x) * 0x1_0000_0000 + spec_u32_of_i32(a.y);
    let kb = spec_u32_of_i32(b.x) * 0x1_0000_0000 + spec_u32_of_i32(b.y);
    assert(0 <= ka < 0x1_0000_0000_0000_0000 && 0 <= kb < 0x1_0000_0000_0000_0000)
        by (nonlinear_arith)
        requires
            0 <= spec_u32_of_i32(a.x) < 0x1_0000_0000,
            0 <= spec_u32_of_i32(a.y) < 0x1_0000_0000,
            0 <= spec_u32_of_i32(b.x) < 0x1_0000_0000,
            0 <= spec_u32_of_i32(b.y) < 0x1_0000_0000,
            ka == spec_u32_of_i32(a.x) * 0x1_0000_0000 + spec_u32_of_i32(a.y),
            kb == spec_u32_of_i32(b.x) * 0x1_0000_0000 + spec_u32_of_i32(b.y),
    ;
    if spec_cell_key(a) == spec_cell_key(b) {
        assert(ka == kb);
        assert(spec_u32_of_i32(a.x) == spec_u32_of_i32(b.x)
            && spec_u32_of_i32(a.y) == spec_u32_of_i32(b.y)) by (nonlinear_arith)
            requires
                ka == kb,
                ka == spec_u32_of_i32(a.x) * 0x1_0000_0000 + spec_u32_of_i32(a.y),
                kb == spec_u32_of_i32(b.x) * 0x1_0000_0000 + spec_u32_of_i32(b.y),
                0 <= spec_u32_of_i32(a.y) < 0x1_0000_0000,
                0 <= spec_u32_of_i32(b.y) < 0x1_0000_0000,
                spec_u32_of_i32(a.x) >= 0,
                spec_u32_of_i32(b.x) >= 0,
        ;
        assert(a.x == b.x && a.y == b.y);
    }
}

fn cell_key(p: GridPos) -> (r: u64)
    ensures
        r == spec_cell_key(p),
{
    let ux: u64 = if p.x >= 0 {
        p.x as u64
    } else {
        ((p.x as i64) + 0x1_0000_0000i64) as u64
    };
    let uy: u64 = if p.y >= 0 {
        p.y as u64
    } else {
        ((p.y as i64) + 0x1_0000_0000i64) as u64
    };
    assert(ux * 0x1_0000_0000 + uy <= u64::MAX) by (nonlinear_arith)
        requires
            ux < 0x1_0000_0000,
            uy < 0x1_0000_0000,
    ;
    ux * 0x1_0000_0000u64 + uy
}

/// The occupancy map: the set of grid cells currently covered by solid
/// terrain. Cleared and rebuilt whenever the level reloads.
pub struct MapData {
    need_correcting: bool,
    full: std::collections::HashSet<u64>,
}

impl View for MapData {
    type V = Set<u64>;

    closed spec fn view(&self) -> Set<u64> {
        self.full@
    }
}

impl MapData {
    /// Whether a cell is marked full, stated over the view.
    pub open spec fn spec_contains(self, cell: GridPos) -> bool {
        self@.contains(spec_cell_key(cell))
    }

    pub fn new() -> (r: MapData)
        ensures
            r@ == Set::<u64>::empty(),
            !r.spec_need_correcting(),
    {
        MapData { need_correcting: false, full: std::collections::HashSet::new() }
    }

    pub closed spec fn spec_need_correcting(self) -> bool {
        self.need_correcting
    }

    /// Empties the map, as a level reload does before terrain re-marks itself.
    pub fn clear(&mut self)
        ensures
            final(self)@ == Set::<u64>::empty(),
            final(self).spec_need_correcting() == old(self).spec_need_correcting(),
    {
        self.full.clear();
    }

    /// True when no terrain covers the cell.
    pub fn is_empty(&self, cell: GridPos) -> (r: bool)
        ensures
            r == !self.spec_contains(cell),
    {
        !self.full.contains(&cell_key(cell))
    }

    /// Marks one cell as covered by terrain.
    pub fn set_full(&mut self, cell: GridPos)
        ensures
            final(self)@ == old(self)@.insert(spec_cell_key(cell)),
            final(self).spec_need_correcting() == old(self).spec_need_correcting(),
    {
        self.full.insert(cell_key(cell));
    }

    /// Requests a correction pass over the live terrain.
    pub fn shrink(&mut self)
        ensures
            final(self)@ == old(self)@,
            final(self).spec_need_correcting(),
    {
        self.need_correcting = true;
    }

    /// Ends a correction pass.
    pub fn finish_correcting(&mut self)
        ensures
            final(self)@ == old(self)@,
            !final(self).spec_need_correcting(),
    {
        self.need_correcting = false;
    }
}

/// An axis-aligned rectangular terrain block.
#[derive(Clone, Copy, Debug, PartialEq, Eq, Structural)]
pub struct MapBox {
    pub offset: GridOffset,
    pub width: i32,
    pub height: i32,
    pub material: TerrainMaterial,
}

/// One child sprite of a terrain block: its tile shape and its offset from
/// the block's centre, in half-pixel units.
#[derive(Clone, Copy, Debug, PartialEq, Eq, Structural)]
pub struct SpriteCell {
    pub terrain: TerrainType,
    pub dx_half: i64,
    pub dy_half: i64,
}

/// A world position in half-pixel units (one grid cell is 32 half-pixels).
#[derive(Clone, Copy, Debug, PartialEq, Eq, Structural)]
pub struct HalfPos {
    pub x: i64,
    pub y: i64,
    pub z: i64,
}

/// The occupancy keys of the cells a block covers: every cell at
/// `(offset.x + dx, offset.y + dy)` with `0 <= dx < width`, `0 <= dy < height`.
pub open spec fn spec_box_cells(b: MapBox) -> Set<u64> {
    spec_box_cells_upto(b, b.width as int, 0)
}

/// The covered cells of every column before `i`, and of column `i` below `j`.
pub open spec fn spec_box_cells_upto(b: MapBox, i: int, j: int) -> Set<u64> {
    Set::new(
        |k: u64|
            exists|dx: int, dy: int|
                0 <= dx && 0 <= dy && dy < b.height && (dx < i || (dx == i && dy < j)) && k
                    == #[trigger] spec_cell_key(
                    GridPos { x: (b.offset.x + dx) as i32, y: (b.offset.y + dy) as i32 },
                ),
    )
}

/// Which block footprints the sprite atlas can draw: single cells, one-cell
/// wide or tall strips, and the 2x2 block. Larger irregular sizes are
/// unsupported and make the block decline to materialize.
pub open spec fn spec_footprint_supported(width: int, height: int) -> bool {
    width >= 1 && height >= 1 && (width == 1 || height == 1 || (width == 2 && height == 2))
}

/// Tile shape of the `i`th cell of a one-cell-tall row of `w` cells.
pub open spec fn spec_row_terrain(w: int, i: int) -> TerrainType {
    if i == 0 {
        TerrainType::OneLeft
    } else if i == w - 1 {
        TerrainType::OneRight
    } else {
        TerrainType::OneHorizontal
    }
}

/// Tile shape of the `i`th cell (bottom to top) of a one-cell-wide column of
/// `h` cells.
pub open spec fn spec_column_terrain(h: int, i: int) -> TerrainType {
    if i == 0 {
        TerrainType::OneUp
    } else if i == h - 1 {
        TerrainType::OneDown
    } else {
        TerrainType::OneVertical
    }
}

/// Centre offset, in half-pixels, of the `i`th cell of a strip of `n` cells:
/// the strip is centred on the block's own centre.
pub open spec fn spec_strip_offset_half(n: int, i: int) -> int {
    if n % 2 == 1 {
        (i - n / 2) * 32
    } else {
        (i - n / 2 + 1) * 32 - 16
    }
}

/// The centre of a block in half-pixel world units, as the renderer places
/// it: single-extent axes sit on the cell centre, wider extents are shifted
/// by half the extent.
pub open spec fn spec_calc_pos_half(b: MapBox) -> HalfPos {
    HalfPos {
        x: if b.width == 1 {
            (b.offset.x * 32) as i64
        } else {
            (b.offset.x * 32 + b.width * 16 - 16) as i64
        },
        y: if b.height == 1 {
            (b.offset.y * 32) as i64
        } else {
            (b.offset.y * 32 + b.height * 16 - 16) as i64
        },
        z: (b.offset.z * 32) as i64,
    }
}

/// The child sprites that draw a supported footprint, in order.
pub open spec fn spec_square_layout(width: int, height: int) -> Seq<SpriteCell> {
    if width == 1 && height == 1 {
        seq![SpriteCell { terrain: TerrainType::Block, dx_half: 0i64, dy_half: 0i64 }]
    } else if width == 1 {
        Seq::new(
            height as nat,
            |i: int|
                SpriteCell {
                    terrain: spec_column_terrain(height, i),
                    dx_half: 0i64,
                    dy_half: spec_strip_offset_half(height, i) as i64,
                },
        )
    } else if height == 1 {
        Seq::new(
            width as nat,
            |i: int|
                SpriteCell {
                    terrain: spec_row_terrain(width, i),
                    dx_half: spec_strip_offset_half(width, i) as i64,
                    dy_half: 0i64,
                },
        )
    } else {
        seq![
            SpriteCell { terrain: TerrainType::BottomLeft, dx_half: -16i64, dy_half: -16i64 },
            SpriteCell { terrain: TerrainType::BottomRight, dx_half: 16i64, dy_half: -16i64 },
            SpriteCell { terrain: TerrainType::TopLeft, dx_half: -16i64, dy_half: 16i64 },
            SpriteCell { terrain: TerrainType::TopRight, dx_half: 16i64, dy_half: 16i64 },
        ]
    }
}

impl MapBox {
    /// Marks every cell the block covers as full in the occupancy map.
    pub fn set_full(&self, map: &mut MapData)
        requires
            self.offset.x + self.width <= i32::MAX,
            self.offset.y + self.height <= i32::MAX,
        ensures
            final(map)@ == old(map)@.union(spec_box_cells(*self)),
            final(map).spec_need_correcting() == old(map).spec_need_correcting(),
    {
        let ghost orig = map@;
        let mut dx: i32 = 0;
        while dx < self.width
            invariant
                0 <= dx,
                self.width > 0 ==> dx <= self.width,
                self.width <= 0 ==> dx == 0,
                self.offset.x + self.width <= i32::MAX,
                self.offset.y + self.height <= i32::MAX,
                map@ == orig.union(spec_box_cells_upto(*self, dx as int, 0)),
                map.spec_need_correcting() == old(map).spec_need_correcting(),
            decreases self.width - dx,
        {
            let mut dy: i32 = 0;
            while dy < self.height
                invariant
                    0 <= dx < self.width,
                    0 <= dy,
                    self.height > 0 ==> dy <= self.height,
                    self.height <= 0 ==> dy == 0,
                    self.offset.x + self.width <= i32::MAX,
                    self.offset.y + self.height <= i32::MAX,
                    map@ == orig.union(spec_box_cells_upto(*self, dx as int, dy as int)),
                    map.spec_need_correcting() == old(map).spec_need_correcting(),
                decreases self.height - dy,
            {
                let cell = GridPos { x: self.offset.x + dx, y: self.offset.y + dy };
                map.set_full(cell);
                proof {
                    assert_sets_equal!(
                        orig.union(spec_box_cells_upto(*self, dx as int, dy as int))
                            .insert(spec_cell_key(cell))
                        == orig.union(spec_box_cells_upto(*self, dx as int, dy + 1)),
                        k => {
                            if orig.union(spec_box_cells_upto(*self, dx as int, dy as int))
                                .insert(spec_cell_key(cell)).contains(k) {
                                if k == spec_cell_key(cell) {
                                    assert(spec_box_cells_upto(*self, dx as int, dy + 1)
                                        .contains(k));
                                }
                            }
                            if orig.union(spec_box_cells_upto(*self, dx as int, dy + 1))
                                .contains(k) {
                                if spec_box_cells_upto(*self, dx as int, dy + 1).contains(k) {
                                    let (ex, ey) = choose|ex: int, ey: int|
                                        0 <= ex && 0 <= ey && ey < self.height
                                        && (ex < dx || (ex == dx && ey < dy + 1))
                                        && k == #[trigger] spec_cell_key(GridPos {
                                            x: (self.offset.x + ex) as i32,
                                            y: (self.offset.y + ey) as i32,
                                        });
                                    if ex == dx && ey == dy as int {
                                        assert(k == spec_cell_key(cell));
                                    } else {
                                        assert(spec_box_cells_upto(*self, dx as int, dy as int)
                                            .contains(k));
                                    }
                                }
                            }
                        }
                    );
                }
                dy = dy + 1;
            }
            proof {
                assert_sets_equal!(
                    spec_box_cells_upto(*self, dx as int, self.height as int)
                    == spec_box_cells_upto(*self, dx + 1, 0),
                    k => {
                        if spec_box_cells_upto(*self, dx as int, self.height as int)
                            .contains(k) {
                            assert(spec_box_cells_upto(*self, dx + 1, 0).contains(k));
                        }
                        if spec_box_cells_upto(*self, dx + 1, 0).contains(k) {
                            let (ex, ey) = choose|ex: int, ey: int|
                                0 <= ex && 0 <= ey && ey < self.height
                                && (ex < dx + 1 || (ex == dx + 1 && ey < 0))
                                && k == #[trigger] spec_cell_key(GridPos {
                                    x: (self.offset.x + ex) as i32,
                                    y: (self.offset.y + ey) as i32,
                                });
                            assert(spec_box_cells_upto(*self, dx as int, self.height as int)
                                .contains(k));
                        }
                    }
                );
            }
            dx = dx + 1;
        }
        proof {
            if self.width <= 0 {
                assert_sets_equal!(
                    spec_box_cells_upto(*self, 0, 0)
                    == spec_box_cells_upto(*self, self.width as int, 0),
                    k => {
                        if spec_box_cells_upto(*self, self.width as int, 0).contains(k) {
                            let (ex, ey) = choose|ex: int, ey: int|
                                0 <= ex && 0 <= ey && ey < self.height
                                && (ex < self.width || (ex == self.width && ey < 0))
                                && k == #[trigger] spec_cell_key(GridPos {
                                    x: (self.offset.x + ex) as i32,
                                    y: (self.offset.y + ey) as i32,
                                });
                            assert(spec_box_cells_upto(*self, 0, 0).contains(k));
                        }
                    }
                );
            }
            assert_sets_equal!(map@ == orig.union(spec_box_cells(*self)));
        }
    }

    /// Centre of the block in half-pixel world units, as the renderer places
    /// it: single cells sit on the cell centre, strips and blocks are shifted
    /// by half their extent.
    pub fn calc_pos_half(&self) -> (r: HalfPos)
        requires
            1 <= self.width,
            1 <= self.height,
        ensures
            r == spec_calc_pos_half(*self),
            r.z == self.offset.z * 32,
            self.width == 1 ==> r.x == self.offset.x * 32,
            self.width >= 2 ==> r.x == self.offset.x * 32 + self.width * 16 - 16,
            self.height == 1 ==> r.y == self.offset.y * 32,
            self.height >= 2 ==> r.y == self.offset.y * 32 + self.height * 16 - 16,
    {
        let ox: i64 = self.offset.x as i64;
        let oy: i64 = self.offset.y as i64;
        let oz: i64 = self.offset.z as i64;
        let w: i64 = self.width as i64;
        let h: i64 = self.height as i64;
        let x: i64 = if self.width == 1 {
            ox * 32
        } else {
            ox * 32 + w * 16 - 16
        };
        let y: i64 = if self.height == 1 {
            oy * 32
        } else {
            oy * 32 + h * 16 - 16
        };
        HalfPos { x, y, z: oz * 32 }
    }
}

/// The child sprites that draw a block of the given footprint, or `None` when
/// the footprint is unsupported.
pub fn square_sprite_layout(width: i32, height: i32) -> (r: Option<Vec<SpriteCell>>)
    ensures
        r is Some <==> spec_footprint_supported(width as int, height as int),
        r matches Some(v) ==> v@ == spec_square_layout(width as int, height as int),
        width == 1 && height == 1 ==> (r matches Some(v) && v@ =~= seq![
            SpriteCell { terrain: TerrainType::Block, dx_half: 0i64, dy_half: 0i64 },
        ]),
        width == 1 && height >= 2 ==> (r matches Some(v) && v@.len() == height && (forall|i: int|
            0 <= i < height ==> v@[i] == (SpriteCell {
                terrain: spec_column_terrain(height as int, i),
                dx_half: 0i64,
                dy_half: spec_strip_offset_half(height as int, i) as i64,
            }))),
        width >= 2 && height == 1 ==> (r matches Some(v) && v@.len() == width && (forall|i: int|
            0 <= i < width ==> v@[i] == (SpriteCell {
                terrain: spec_row_terrain(width as int, i),
                dx_half: spec_strip_offset_half(width as int, i) as i64,
                dy_half: 0i64,
            }))),
        width == 2 && height == 2 ==> (r matches Some(v) && v@ =~= seq![
            SpriteCell { terrain: TerrainType::BottomLeft, dx_half: -16i64, dy_half: -16i64 },
            SpriteCell { terrain: TerrainType::BottomRight, dx_half: 16i64, dy_half: -16i64 },
            SpriteCell { terrain: TerrainType::TopLeft, dx_half: -16i64, dy_half: 16i64 },
            SpriteCell { terrain: TerrainType::TopRight, dx_half: 16i64, dy_half: 16i64 },
        ]),
{
    if width < 1 || height < 1 {
        return None;
    }
    if width == 1 && height == 1 {
        let mut v: Vec<SpriteCell> = Vec::new();
        v.push(SpriteCell { terrain: TerrainType::Block, dx_half: 0, dy_half: 0 });
        Some(v)
    } else if width == 1 {
        let mut v: Vec<SpriteCell> = Vec::new();
        let mut i: i32 = 0;
        while i < height
            invariant
                0 <= i <= height,
                2 <= height,
                v@.len() == i,
                forall|k: int|
                    0 <= k < i ==> v@[k] == (SpriteCell {
                        terrain: spec_column_terrain(height as int, k),
                        dx_half: 0i64,
                        dy_half: spec_strip_offset_half(height as int, k) as i64,
                    }),
            decreases height - i,
        {
            let terrain = if i == 0 {
                TerrainType::OneUp
            } else if i == height - 1 {
                TerrainType::OneDown
            } else {
                TerrainType::OneVertical
            };
            let dy: i64 = if height % 2 == 1 {
                ((i as i64) - (height as i64) / 2) * 32
            } else {
                ((i as i64) - (height as i64) / 2 + 1) * 32 - 16
            };
            v.push(SpriteCell { terrain, dx_half: 0, dy_half: dy });
            i = i + 1;
        }
        Some(v)
    } else if height == 1 {
        let mut v: Vec<SpriteCell> = Vec::new();
        let mut i: i32 = 0;
        while i < width
            invariant
                0 <= i <= width,
                2 <= width,
                v@.len() == i,
                forall|k: int|
                    0 <= k < i ==> v@[k] == (SpriteCell {
                        terrain: spec_row_terrain(width as int, k),
                        dx_half: spec_strip_offset_half(width as int, k) as i64,
                        dy_half: 0i64,
                    }),
            decreases width - i,
        {
            let terrain = if i == 0 {
                TerrainType::OneLeft
            } else if i == width - 1 {
                TerrainType::OneRight
            } else {
                TerrainType::OneHorizontal
            };
            let dx: i64 = if width % 2 == 1 {
                ((i as i64) - (width as i64) / 2) * 32
            } else {
                ((i as i64) - (width as i64) / 2 + 1) * 32 - 16
            };
            v.push(SpriteCell { terrain, dx_half: dx, dy_half: 0 });
            i = i + 1;
        }
        Some(v)
    } else if width == 2 && height == 2 {
        let mut v: Vec<SpriteCell> = Vec::new();
        v.push(SpriteCell { terrain: TerrainType::BottomLeft, dx_half: -16, dy_half: -16 });
        v.push(SpriteCell { terrain: TerrainType::BottomRight, dx_half: 16, dy_half: -16 });
        v.push(SpriteCell { terrain: TerrainType::TopLeft, dx_half: -16, dy_half: 16 });
        v.push(SpriteCell { terrain: TerrainType::TopRight, dx_half: 16, dy_half: 16 });
        Some(v)
    } else {
        None
    }
}

/// The cells covered by the first `n` blocks of a list.
pub open spec fn spec_boxes_cells(bs: Seq<MapBox>, n: int) -> Set<u64>
    decreases n,
{
    if n <= 0 {
        Set::empty()
    } else {
        spec_boxes_cells(bs, n - 1).union(spec_box_cells(bs[n - 1]))
    }
}

/// Re-marks every live terrain block into the occupancy map, as the
/// correction pass after a map edit does.
pub fn update_map_with_squares(boxes: &Vec<MapBox>, map: &mut MapData)
    requires
        forall|i: int|
            0 <= i < boxes@.len() ==> (#[trigger] boxes@[i]).offset.x + boxes@[i].width
                <= i32::MAX && boxes@[i].offset.y + boxes@[i].height <= i32::MAX,
    ensures
        final(map)@ == old(map)@.union(spec_boxes_cells(boxes@, boxes@.len() as int)),
        final(map).spec_need_correcting() == old(map).spec_need_correcting(),
{
    let ghost orig = map@;
    let mut i: usize = 0;
    proof {
        assert_sets_equal!(orig.union(spec_boxes_cells(boxes@, 0)) == orig);
    }
    while i < boxes.len()
        invariant
            0 <= i <= boxes@.len(),
            forall|k: int|
                0 <= k < boxes@.len() ==> (#[trigger] boxes@[k]).offset.x + boxes@[k].width
                    <= i32::MAX && boxes@[k].offset.y + boxes@[k].height <= i32::MAX,
            map@ == orig.union(spec_boxes_cells(boxes@, i as int)),
            map.spec_need_correcting() == old(map).spec_need_correcting(),
        decreases boxes@.len() - i,
    {
        let b = boxes[i];
        b.set_full(map);
        proof {
            assert_sets_equal!(
                orig.union(spec_boxes_cells(boxes@, i as int)).union(spec_box_cells(b))
                == orig.union(spec_boxes_cells(boxes@, i + 1)));
        }
        i = i + 1;
    }
}

} // verus!
