use vstd::prelude::*;

use crate::model::{EntityId, TerrainKind, TilePos};

verus! {

/// A crop growing on one tile.
#[derive(Debug, Clone, PartialEq, Eq)]
pub struct CropInstance {
    pub crop_id: String,
    pub planted_at: u64,
    pub stage_index: usize,
    pub stage_progress: u32,
    pub moisture: u8,
    pub health: u8,
    pub pollinated: bool,
    pub inspection_due: bool,
    pub pest_pressure: u8,
    pub pest_controlled: bool,
    pub weed_pressure: u8,
    pub soil_compaction: u8,
    pub remaining_harvests: u8,
}

/// One cell of the farm.
#[derive(Debug, Clone, PartialEq, Eq)]
pub struct Tile {
    pub terrain: TerrainKind,
    pub moisture: u8,
    pub fertility: u8,
    pub crop: Option<CropInstance>,
    pub building: Option<EntityId>,
    pub occupied: bool,
    pub tilled: bool,
    pub plowed: bool,
    pub water_level: u8,
}

/// A fresh tile of the given terrain.
pub open spec fn fresh_tile(terrain: TerrainKind) -> Tile {
    Tile {
        terrain,
        moisture: 50,
        fertility: 80,
        crop: None,
        building: None,
        occupied: false,
        tilled: false,
        plowed: false,
        water_level: 0,
    }
}

impl Tile {
    pub fn new(terrain: TerrainKind) -> (r: Self)
        ensures
            r == fresh_tile(terrain),
    {
        Tile {
            terrain,
            moisture: 50,
            fertility: 80,
            crop: None,
            building: None,
            occupied: false,
            tilled: false,
            plowed: false,
            water_level: 0,
        }
    }
}

/// Row-major index of a position in a grid of the given width.
pub open spec fn row_major(width: u32, p: TilePos) -> int {
    p.y as int * width as int + p.x as int
}

/// The position of a row-major index.
pub open spec fn position_of_index(width: u32, i: int) -> TilePos {
    TilePos { x: (i % width as int) as u32, y: (i / width as int) as u32 }
}

/// A row-major index and the position it names determine each other.
pub proof fn lemma_row_major(width: u32, height: u32, p: TilePos)
    requires
        p.x < width,
        p.y < height,
    ensures
        0 <= row_major(width, p) < (width as int) * (height as int),
        position_of_index(width, row_major(width, p)) == p,
{
    let i = row_major(width, p);
    vstd::arithmetic::div_mod::lemma_fundamental_div_mod_converse(
        i,
        width as int,
        p.y as int,
        p.x as int,
    );
    assert(p.y as int * width as int + (p.x as int) < (width as int) * (height as int)) by (nonlinear_arith)
        requires
            p.x < width,
            p.y < height,
    ;
    assert(0 <= (p.y as int) * (width as int)) by (nonlinear_arith);
}

/// Every index of the grid names a position inside it, whose row-major index it is.
pub proof fn lemma_index_position(width: u32, height: u32, i: int)
    requires
        0 <= i < (width as int) * (height as int),
    ensures
        position_of_index(width, i).x < width,
        position_of_index(width, i).y < height,
        row_major(width, position_of_index(width, i)) == i,
{
    assert(width > 0) by (nonlinear_arith)
        requires
            0 <= i < (width as int) * (height as int),
    ;
    vstd::arithmetic::div_mod::lemma_fundamental_div_mod(i, width as int);
    let q = i / width as int;
    let r = i % width as int;
    assert(q < height) by (nonlinear_arith)
        requires
            i == width as int * q + r,
            0 <= r,
            i < (width as int) * (height as int),
            width > 0,
    ;
    assert(q >= 0) by (nonlinear_arith)
        requires
            i == width as int * q + r,
            0 <= r < (width as int),
            i >= 0,
            width > 0,
    ;
    assert(q * width as int + r == i) by (nonlinear_arith)
        requires
            i == width as int * q + r,
    ;
    assert(r < width);
    assert(position_of_index(width, i).y as int == q);
    assert(position_of_index(width, i).x as int == r);
}

/// The terrain that a fixed map generates at a cell.
pub open spec fn fixed_terrain(x: u32, y: u32, width: u32, height: u32, seed: u64) -> TerrainKind {
    let noise = x.wrapping_mul(73_856_093) ^ y.wrapping_mul(19_349_663) ^ (seed as u32);
    if x == 0 || y == 0 || x + 1 == width || y + 1 == height {
        TerrainKind::Rock
    } else if x > 54 && 8 <= y < 56 {
        TerrainKind::Water
    } else if noise % 31 == 0 {
        TerrainKind::RoughSoil
    } else if x < 5 || y < 5 {
        TerrainKind::Grass
    } else {
        TerrainKind::Soil
    }
}

/// The positions of a rectangle clipped to `[x0, x1) x [y0, y1)`, row by row.
pub open spec fn rect_rows(x0: int, x1: int, y0: int, y1: int) -> Seq<TilePos>
    decreases y1 - y0,
{
    if y1 <= y0 {
        Seq::empty()
    } else {
        rect_rows(x0, x1, y0, y1 - 1) + Seq::new(
            if x1 > x0 {
                (x1 - x0) as nat
            } else {
                0
            },
            |i: int| TilePos { x: (x0 + i) as u32, y: (y1 - 1) as u32 },
        )
    }
}

/// Every position of a clipped rectangle lies inside it.
pub proof fn lemma_rect_rows_inside(x0: int, x1: int, y0: int, y1: int, i: int)
    requires
        0 <= x0,
        x1 <= u32::MAX + 1,
        0 <= y0,
        y1 <= u32::MAX + 1,
        0 <= i < rect_rows(x0, x1, y0, y1).len(),
    ensures
        x0 <= rect_rows(x0, x1, y0, y1)[i].x < x1,
        y0 <= rect_rows(x0, x1, y0, y1)[i].y < y1,
    decreases y1 - y0,
{
    if y1 > y0 {
        let prev = rect_rows(x0, x1, y0, y1 - 1);
        if i < prev.len() {
            lemma_rect_rows_inside(x0, x1, y0, y1 - 1, i);
        }
    }
}

/// Upper end of an axis of a rectangle clipped to the grid.
pub open spec fn clipped_end(start: u32, len: u32, limit: u32) -> int {
    let end = if start as int + len as int > u32::MAX {
        u32::MAX as int
    } else {
        start as int + len as int
    };
    if end < limit {
        end
    } else {
        limit as int
    }
}

/// The farm grid: `width * height` tiles stored row by row.
#[derive(Debug, Clone, PartialEq, Eq)]
pub struct FarmGrid {
    pub width: u32,
    pub height: u32,
    pub tiles: Vec<Tile>,
}

impl FarmGrid {
    /// The tile vector holds exactly one tile per cell, and cell indices fit in a `u32`.
    pub open spec fn wf(self) -> bool {
        &&& self.tiles@.len() == self.width as int * self.height as int
        &&& self.width as int * (self.height as int) <= u32::MAX
    }

    pub open spec fn in_bounds(self, p: TilePos) -> bool {
        p.x < self.width && p.y < self.height
    }

    /// The tile at an in-bounds position of a well-formed grid.
    pub open spec fn tile_at(self, p: TilePos) -> Tile {
        self.tiles@[row_major(self.width, p)]
    }

    /// What `tile` returns: the tile at `p`, when `p` is on the grid and stored.
    pub open spec fn tile_spec(self, p: TilePos) -> Option<Tile> {
        if self.in_bounds(p) && row_major(self.width, p) < self.tiles@.len() {
            Some(self.tiles@[row_major(self.width, p)])
        } else {
            None
        }
    }

    /// The generated rectangular map with a rock border, a water body in the
    /// east and noise-placed rough soil.
    pub fn fixed_map(width: u32, height: u32, seed: u64) -> (r: Self)
        requires
            width as int * (height as int) <= u32::MAX,
        ensures
            r.wf(),
            r.width == width,
            r.height == height,
            forall|p: TilePos|
                #![trigger r.tile_at(p)]
                r.in_bounds(p) ==> r.tile_at(p) == fresh_tile(
                    fixed_terrain(p.x, p.y, width, height, seed),
                ),
    {
        let mut tiles: Vec<Tile> = Vec::new();
        let mut y: u32 = 0;
        while y < height
            invariant
                width as int * (height as int) <= u32::MAX,
                y <= height,
                tiles@.len() == y as int * width as int,
                forall|i: int|
                    0 <= i < tiles@.len() ==> #[trigger] tiles@[i] == fresh_tile(
                        fixed_terrain(
                            position_of_index(width, i).x,
                            position_of_index(width, i).y,
                            width,
                            height,
                            seed,
                        ),
                    ),
            decreases height - y,
        {
            let mut x: u32 = 0;
            while x < width
                invariant
                    width as int * (height as int) <= u32::MAX,
                    y < height,
                    x <= width,
                    tiles@.len() == y as int * width as int + x as int,
                    forall|i: int|
                        0 <= i < tiles@.len() ==> #[trigger] tiles@[i] == fresh_tile(
                            fixed_terrain(
                                position_of_index(width, i).x,
                                position_of_index(width, i).y,
                                width,
                                height,
                                seed,
                            ),
                        ),
                decreases width - x,
            {
                let noise = x.wrapping_mul(73_856_093) ^ y.wrapping_mul(19_349_663) ^ (seed as u32);
                let terrain = if x == 0 || y == 0 || x + 1 == width || y + 1 == height {
                    TerrainKind::Rock
                } else if x > 54 && 8 <= y && y < 56 {
                    TerrainKind::Water
                } else if noise % 31 == 0 {
                    TerrainKind::RoughSoil
                } else if x < 5 || y < 5 {
                    TerrainKind::Grass
                } else {
                    TerrainKind::Soil
                };
                proof {
                    lemma_row_major(width, height, TilePos { x, y });
                }
                tiles.push(Tile::new(terrain));
                x += 1;
            }
            assert(tiles@.len() == (y + 1) as int * width as int) by (nonlinear_arith)
                requires
                    tiles@.len() == (y as int) * (width as int) + (width as int),
            ;
            y += 1;
        }
        assert(tiles@.len() == (width as int) * (height as int)) by (nonlinear_arith)
            requires
                tiles@.len() == (height as int) * (width as int),
        ;
        let r = FarmGrid { width, height, tiles };
        assert forall|p: TilePos| #![trigger r.tile_at(p)] r.in_bounds(p) implies r.tile_at(p)
            == fresh_tile(fixed_terrain(p.x, p.y, width, height, seed)) by {
            lemma_row_major(width, height, p);
        }
        r
    }

    pub fn contains(&self, position: TilePos) -> (r: bool)
        ensures
            r == self.in_bounds(position),
    {
        position.x < self.width && position.y < self.height
    }

    /// Row-major index of an on-grid position.
    pub fn index(&self, position: TilePos) -> (r: Option<usize>)
        requires
            self.width as int * (self.height as int) <= u32::MAX,
        ensures
            r is Some <==> self.in_bounds(position),
            r matches Some(i) ==> i == row_major(self.width, position),
    {
        if self.contains(position) {
            proof {
                lemma_row_major(self.width, self.height, position);
            }
            Some((position.y * self.width + position.x) as usize)
        } else {
            None
        }
    }

    pub fn tile(&self, position: TilePos) -> (r: Option<&Tile>)
        requires
            self.width as int * (self.height as int) <= u32::MAX,
        ensures
            r matches Some(t) ==> self.tile_spec(position) == Some(*t),
            r is None ==> self.tile_spec(position) is None,
    {
        match self.index(position) {
            Some(index) => {
                if index < self.tiles.len() {
                    Some(&self.tiles[index])
                } else {
                    None
                }
            },
            None => None,
        }
    }

    /// Mutable access to the tile at `position`, if it is on the grid and stored.
    pub fn tile_mut(&mut self, position: TilePos) -> (r: Option<&mut Tile>)
        requires
            (old(self).width as int) * (old(self).height as int) <= u32::MAX,
        ensures
            r is Some <==> old(self).tile_spec(position) is Some,
            r matches Some(t) ==> {
                &&& old(self).tile_spec(position) == Some(*t)
                &&& final(self).tiles@ == old(self).tiles@.update(
                    row_major(old(self).width, position),
                    *final(t),
                )
                &&& final(self).width == old(self).width
                &&& final(self).height == old(self).height
            },
            r is None ==> *final(self) == *old(self),
    {
        match self.index(position) {
            Some(index) => {
                if index < self.tiles.len() {
                    Some(&mut self.tiles[index])
                } else {
                    None
                }
            },
            None => None,
        }
    }

    /// Position of a row-major index.
    pub fn index_position(&self, index: usize) -> (r: TilePos)
        requires
            self.width > 0,
            index < (self.width as int) * (self.height as int),
            self.width as int * (self.height as int) <= u32::MAX,
        ensures
            r == position_of_index(self.width, index as int),
            self.in_bounds(r),
            row_major(self.width, r) == index,
    {
        proof {
            lemma_index_position(self.width, self.height, index as int);
        }
        let i = index as u32;
        TilePos::new(i % self.width, i / self.width)
    }

    /// The on-grid positions of the rectangle at `origin` of the given size, row by row.
    pub fn positions_in_rect(&self, origin: TilePos, size: (u32, u32)) -> (r: Vec<TilePos>)
        ensures
            r@ == rect_rows(
                origin.x as int,
                clipped_end(origin.x, size.0, self.width),
                origin.y as int,
                clipped_end(origin.y, size.1, self.height),
            ),
    {
        let x_end = if origin.x.saturating_add(size.0) < self.width {
            origin.x.saturating_add(size.0)
        } else {
            self.width
        };
        let y_end = if origin.y.saturating_add(size.1) < self.height {
            origin.y.saturating_add(size.1)
        } else {
            self.height
        };
        let mut positions: Vec<TilePos> = Vec::new();
        let mut y = origin.y;
        while y < y_end
            invariant
                origin.y <= y,
                y <= y_end || y == origin.y,
                positions@ == rect_rows(origin.x as int, x_end as int, origin.y as int, y as int),
            decreases y_end - y,
        {
            let ghost before = positions@;
            let mut x = origin.x;
            while x < x_end
                invariant
                    origin.x <= x,
                    x <= x_end || x == origin.x,
                    y < y_end,
                    positions@ == before + Seq::new(
                        (x - origin.x) as nat,
                        |i: int| TilePos { x: (origin.x + i) as u32, y: y },
                    ),
                decreases x_end - x,
            {
                positions.push(TilePos::new(x, y));
                assert(positions@ =~= before + Seq::new(
                    (x + 1 - origin.x) as nat,
                    |i: int| TilePos { x: (origin.x + i) as u32, y: y },
                ));
                x += 1;
            }
            assert(positions@ =~= rect_rows(
                origin.x as int,
                x_end as int,
                origin.y as int,
                y + 1,
            ));
            y += 1;
        }
        positions
    }
}

} // verus!

verus! {

/// `p` lies in the rectangle at `origin` of the given size, clipped to the grid.
pub open spec fn in_clipped_rect(origin: TilePos, size: (u32, u32), width: u32, height: u32, p: TilePos) -> bool {
    &&& origin.x <= p.x
    &&& (p.x as int) < clipped_end(origin.x, size.0, width)
    &&& origin.y <= p.y
    &&& (p.y as int) < clipped_end(origin.y, size.1, height)
}

/// A tile with its occupation flag set to `value`.
pub open spec fn with_occupied(t: Tile, value: bool) -> Tile {
    Tile { occupied: value, ..t }
}

/// A tile that a building covers.
pub open spec fn with_building(t: Tile, id: EntityId) -> Tile {
    Tile { building: Some(id), occupied: true, ..t }
}

/// What painting a rectangle does to each of its cells.
#[derive(Debug, Clone, Copy, PartialEq, Eq)]
pub enum RectPaint {
    /// Set the occupation flag.
    Occupied(bool),
    /// Mark the cell as covered by the building with this id.
    Building(EntityId),
}

pub open spec fn painted(t: Tile, paint: RectPaint) -> Tile {
    match paint {
        RectPaint::Occupied(v) => with_occupied(t, v),
        RectPaint::Building(id) => with_building(t, id),
    }
}

impl FarmGrid {
    /// Paints every cell of the clipped rectangle.
    pub fn paint_rect(&mut self, origin: TilePos, size: (u32, u32), paint: RectPaint)
        requires
            old(self).wf(),
        ensures
            final(self).wf(),
            final(self).width == old(self).width,
            final(self).height == old(self).height,
            forall|i: int|
                0 <= i < final(self).tiles@.len() ==> #[trigger] final(self).tiles@[i] == if in_clipped_rect(
                    origin,
                    size,
                    old(self).width,
                    old(self).height,
                    position_of_index(old(self).width, i),
                ) {
                    painted(old(self).tiles@[i], paint)
                } else {
                    old(self).tiles@[i]
                },
    {
        let ghost before = self.tiles@;
        let w = self.width;
        let h = self.height;
        let x_end = if origin.x.saturating_add(size.0) < w {
            origin.x.saturating_add(size.0)
        } else {
            w
        };
        let y_end = if origin.y.saturating_add(size.1) < h {
            origin.y.saturating_add(size.1)
        } else {
            h
        };
        let mut y = origin.y;
        while y < y_end
            invariant
                self.wf(),
                self.width == w,
                self.height == h,
                before.len() == self.tiles@.len(),
                x_end as int == clipped_end(origin.x, size.0, w),
                y_end as int == clipped_end(origin.y, size.1, h),
                x_end <= w,
                y_end <= h,
                origin.y <= y,
                forall|i: int|
                    0 <= i < self.tiles@.len() ==> #[trigger] self.tiles@[i] == if in_clipped_rect(
                        origin,
                        size,
                        w,
                        h,
                        position_of_index(w, i),
                    ) && position_of_index(w, i).y < y {
                        painted(before[i], paint)
                    } else {
                        before[i]
                    },
            decreases y_end - y,
        {
            let mut x = origin.x;
            while x < x_end
                invariant
                    self.wf(),
                    self.width == w,
                    self.height == h,
                    before.len() == self.tiles@.len(),
                    x_end as int == clipped_end(origin.x, size.0, w),
                    y_end as int == clipped_end(origin.y, size.1, h),
                    x_end <= w,
                    y_end <= h,
                    origin.y <= y < y_end,
                    origin.x <= x,
                    forall|i: int|
                        0 <= i < self.tiles@.len() ==> #[trigger] self.tiles@[i] == if in_clipped_rect(
                            origin,
                            size,
                            w,
                            h,
                            position_of_index(w, i),
                        ) && (position_of_index(w, i).y < y || (position_of_index(w, i).y == y
                            && position_of_index(w, i).x < x)) {
                            painted(before[i], paint)
                        } else {
                            before[i]
                        },
                decreases x_end - x,
            {
                let p = TilePos::new(x, y);
                proof {
                    lemma_row_major(w, h, p);
                }
                let idx = (y * w + x) as usize;
                let mut t = self.tiles[idx].clone_shallow();
                match paint {
                    RectPaint::Occupied(v) => {
                        t.occupied = v;
                    },
                    RectPaint::Building(id) => {
                        t.building = Some(id);
                        t.occupied = true;
                    },
                }
                let ghost prev = self.tiles@;
                self.tiles.set(idx, t);
                proof {
                    assert forall|i: int| 0 <= i < self.tiles@.len() implies #[trigger] self.tiles@[i] == if in_clipped_rect(
                        origin,
                        size,
                        w,
                        h,
                        position_of_index(w, i),
                    ) && (position_of_index(w, i).y < y || (position_of_index(w, i).y == y
                        && position_of_index(w, i).x < x + 1)) {
                        painted(before[i], paint)
                    } else {
                        before[i]
                    } by {
                        lemma_index_position(w, h, i);
                        if i != idx {
                            assert(self.tiles@[i] == prev[i]);
                            if position_of_index(w, i) == p {
                                assert(row_major(w, position_of_index(w, i)) == idx);
                            }
                        } else {
                            assert(position_of_index(w, i) == p);
                        }
                    }
                }
                x += 1;
            }
            proof {
                assert forall|i: int| 0 <= i < self.tiles@.len() implies #[trigger] self.tiles@[i] == if in_clipped_rect(
                    origin,
                    size,
                    w,
                    h,
                    position_of_index(w, i),
                ) && position_of_index(w, i).y < y + 1 {
                    painted(before[i], paint)
                } else {
                    before[i]
                } by {
                    lemma_index_position(w, h, i);
                }
            }
            y += 1;
        }
        proof {
            assert forall|i: int| 0 <= i < self.tiles@.len() implies #[trigger] self.tiles@[i] == if in_clipped_rect(
                origin,
                size,
                w,
                h,
                position_of_index(w, i),
            ) {
                painted(before[i], paint)
            } else {
                before[i]
            } by {
                lemma_index_position(w, h, i);
            }
        }
    }
}

impl Tile {
    /// A copy of the tile, carrying the same crop.
    pub fn clone_shallow(&self) -> (r: Tile)
        ensures
            r == *self,
    {
        Tile {
            terrain: self.terrain,
            moisture: self.moisture,
            fertility: self.fertility,
            crop: match &self.crop {
                Some(c) => Some(c.copy()),
                None => None,
            },
            building: self.building,
            occupied: self.occupied,
            tilled: self.tilled,
            plowed: self.plowed,
            water_level: self.water_level,
        }
    }
}

impl CropInstance {
    /// A copy of the crop.
    pub fn copy(&self) -> (r: CropInstance)
        ensures
            r == *self,
    {
        CropInstance {
            crop_id: self.crop_id.clone(),
            planted_at: self.planted_at,
            stage_index: self.stage_index,
            stage_progress: self.stage_progress,
            moisture: self.moisture,
            health: self.health,
            pollinated: self.pollinated,
            inspection_due: self.inspection_due,
            pest_pressure: self.pest_pressure,
            pest_controlled: self.pest_controlled,
            weed_pressure: self.weed_pressure,
            soil_compaction: self.soil_compaction,
            remaining_harvests: self.remaining_harvests,
        }
    }
}

} // verus!
