use vstd::prelude::*;

use crate::grid::{fresh_tile, lemma_row_major, position_of_index, FarmGrid, Tile};
use crate::model::{FacilityKind, TerrainKind, TilePos};

verus! {

/// A rectangle of the map painted with one terrain.
#[derive(Debug, Clone, Copy, PartialEq, Eq)]
pub struct TerrainRegionDef {
    pub terrain: TerrainKind,
    pub origin: TilePos,
    pub size: (u32, u32),
}

/// A facility that a map places at the start.
#[derive(Debug, Clone, Copy, PartialEq, Eq)]
pub struct MapFacilityDef {
    pub kind: FacilityKind,
    pub position: TilePos,
}

/// A field zone that a map lays out at the start.
#[derive(Debug, PartialEq, Eq)]
pub struct MapZoneDef {
    pub name: String,
    pub origin: TilePos,
    pub size: (u32, u32),
    pub crop_id: String,
    pub priority: u8,
}

impl Clone for MapZoneDef {
    fn clone(&self) -> (r: Self)
        ensures
            r == *self,
    {
        MapZoneDef {
            name: self.name.clone(),
            origin: self.origin,
            size: self.size,
            crop_id: self.crop_id.clone(),
            priority: self.priority,
        }
    }
}

/// A blocked rectangle, optionally belonging to the footprint of a facility kind.
#[derive(Debug, Clone, Copy, PartialEq, Eq)]
pub struct CollisionAreaDef {
    pub origin: TilePos,
    pub size: (u32, u32),
    pub owner: Option<FacilityKind>,
}

/// A logical map: terrain, garage layout and the starting scenario.
#[derive(Debug, Clone, PartialEq, Eq)]
pub struct MapDefinition {
    pub id: String,
    pub display_name: String,
    pub width: u32,
    pub height: u32,
    pub tile_size: u32,
    pub background_asset: String,
    pub terrain_tileset_asset: String,
    pub default_terrain: TerrainKind,
    pub terrain_regions: Vec<TerrainRegionDef>,
    pub collision_areas: Vec<CollisionAreaDef>,
    pub garage_exit: TilePos,
    pub garage_bays: Vec<TilePos>,
    pub starter_facilities: Vec<MapFacilityDef>,
    pub starter_zones: Vec<MapZoneDef>,
    pub starter_robots: Vec<String>,
}

/// A region covers a position when the position lies in its rectangle.
pub open spec fn region_covers(region: TerrainRegionDef, p: TilePos) -> bool {
    &&& region.origin.x <= p.x
    &&& (p.x as int) < region.origin.x as int + region.size.0 as int
    &&& region.origin.y <= p.y
    &&& (p.y as int) < region.origin.y as int + region.size.1 as int
}

/// The terrain at `p` after painting the regions in order over the default terrain:
/// the last region that covers `p` wins.
pub open spec fn painted_terrain(
    regions: Seq<TerrainRegionDef>,
    default_terrain: TerrainKind,
    p: TilePos,
) -> TerrainKind
    decreases regions.len(),
{
    if regions.len() == 0 {
        default_terrain
    } else if region_covers(regions.last(), p) {
        regions.last().terrain
    } else {
        painted_terrain(regions.drop_last(), default_terrain, p)
    }
}

impl MapDefinition {
    /// An empty placeholder map, used where a map is not known yet.
    pub fn empty() -> (r: Self)
        ensures
            r.width == 0,
            r.height == 0,
            r.terrain_regions@.len() == 0,
            r.garage_bays@.len() == 0,
            r.starter_facilities@.len() == 0,
            r.starter_zones@.len() == 0,
            r.starter_robots@.len() == 0,
            r.collision_areas@.len() == 0,
    {
        MapDefinition {
            id: String::new(),
            display_name: String::new(),
            width: 0,
            height: 0,
            tile_size: 0,
            background_asset: String::new(),
            terrain_tileset_asset: String::new(),
            default_terrain: TerrainKind::Grass,
            terrain_regions: Vec::new(),
            collision_areas: Vec::new(),
            garage_exit: TilePos { x: 0, y: 0 },
            garage_bays: Vec::new(),
            starter_facilities: Vec::new(),
            starter_zones: Vec::new(),
            starter_robots: Vec::new(),
        }
    }
}

fn terrain_at(map: &MapDefinition, p: TilePos) -> (r: TerrainKind)
    ensures
        r == painted_terrain(map.terrain_regions@, map.default_terrain, p),
{
    let mut terrain = map.default_terrain;
    let n = map.terrain_regions.len();
    let mut k: usize = 0;
    while k < n
        invariant
            n == map.terrain_regions@.len(),
            k <= n,
            terrain == painted_terrain(map.terrain_regions@.take(k as int), map.default_terrain, p),
        decreases n - k,
    {
        let region = map.terrain_regions[k];
        proof {
            assert(map.terrain_regions@.take(k + 1).drop_last() =~= map.terrain_regions@.take(
                k as int,
            ));
        }
        let covers = region.origin.x <= p.x && (p.x as u64) < region.origin.x as u64
            + region.size.0 as u64 && region.origin.y <= p.y && (p.y as u64) < region.origin.y as u64
            + region.size.1 as u64;
        if covers {
            terrain = region.terrain;
        }
        k += 1;
    }
    assert(map.terrain_regions@.take(n as int) =~= map.terrain_regions@);
    terrain
}

impl FarmGrid {
    /// The grid of a map: the default terrain painted over by the terrain regions, in order.
    pub fn from_definition(map: &MapDefinition) -> (r: Self)
        requires
            (map.width as int) * (map.height as int) <= u32::MAX,
        ensures
            r.wf(),
            r.width == map.width,
            r.height == map.height,
            forall|p: TilePos|
                #![trigger r.tile_at(p)]
                r.in_bounds(p) ==> r.tile_at(p) == fresh_tile(
                    painted_terrain(map.terrain_regions@, map.default_terrain, p),
                ),
    {
        let width = map.width;
        let height = map.height;
        let mut tiles: Vec<Tile> = Vec::new();
        let mut y: u32 = 0;
        while y < height
            invariant
                width == map.width,
                height == map.height,
                (width as int) * (height as int) <= u32::MAX,
                y <= height,
                tiles@.len() == (y as int) * (width as int),
                forall|i: int|
                    0 <= i < tiles@.len() ==> #[trigger] tiles@[i] == fresh_tile(
                        painted_terrain(
                            map.terrain_regions@,
                            map.default_terrain,
                            position_of_index(width, i),
                        ),
                    ),
            decreases height - y,
        {
            let mut x: u32 = 0;
            while x < width
                invariant
                    width == map.width,
                    height == map.height,
                    (width as int) * (height as int) <= u32::MAX,
                    y < height,
                    x <= width,
                    tiles@.len() == (y as int) * (width as int) + (x as int),
                    forall|i: int|
                        0 <= i < tiles@.len() ==> #[trigger] tiles@[i] == fresh_tile(
                            painted_terrain(
                                map.terrain_regions@,
                                map.default_terrain,
                                position_of_index(width, i),
                            ),
                        ),
                decreases width - x,
            {
                let p = TilePos::new(x, y);
                let terrain = terrain_at(map, p);
                proof {
                    lemma_row_major(width, height, p);
                }
                tiles.push(Tile::new(terrain));
                x += 1;
            }
            assert(tiles@.len() == (y + 1) as int * width as int) by (nonlinear_arith)
                requires
                    tiles@.len() == (y as int) * (width as int) + (width as int),
            ;
            y += 1;
        }
        assert(tiles@.len() == (width as int) * (height as int)) by (nonlinear_arith)
            requires
                tiles@.len() == (height as int) * (width as int),
        ;
        let r = FarmGrid { width, height, tiles };
        assert forall|p: TilePos| #![trigger r.tile_at(p)] r.in_bounds(p) implies r.tile_at(p)
            == fresh_tile(painted_terrain(map.terrain_regions@, map.default_terrain, p)) by {
            lemma_row_major(width, height, p);
        }
        r
    }
}

} // verus!
