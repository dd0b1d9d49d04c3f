use vstd::prelude::*;

verus! {

/// Identifier of a robot or facility.
pub type EntityId = u64;

/// Identifier of a job.
pub type JobId = u64;

/// Identifier of a field zone.
pub type ZoneId = u64;

/// A cell of the farm grid, addressed by column `x` and row `y`.
#[derive(Debug, Clone, Copy, PartialEq, Eq, Structural, PartialOrd, Ord, Hash)]
pub struct TilePos {
    pub x: u32,
    pub y: u32,
}

/// Distance between two integers.
pub open spec fn abs_diff(a: int, b: int) -> int {
    if a >= b {
        a - b
    } else {
        b - a
    }
}

/// Manhattan distance between two positions.
pub open spec fn manhattan_distance(a: TilePos, b: TilePos) -> int {
    abs_diff(a.x as int, b.x as int) + abs_diff(a.y as int, b.y as int)
}

/// One unit step from `from` toward `target`: horizontal first, then vertical.
pub open spec fn step_toward_spec(from: TilePos, target: TilePos) -> TilePos {
    if from.x < target.x {
        TilePos { x: (from.x + 1) as u32, y: from.y }
    } else if from.x > target.x {
        TilePos { x: (from.x - 1) as u32, y: from.y }
    } else if from.y < target.y {
        TilePos { x: from.x, y: (from.y + 1) as u32 }
    } else if from.y > target.y {
        TilePos { x: from.x, y: (from.y - 1) as u32 }
    } else {
        from
    }
}

impl TilePos {
    pub fn new(x: u32, y: u32) -> (r: Self)
        ensures
            r.x == x,
            r.y == y,
    {
        TilePos { x, y }
    }

    /// Manhattan distance; the sum of both axis distances must fit in a `u32`.
    pub fn manhattan(self, other: Self) -> (r: u32)
        requires
            manhattan_distance(self, other) <= u32::MAX,
        ensures
            r == manhattan_distance(self, other),
    {
        let dx = if self.x >= other.x {
            self.x - other.x
        } else {
            other.x - self.x
        };
        let dy = if self.y >= other.y {
            self.y - other.y
        } else {
            other.y - self.y
        };
        dx + dy
    }

    pub fn step_toward(self, target: Self) -> (r: Self)
        ensures
            r == step_toward_spec(self, target),
    {
        if self.x < target.x {
            TilePos::new(self.x + 1, self.y)
        } else if self.x > target.x {
            TilePos::new(self.x - 1, self.y)
        } else if self.y < target.y {
            TilePos::new(self.x, self.y + 1)
        } else if self.y > target.y {
            TilePos::new(self.x, self.y - 1)
        } else {
            self
        }
    }
}

/// Manhattan distance does not depend on the order of its arguments.
pub proof fn manhattan_is_symmetric(a: TilePos, b: TilePos)
    ensures
        manhattan_distance(a, b) == manhattan_distance(b, a),
{
}

/// A step toward a different target brings the position exactly one tile closer,
/// and a step toward the position itself stays in place.
pub proof fn step_toward_closes_distance(from: TilePos, target: TilePos)
    ensures
        from != target ==> manhattan_distance(step_toward_spec(from, target), target)
            == manhattan_distance(from, target) - 1,
        from == target ==> step_toward_spec(from, target) == from,
        manhattan_distance(from, step_toward_spec(from, target)) == if from == target {
            0int
        } else {
            1int
        },
{
}

/// Ground material of a tile.
#[derive(Debug, Clone, Copy, PartialEq, Eq, Structural, Hash)]
pub enum TerrainKind {
    Soil,
    RoughSoil,
    Grass,
    Water,
    Rock,
    Concrete,
    FarmPath,
    IrrigationChannel,
    Culvert,
    PaddyBund,
}

impl TerrainKind {
    pub open spec fn is_farmable(self) -> bool {
        self is Soil || self is RoughSoil || self is Grass
    }

    /// Whether a field zone may be laid out on this terrain.
    pub fn farmable(self) -> (r: bool)
        ensures
            r == self.is_farmable(),
    {
        match self {
            TerrainKind::Soil | TerrainKind::RoughSoil | TerrainKind::Grass => true,
            _ => false,
        }
    }
}

/// A kind of work a robot can perform.
#[derive(Debug, Clone, Copy, PartialEq, Eq, Structural, PartialOrd, Ord, Hash)]
pub enum Capability {
    Till,
    Seed,
    Plant,
    Water,
    Pollinate,
    Inspect,
    Harvest,
    PrecisionHarvest,
    Dig,
    Haul,
    Repair,
    Pack,
    Spray,
    Plow,
    Flood,
    Transplant,
    Weed,
    LoosenSoil,
    LaserPestControl,
}

/// Locomotion of a robot.
#[derive(Debug, Clone, Copy, PartialEq, Eq, Structural, Hash)]
pub enum RobotBody {
    Wheeled,
    Flying,
    Biped,
    Quadruped,
    Hexapod,
}

/// Work that the scheduler hands out to robots.
#[derive(Debug, Clone, Copy, PartialEq, Eq, Structural, PartialOrd, Ord, Hash)]
pub enum JobKind {
    Till,
    Seed,
    Plant,
    Water,
    Pollinate,
    Inspect,
    Harvest,
    PrecisionHarvest,
    Dig,
    Haul,
    Repair,
    Recharge,
    Pack,
    Plow,
    FloodPaddy,
    Transplant,
    Weed,
    LoosenSoil,
    PestControl,
    SprayPests,
    LaserPests,
}

/// The capability a robot needs for a job kind.
pub open spec fn capability_for(kind: JobKind) -> Capability {
    match kind {
        JobKind::Till => Capability::Till,
        JobKind::Seed => Capability::Seed,
        JobKind::Plant => Capability::Plant,
        JobKind::Water => Capability::Water,
        JobKind::Pollinate => Capability::Pollinate,
        JobKind::Inspect => Capability::Inspect,
        JobKind::Harvest => Capability::Harvest,
        JobKind::PrecisionHarvest => Capability::PrecisionHarvest,
        JobKind::Dig => Capability::Dig,
        JobKind::Haul => Capability::Haul,
        JobKind::Repair => Capability::Repair,
        JobKind::Recharge => Capability::Repair,
        JobKind::Pack => Capability::Pack,
        JobKind::Plow => Capability::Plow,
        JobKind::FloodPaddy => Capability::Flood,
        JobKind::Transplant => Capability::Transplant,
        JobKind::Weed => Capability::Weed,
        JobKind::LoosenSoil => Capability::LoosenSoil,
        JobKind::PestControl => Capability::Spray,
        JobKind::SprayPests => Capability::Spray,
        JobKind::LaserPests => Capability::LaserPestControl,
    }
}

/// Minutes a robot spends deploying its tool before a job.
pub open spec fn preparation_minutes_for(kind: JobKind) -> u8 {
    match kind {
        JobKind::Plow | JobKind::Till => 4,
        JobKind::FloodPaddy => 2,
        JobKind::Seed | JobKind::Plant | JobKind::Transplant => 2,
        JobKind::Harvest | JobKind::PrecisionHarvest | JobKind::Dig => 3,
        JobKind::Weed | JobKind::LoosenSoil => 2,
        JobKind::PestControl | JobKind::SprayPests | JobKind::LaserPests => 2,
        _ => 1,
    }
}

/// Minutes a robot spends stowing its tool after a job.
pub open spec fn finishing_minutes_for(kind: JobKind) -> u8 {
    match kind {
        JobKind::Plow | JobKind::Till => 3,
        JobKind::Harvest | JobKind::PrecisionHarvest | JobKind::Dig => 2,
        JobKind::Seed | JobKind::Plant | JobKind::Transplant => 2,
        _ => 1,
    }
}

impl JobKind {
    pub fn required_capability(self) -> (r: Capability)
        ensures
            r == capability_for(self),
    {
        match self {
            JobKind::Till => Capability::Till,
            JobKind::Seed => Capability::Seed,
            JobKind::Plant => Capability::Plant,
            JobKind::Water => Capability::Water,
            JobKind::Pollinate => Capability::Pollinate,
            JobKind::Inspect => Capability::Inspect,
            JobKind::Harvest => Capability::Harvest,
            JobKind::PrecisionHarvest => Capability::PrecisionHarvest,
            JobKind::Dig => Capability::Dig,
            JobKind::Haul => Capability::Haul,
            JobKind::Repair => Capability::Repair,
            JobKind::Recharge => Capability::Repair,
            JobKind::Pack => Capability::Pack,
            JobKind::Plow => Capability::Plow,
            JobKind::FloodPaddy => Capability::Flood,
            JobKind::Transplant => Capability::Transplant,
            JobKind::Weed => Capability::Weed,
            JobKind::LoosenSoil => Capability::LoosenSoil,
            JobKind::PestControl => Capability::Spray,
            JobKind::SprayPests => Capability::Spray,
            JobKind::LaserPests => Capability::LaserPestControl,
        }
    }

    pub fn preparation_minutes(self) -> (r: u8)
        ensures
            r == preparation_minutes_for(self),
            r >= 1,
    {
        match self {
            JobKind::Plow | JobKind::Till => 4,
            JobKind::FloodPaddy => 2,
            JobKind::Seed | JobKind::Plant | JobKind::Transplant => 2,
            JobKind::Harvest | JobKind::PrecisionHarvest | JobKind::Dig => 3,
            JobKind::Weed | JobKind::LoosenSoil => 2,
            JobKind::PestControl | JobKind::SprayPests | JobKind::LaserPests => 2,
            _ => 1,
        }
    }

    pub fn finishing_minutes(self) -> (r: u8)
        ensures
            r == finishing_minutes_for(self),
            r >= 1,
    {
        match self {
            JobKind::Plow | JobKind::Till => 3,
            JobKind::Harvest | JobKind::PrecisionHarvest | JobKind::Dig => 2,
            JobKind::Seed | JobKind::Plant | JobKind::Transplant => 2,
            _ => 1,
        }
    }
}

/// Work group shared by job kinds whose effects cover a 3x3 operating patch;
/// group 0 means the job acts on its own tile only.
pub open spec fn work_group_of(kind: JobKind) -> u8 {
    match kind {
        JobKind::Plow => 1,
        JobKind::Till => 2,
        JobKind::FloodPaddy => 3,
        JobKind::Seed | JobKind::Plant | JobKind::Transplant => 4,
        JobKind::Water => 5,
        JobKind::Pollinate => 6,
        JobKind::Inspect => 7,
        JobKind::Weed => 8,
        JobKind::LoosenSoil => 9,
        JobKind::PestControl | JobKind::SprayPests | JobKind::LaserPests => 10,
        JobKind::Harvest | JobKind::PrecisionHarvest | JobKind::Dig => 11,
        _ => 0,
    }
}

pub fn work_group(kind: JobKind) -> (r: u8)
    ensures
        r == work_group_of(kind),
{
    match kind {
        JobKind::Plow => 1,
        JobKind::Till => 2,
        JobKind::FloodPaddy => 3,
        JobKind::Seed | JobKind::Plant | JobKind::Transplant => 4,
        JobKind::Water => 5,
        JobKind::Pollinate => 6,
        JobKind::Inspect => 7,
        JobKind::Weed => 8,
        JobKind::LoosenSoil => 9,
        JobKind::PestControl | JobKind::SprayPests | JobKind::LaserPests => 10,
        JobKind::Harvest | JobKind::PrecisionHarvest | JobKind::Dig => 11,
        _ => 0,
    }
}

/// Two queued jobs cover the same work: identical kind and tile, or kinds of the
/// same patch group at most two tiles apart.
pub open spec fn share_work_patch(
    first_kind: JobKind,
    first_position: TilePos,
    second_kind: JobKind,
    second_position: TilePos,
) -> bool {
    (first_kind == second_kind && first_position == second_position) || (work_group_of(first_kind)
        != 0 && work_group_of(first_kind) == work_group_of(second_kind) && manhattan_distance(
        first_position,
        second_position,
    ) <= 2)
}

pub fn jobs_share_work_patch(
    first_kind: JobKind,
    first_position: TilePos,
    second_kind: JobKind,
    second_position: TilePos,
) -> (r: bool)
    ensures
        r == share_work_patch(first_kind, first_position, second_kind, second_position),
{
    if first_kind == second_kind && first_position == second_position {
        return true;
    }
    let first_group = work_group(first_kind);
    if first_group == 0 || first_group != work_group(second_kind) {
        return false;
    }
    let dx = if first_position.x >= second_position.x {
        first_position.x - second_position.x
    } else {
        second_position.x - first_position.x
    };
    let dy = if first_position.y >= second_position.y {
        first_position.y - second_position.y
    } else {
        second_position.y - first_position.y
    };
    dx <= 2 && dy <= 2 - dx
}

/// Sharing a work patch is symmetric.
pub proof fn share_work_patch_is_symmetric(
    first_kind: JobKind,
    first_position: TilePos,
    second_kind: JobKind,
    second_position: TilePos,
)
    ensures
        share_work_patch(first_kind, first_position, second_kind, second_position)
            == share_work_patch(second_kind, second_position, first_kind, first_position),
{
}

/// Life cycle of a job.
#[derive(Debug, Clone, Copy, PartialEq, Eq, Structural)]
pub enum JobStatus {
    Pending,
    Assigned,
    Completed,
    Cancelled,
}

/// Buildable facility kinds.
#[derive(Debug, Clone, Copy, PartialEq, Eq, Structural, PartialOrd, Ord, Hash)]
pub enum FacilityKind {
    Warehouse,
    SeedStorage,
    ChargingStation,
    WaterPump,
    IrrigationNode,
    Packer,
    ShippingDock,
    SolarGenerator,
    Battery,
    RobotGarage,
}

/// Purchase price of a facility kind.
pub open spec fn facility_price(kind: FacilityKind) -> i32 {
    match kind {
        FacilityKind::Warehouse => 800,
        FacilityKind::SeedStorage => 300,
        FacilityKind::ChargingStation => 650,
        FacilityKind::WaterPump => 500,
        FacilityKind::IrrigationNode => 450,
        FacilityKind::Packer => 900,
        FacilityKind::ShippingDock => 1000,
        FacilityKind::SolarGenerator => 700,
        FacilityKind::Battery => 550,
        FacilityKind::RobotGarage => 1200,
    }
}

impl FacilityKind {
    pub fn price(self) -> (r: i32)
        ensures
            r == facility_price(self),
            r > 0,
    {
        match self {
            FacilityKind::Warehouse => 800,
            FacilityKind::SeedStorage => 300,
            FacilityKind::ChargingStation => 650,
            FacilityKind::WaterPump => 500,
            FacilityKind::IrrigationNode => 450,
            FacilityKind::Packer => 900,
            FacilityKind::ShippingDock => 1000,
            FacilityKind::SolarGenerator => 700,
            FacilityKind::Battery => 550,
            FacilityKind::RobotGarage => 1200,
        }
    }
}

/// Weather of the current day.
#[derive(Debug, Clone, Copy, PartialEq, Eq, Structural)]
pub enum Weather {
    Clear,
    Rain,
    Hot,
}

/// Season of the farm calendar.
#[derive(Debug, Clone, Copy, PartialEq, Eq, Structural)]
pub enum Season {
    Spring,
    Summer,
    Autumn,
    Winter,
}

/// Progress of a delivery contract.
#[derive(Debug, Clone, Copy, PartialEq, Eq, Structural)]
pub enum ContractStatus {
    Locked,
    Active,
    Completed,
    Failed,
}

/// What a robot is doing; job-bound states carry the job's id.
#[derive(Debug, Clone, Copy, PartialEq, Eq, Structural)]
pub enum RobotState {
    Idle,
    Parked,
    Departing(JobId),
    MovingToJob(JobId),
    Preparing(JobId),
    Working(JobId),
    Finishing(JobId),
    MovingToCharge,
    Charging,
    MovingToStorage,
    ReturningToGarage,
    Broken,
}

} // verus!
