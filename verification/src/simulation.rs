use vstd::prelude::*;
use vstd::string::*;

use crate::clock::SimClock;
use crate::command::{
    permitted, default_npc_command_names, CommandActor, CommandEnvelope, CommandError,
    CommandPermissions, EditorCommand, FarmCommand, GameCommand,
};
use crate::content::{ContentCatalog, ContentError, CropDef};
use crate::farm::{
    ActiveContract, AutonomyTrial, Facility, FarmEvent, FieldZone, GameMetrics, Job,
    NpcAssignment, Robot,
};
use crate::grid::FarmGrid;
use crate::inventory::Inventory;
use crate::map::MapDefinition;
use crate::model::{facility_price, FacilityKind, TilePos, Weather};
use crate::text::{decimal, text_with_number, text_with_text};
use crate::textmap::TextMap;

verus! {

/// Version of the save format.
pub const SAVE_VERSION: u32 = 6;

/// How many events the log keeps.
pub const MAX_EVENTS: usize = 80;

/// Why a simulation could not be built or restored.
#[derive(Debug, Clone, PartialEq, Eq)]
pub enum SimulationError {
    Content(ContentError),
    MapLoad(String),
    Serialization(String),
    UnsupportedSaveVersion { found: u32, expected: u32 },
}

/// What a refused command is answered with, as plain values.
pub enum Refusal {
    Stale { expected: u64, current: u64 },
    Denied,
    Invalid(Seq<char>),
    Credits { required: i32, available: i32 },
    Missing(Seq<char>),
}

pub open spec fn refusal_of(e: CommandError) -> Refusal {
    match e {
        CommandError::StaleRevision { expected, current } => Refusal::Stale { expected, current },
        CommandError::PermissionDenied => Refusal::Denied,
        CommandError::Invalid(m) => Refusal::Invalid(m@),
        CommandError::InsufficientCredits { required, available } => Refusal::Credits {
            required,
            available,
        },
        CommandError::NotFound(m) => Refusal::Missing(m@),
    }
}

/// The deterministic farm: terrain, crops, zones, jobs, contracts and the
/// bookkeeping of commands.
#[derive(Debug, Clone)]
pub struct GameSimulation {
    pub version: u32,
    pub seed: u64,
    pub catalog: ContentCatalog,
    pub map_id: String,
    pub map: MapDefinition,
    pub grid: FarmGrid,
    pub clock: SimClock,
    pub weather: Weather,
    pub credits: i32,
    pub reputation: u32,
    pub inventory: Inventory,
    pub robots: Vec<Robot>,
    pub facilities: Vec<Facility>,
    pub zones: Vec<FieldZone>,
    pub jobs: Vec<Job>,
    pub contracts: Vec<ActiveContract>,
    pub current_contract: Option<usize>,
    pub npc_assignments: TextMap<NpcAssignment>,
    pub metrics: GameMetrics,
    pub autonomy_trial: Option<AutonomyTrial>,
    pub events: Vec<FarmEvent>,
    pub world_revision: u64,
    pub next_entity_id: u64,
    pub next_job_id: u64,
    pub next_zone_id: u64,
    pub next_command_id: u64,
}

/// The last `limit` elements of a sequence (all of it when it is shorter).
pub open spec fn keep_last<T>(s: Seq<T>, limit: int) -> Seq<T> {
    if s.len() > limit {
        s.subrange(s.len() - limit, s.len() as int)
    } else {
        s
    }
}

impl GameSimulation {
    /// The maps of the catalog and the NPC table are sorted, the grid is consistent.
    pub open spec fn wf(self) -> bool {
        &&& self.catalog.crops.wf()
        &&& self.catalog.robots.wf()
        &&& self.npc_assignments.wf()
        &&& self.grid.wf()
        &&& self.inventory.wf()
        &&& self.inventory.total() <= self.inventory.capacity
        &&& forall|i: int| 0 <= i < self.contracts@.len() ==> (#[trigger] self.contracts@[i]).delivered.wf()
        &&& forall|i: int|
            0 <= i < self.robots@.len() ==> (#[trigger] self.robots@[i]).inventory.wf()
                && self.robots@[i].inventory.total() <= self.robots@[i].inventory.capacity
        &&& forall|i: int|
            0 <= i < self.npc_assignments.entries@.len() ==> crate::farm::strictly_increasing(
                (#[trigger] self.npc_assignments.entries@[i]).1.managed_zones@,
            )
    }

    pub open spec fn zone_exists(self, zone_id: u64) -> bool {
        exists|i: int| 0 <= i < self.zones@.len() && #[trigger] self.zones@[i].id == zone_id
    }

    pub open spec fn robot_exists(self, robot_id: u64) -> bool {
        exists|i: int| 0 <= i < self.robots@.len() && #[trigger] self.robots@[i].id == robot_id
    }

    pub open spec fn facility_exists(self, id: u64) -> bool {
        exists|i: int| 0 <= i < self.facilities@.len() && #[trigger] self.facilities@[i].id == id
    }

    pub open spec fn contract_exists(self, id: Seq<char>) -> bool {
        exists|i: int|
            0 <= i < self.contracts@.len() && #[trigger] self.contracts@[i].definition.id@ == id
    }

    pub open spec fn crop_known(self, crop_id: Seq<char>) -> bool {
        self.catalog.crops.to_map().contains_key(crop_id)
    }

    pub open spec fn robot_def_known(self, robot_def_id: Seq<char>) -> bool {
        self.catalog.robots.to_map().contains_key(robot_def_id)
    }

    /// A garage bay that no robot calls home.
    pub open spec fn bay_is_free(self, bay: TilePos) -> bool {
        forall|r: int| 0 <= r < self.robots@.len() ==> #[trigger] self.robots@[r].home_position != bay
    }

    pub open spec fn free_bay_exists(self) -> bool {
        exists|b: int| 0 <= b < self.map.garage_bays@.len() && self.bay_is_free(#[trigger] self.map.garage_bays@[b])
    }

    /// Every cell of the rectangle lies on the grid, is farmable and carries no building.
    pub open spec fn zone_rect_ok(self, origin: TilePos, size: (u32, u32)) -> bool {
        &&& origin.x as int + size.0 as int <= self.grid.width
        &&& origin.y as int + size.1 as int <= self.grid.height
        &&& forall|i: int, j: int|
            0 <= i < size.0 && 0 <= j < size.1 ==> {
                let t = #[trigger] self.grid.tile_at(TilePos { x: (origin.x + i) as u32, y: (origin.y + j) as u32 });
                t.terrain.is_farmable() && t.building is None
            }
    }

    /// Why a new field zone cannot be laid out, if it cannot.
    pub open spec fn new_zone_refusal(self, origin: TilePos, size: (u32, u32), crop_id: Seq<char>) -> Option<Refusal> {
        if !self.crop_known(crop_id) {
            Some(Refusal::Missing("crop "@ + crop_id))
        } else if size.0 == 0 || size.1 == 0 || size.0 > 16 || size.1 > 16 {
            Some(Refusal::Invalid("field size must be between 1x1 and 16x16"@))
        } else if !self.zone_rect_ok(origin, size) {
            Some(Refusal::Invalid("field rectangle includes blocked or out-of-bounds tiles"@))
        } else {
            None
        }
    }

    /// Why a facility cannot be placed at `position`, if it cannot.
    pub open spec fn facility_position_refusal(self, position: TilePos) -> Option<Refusal> {
        if !self.grid.in_bounds(position) {
            Some(Refusal::Invalid("facility position is outside the map"@))
        } else {
            let t = self.grid.tile_at(position);
            if t.occupied || t.building is Some || t.terrain is Water || t.terrain is Rock
                || t.terrain is IrrigationChannel {
                Some(Refusal::Invalid("facility position is blocked"@))
            } else {
                None
            }
        }
    }

    pub open spec fn credits_refusal(self, amount: i32) -> Option<Refusal> {
        if self.credits >= amount {
            None
        } else {
            Some(Refusal::Credits { required: amount, available: self.credits })
        }
    }

    /// Why a farm command is refused by the rules of the world, if it is.
    pub open spec fn farm_refusal(self, command: FarmCommand) -> Option<Refusal> {
        match command {
            FarmCommand::CreateFieldZone { origin, size, crop_id } => self.new_zone_refusal(
                origin,
                size,
                crop_id@,
            ),
            FarmCommand::SetZoneCrop { zone_id, crop_id } => if !self.zone_exists(zone_id) {
                Some(Refusal::Missing("zone "@ + decimal(zone_id as nat)))
            } else if !self.crop_known(crop_id@) {
                Some(Refusal::Missing("crop "@ + crop_id@))
            } else {
                None
            },
            FarmCommand::SetZonePriority { zone_id, priority } => if !self.zone_exists(zone_id) {
                Some(Refusal::Missing("zone "@ + decimal(zone_id as nat)))
            } else if priority > 100 {
                Some(Refusal::Invalid("zone priority must be between 0 and 100"@))
            } else {
                None
            },
            FarmCommand::AssignNpc { npc_id, zone_id } => if !self.zone_exists(zone_id) {
                Some(Refusal::Missing("zone "@ + decimal(zone_id as nat)))
            } else if !self.npc_assignments.to_map().contains_key(npc_id@) {
                Some(Refusal::Missing("NPC "@ + npc_id@))
            } else {
                None
            },
            FarmCommand::PurchaseRobot { robot_def_id } => if !self.robot_def_known(robot_def_id@) {
                Some(Refusal::Missing("robot definition "@ + robot_def_id@))
            } else if !self.free_bay_exists() {
                Some(Refusal::Invalid("robot garage has no free parking bay"@))
            } else {
                self.credits_refusal(self.catalog.robots.to_map()[robot_def_id@].purchase_price)
            },
            FarmCommand::SetRobotPolicy { robot_id, reserve_battery_percent } => if !self.robot_exists(robot_id) {
                Some(Refusal::Missing("robot "@ + decimal(robot_id as nat)))
            } else if reserve_battery_percent > 90 {
                Some(Refusal::Invalid("battery reserve cannot exceed 90%"@))
            } else {
                None
            },
            FarmCommand::BuildFacility { kind, position } => if self.facility_position_refusal(position) is Some {
                self.facility_position_refusal(position)
            } else {
                self.credits_refusal(facility_price(kind))
            },
            FarmCommand::ChangeContractPriority { priority } => if self.current_contract is None || priority > 100 {
                Some(Refusal::Invalid("active contract and priority 0..100 required"@))
            } else {
                None
            },
            FarmCommand::StartAutonomyTrial { duration_minutes } => if duration_minutes == 0 {
                Some(Refusal::Invalid("trial duration must be positive"@))
            } else if self.autonomy_trial matches Some(t) && !t.finished {
                Some(Refusal::Invalid("an autonomy trial is already running"@))
            } else {
                None
            },
        }
    }

    /// Why an editor command is refused by the rules of the world, if it is.
    pub open spec fn editor_refusal(self, command: EditorCommand) -> Option<Refusal> {
        match command {
            EditorCommand::PlaceBuilding { position, .. } => self.facility_position_refusal(position),
            EditorCommand::DeleteEntity { entity_id } => if self.facility_exists(entity_id)
                || self.robot_exists(entity_id) || self.zone_exists(entity_id) {
                None
            } else {
                Some(Refusal::Missing("entity "@ + decimal(entity_id as nat)))
            },
            EditorCommand::CreateFieldZone { origin, size, crop_id } => self.new_zone_refusal(
                origin,
                size,
                crop_id@,
            ),
            EditorCommand::SpawnRobot { robot_def_id, count, position } => if !self.robot_def_known(robot_def_id@) {
                Some(Refusal::Missing("robot definition "@ + robot_def_id@))
            } else if count == 0 || !self.grid.in_bounds(position) {
                Some(Refusal::Invalid("robot count and spawn position are invalid"@))
            } else {
                None
            },
            EditorCommand::PatchCropDefinition { definition } => if is_blank(definition.id@) || definition.stages@.len() < 2 {
                Some(Refusal::Invalid("crop definition needs an id and at least two stages"@))
            } else {
                None
            },
            EditorCommand::SetEnvironment { .. } => None,
            EditorCommand::GiveCredits { amount } => if amount == 0 {
                Some(Refusal::Invalid("credit adjustment cannot be zero"@))
            } else {
                None
            },
            EditorCommand::StartContract { contract_id } => if self.contract_exists(contract_id@) {
                None
            } else {
                Some(Refusal::Missing("contract "@ + contract_id@))
            },
            EditorCommand::SetSimulationSpeed { speed } => if speed == 0 || speed == 1 || speed == 8 || speed == 64 {
                None
            } else {
                Some(Refusal::Invalid("simulation speed must be 0, 1, 8, or 64"@))
            },
        }
    }

    /// Why a command envelope is refused, if it is: a stale revision first, then
    /// a missing permission, then the rules of the command.
    pub open spec fn command_refusal(self, envelope: CommandEnvelope) -> Option<Refusal> {
        if envelope.expected_world_revision != self.world_revision {
            Some(Refusal::Stale { expected: envelope.expected_world_revision, current: self.world_revision })
        } else if !permitted(default_npc_command_names(), envelope.actor, envelope.command) {
            Some(Refusal::Denied)
        } else {
            match envelope.command {
                GameCommand::Farm(c) => self.farm_refusal(c),
                GameCommand::Editor(c) => self.editor_refusal(c),
            }
        }
    }
}

/// Whether `c` is white space in the sense of the Unicode `White_Space` property:
/// tab, line feed, vertical tab, form feed, carriage return, space, next line,
/// no-break space, Ogham space mark, the en quad through hair space, line and
/// paragraph separators, narrow no-break space, medium mathematical space and
/// ideographic space.
pub open spec fn is_white_space(c: char) -> bool {
    let n = c as u32;
    ||| 0x9 <= n <= 0xD
    ||| n == 0x20
    ||| n == 0x85
    ||| n == 0xA0
    ||| n == 0x1680
    ||| 0x2000 <= n <= 0x200A
    ||| n == 0x2028
    ||| n == 0x2029
    ||| n == 0x202F
    ||| n == 0x205F
    ||| n == 0x3000
}

/// A text is blank when all its characters are white space (so trimming leaves nothing).
pub open spec fn is_blank(s: Seq<char>) -> bool {
    forall|i: int| 0 <= i < s.len() ==> is_white_space(#[trigger] s[i])
}

/// Whether the character has the Unicode `White_Space` property.
pub(crate) fn char_is_whitespace(c: char) -> (r: bool)
    ensures
        r == is_white_space(c),
{
    let n = c as u32;
    (0x9 <= n && n <= 0xD) || n == 0x20 || n == 0x85 || n == 0xA0 || n == 0x1680 || (0x2000 <= n && n <= 0x200A)
        || n == 0x2028 || n == 0x2029 || n == 0x202F || n == 0x205F || n == 0x3000
}

/// Whether trimming `s` leaves nothing.
pub fn text_is_blank(s: &str) -> (r: bool)
    ensures
        r == is_blank(s@),
{
    let n = s.unicode_len();
    let mut i: usize = 0;
    while i < n
        invariant
            n == s@.len(),
            i <= n,
            forall|j: int| 0 <= j < i ==> is_white_space(#[trigger] s@[j]),
        decreases n - i,
    {
        if !char_is_whitespace(s.get_char(i)) {
            return false;
        }
        i += 1;
    }
    true
}

} // verus!
