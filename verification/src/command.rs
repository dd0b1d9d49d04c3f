use vstd::prelude::*;

use crate::content::CropDef;
use crate::model::{FacilityKind, TilePos, Weather, ZoneId};
use crate::textmap::text_eq;

verus! {

/// Who issues a command.
#[derive(Debug, Clone, PartialEq, Eq)]
pub enum CommandActor {
    Human,
    EditorAi,
    Npc(String),
    Script,
}

/// A command with its issuer and the world revision it was planned against.
#[derive(Debug, Clone, PartialEq)]
pub struct CommandEnvelope {
    pub id: u64,
    pub actor: CommandActor,
    pub expected_world_revision: u64,
    pub command: GameCommand,
}

#[derive(Debug, Clone, PartialEq)]
pub enum GameCommand {
    Farm(FarmCommand),
    Editor(EditorCommand),
}

/// Commands of the farm's management layer.
#[derive(Debug, PartialEq, Eq)]
pub enum FarmCommand {
    CreateFieldZone { origin: TilePos, size: (u32, u32), crop_id: String },
    SetZoneCrop { zone_id: ZoneId, crop_id: String },
    SetZonePriority { zone_id: ZoneId, priority: u8 },
    AssignNpc { npc_id: String, zone_id: ZoneId },
    PurchaseRobot { robot_def_id: String },
    SetRobotPolicy { robot_id: u64, reserve_battery_percent: u8 },
    BuildFacility { kind: FacilityKind, position: TilePos },
    ChangeContractPriority { priority: u8 },
    StartAutonomyTrial { duration_minutes: u64 },
}

/// Commands of the world editor.
#[derive(Debug, PartialEq)]
pub enum EditorCommand {
    PlaceBuilding { kind: FacilityKind, position: TilePos },
    DeleteEntity { entity_id: u64 },
    CreateFieldZone { origin: TilePos, size: (u32, u32), crop_id: String },
    SpawnRobot { robot_def_id: String, count: u8, position: TilePos },
    PatchCropDefinition { definition: CropDef },
    SetEnvironment { weather: Weather },
    GiveCredits { amount: i32 },
    StartContract { contract_id: String },
    SetSimulationSpeed { speed: u8 },
}

impl Clone for FarmCommand {
    fn clone(&self) -> (r: Self)
        ensures
            r == *self,
    {
        match self {
            FarmCommand::CreateFieldZone { origin, size, crop_id } => FarmCommand::CreateFieldZone {
                origin: *origin,
                size: *size,
                crop_id: crop_id.clone(),
            },
            FarmCommand::SetZoneCrop { zone_id, crop_id } => FarmCommand::SetZoneCrop {
                zone_id: *zone_id,
                crop_id: crop_id.clone(),
            },
            FarmCommand::SetZonePriority { zone_id, priority } => FarmCommand::SetZonePriority {
                zone_id: *zone_id,
                priority: *priority,
            },
            FarmCommand::AssignNpc { npc_id, zone_id } => FarmCommand::AssignNpc {
                npc_id: npc_id.clone(),
                zone_id: *zone_id,
            },
            FarmCommand::PurchaseRobot { robot_def_id } => FarmCommand::PurchaseRobot { robot_def_id: robot_def_id.clone() },
            FarmCommand::SetRobotPolicy { robot_id, reserve_battery_percent } => FarmCommand::SetRobotPolicy {
                robot_id: *robot_id,
                reserve_battery_percent: *reserve_battery_percent,
            },
            FarmCommand::BuildFacility { kind, position } => FarmCommand::BuildFacility { kind: *kind, position: *position },
            FarmCommand::ChangeContractPriority { priority } => FarmCommand::ChangeContractPriority { priority: *priority },
            FarmCommand::StartAutonomyTrial { duration_minutes } => FarmCommand::StartAutonomyTrial {
                duration_minutes: *duration_minutes,
            },
        }
    }
}

impl Clone for EditorCommand {
    /// A copy of the command; a crop definition patch carries a copy of its definition.
    fn clone(&self) -> (r: Self)
        ensures
            (r is PatchCropDefinition) == (*self is PatchCropDefinition),
            !(*self is PatchCropDefinition) ==> r == *self,
    {
        match self {
            EditorCommand::PlaceBuilding { kind, position } => EditorCommand::PlaceBuilding { kind: *kind, position: *position },
            EditorCommand::DeleteEntity { entity_id } => EditorCommand::DeleteEntity { entity_id: *entity_id },
            EditorCommand::CreateFieldZone { origin, size, crop_id } => EditorCommand::CreateFieldZone {
                origin: *origin,
                size: *size,
                crop_id: crop_id.clone(),
            },
            EditorCommand::SpawnRobot { robot_def_id, count, position } => EditorCommand::SpawnRobot {
                robot_def_id: robot_def_id.clone(),
                count: *count,
                position: *position,
            },
            EditorCommand::PatchCropDefinition { definition } => EditorCommand::PatchCropDefinition {
                definition: definition.clone(),
            },
            EditorCommand::SetEnvironment { weather } => EditorCommand::SetEnvironment { weather: *weather },
            EditorCommand::GiveCredits { amount } => EditorCommand::GiveCredits { amount: *amount },
            EditorCommand::StartContract { contract_id } => EditorCommand::StartContract { contract_id: contract_id.clone() },
            EditorCommand::SetSimulationSpeed { speed } => EditorCommand::SetSimulationSpeed { speed: *speed },
        }
    }
}

/// Why a command was refused.
#[derive(Debug, Clone, PartialEq, Eq)]
pub enum CommandError {
    StaleRevision { expected: u64, current: u64 },
    PermissionDenied,
    Invalid(String),
    InsufficientCredits { required: i32, available: i32 },
    NotFound(String),
}

/// The name under which a farm command is permitted.
pub open spec fn farm_command_name_spec(command: FarmCommand) -> Seq<char> {
    match command {
        FarmCommand::CreateFieldZone { .. } => "create_field_zone"@,
        FarmCommand::SetZoneCrop { .. } => "set_zone_crop"@,
        FarmCommand::SetZonePriority { .. } => "set_zone_priority"@,
        FarmCommand::AssignNpc { .. } => "assign_npc"@,
        FarmCommand::PurchaseRobot { .. } => "purchase_robot"@,
        FarmCommand::SetRobotPolicy { .. } => "set_robot_policy"@,
        FarmCommand::BuildFacility { .. } => "build_facility"@,
        FarmCommand::ChangeContractPriority { .. } => "change_contract_priority"@,
        FarmCommand::StartAutonomyTrial { .. } => "start_autonomy_trial"@,
    }
}

pub fn farm_command_name(command: &FarmCommand) -> (r: &'static str)
    ensures
        r@ == farm_command_name_spec(*command),
{
    match command {
        FarmCommand::CreateFieldZone { .. } => "create_field_zone",
        FarmCommand::SetZoneCrop { .. } => "set_zone_crop",
        FarmCommand::SetZonePriority { .. } => "set_zone_priority",
        FarmCommand::AssignNpc { .. } => "assign_npc",
        FarmCommand::PurchaseRobot { .. } => "purchase_robot",
        FarmCommand::SetRobotPolicy { .. } => "set_robot_policy",
        FarmCommand::BuildFacility { .. } => "build_facility",
        FarmCommand::ChangeContractPriority { .. } => "change_contract_priority",
        FarmCommand::StartAutonomyTrial { .. } => "start_autonomy_trial",
    }
}

/// Which actor may issue which command: humans and scripts run farm commands, the
/// editor AI runs editor commands, and NPC managers run the farm commands whose
/// names are in `npc_names`.
pub open spec fn permitted(npc_names: Set<Seq<char>>, actor: CommandActor, command: GameCommand) -> bool {
    match (actor, command) {
        (CommandActor::Human, GameCommand::Farm(_)) => true,
        (CommandActor::Script, GameCommand::Farm(_)) => true,
        (CommandActor::EditorAi, GameCommand::Editor(_)) => true,
        (CommandActor::Npc(_), GameCommand::Farm(c)) => npc_names.contains(farm_command_name_spec(c)),
        _ => false,
    }
}

/// The farm commands NPC managers may issue by default.
pub open spec fn default_npc_command_names() -> Set<Seq<char>> {
    set![
        "set_zone_crop"@,
        "set_zone_priority"@,
        "assign_npc"@,
        "set_robot_policy"@,
        "change_contract_priority"@,
    ]
}

/// The character sequences of a list of texts.
pub open spec fn texts_view(s: Seq<&'static str>) -> Seq<Seq<char>> {
    Seq::new(s.len(), |i: int| s[i]@)
}

/// The commands each kind of actor may issue.
#[derive(Debug, Clone, PartialEq, Eq)]
pub struct CommandPermissions {
    npc_farm_commands: Vec<&'static str>,
}

impl Default for CommandPermissions {
    /// The standard permissions.
    fn default() -> (r: Self)
        ensures
            r.npc_names() == default_npc_command_names(),
    {
        CommandPermissions::standard()
    }
}

impl CommandPermissions {
    /// Names of the farm commands NPC managers may issue.
    pub closed spec fn npc_names(self) -> Set<Seq<char>> {
        texts_view(self.npc_farm_commands@).to_set()
    }

    /// The standard permissions.
    pub fn standard() -> (r: Self)
        ensures
            r.npc_names() == default_npc_command_names(),
    {
        let r = CommandPermissions {
            npc_farm_commands: vec![
                "set_zone_crop",
                "set_zone_priority",
                "assign_npc",
                "set_robot_policy",
                "change_contract_priority",
            ],
        };
        assert(r.npc_names() =~= default_npc_command_names()) by {
            let s = texts_view(r.npc_farm_commands@);
            assert forall|x: Seq<char>| s.contains(x) <==> default_npc_command_names().contains(x) by {
                if default_npc_command_names().contains(x) {
                    if x == "set_zone_crop"@ {
                        assert(s[0] == x);
                    } else if x == "set_zone_priority"@ {
                        assert(s[1] == x);
                    } else if x == "assign_npc"@ {
                        assert(s[2] == x);
                    } else if x == "set_robot_policy"@ {
                        assert(s[3] == x);
                    } else {
                        assert(s[4] == x);
                    }
                }
            }
        }
        r
    }

    /// Whether `actor` may issue `command`.
    pub fn allows(&self, actor: &CommandActor, command: &GameCommand) -> (r: bool)
        ensures
            r == permitted(self.npc_names(), *actor, *command),
    {
        match (actor, command) {
            (CommandActor::Human, GameCommand::Farm(_)) => true,
            (CommandActor::Script, GameCommand::Farm(_)) => true,
            (CommandActor::EditorAi, GameCommand::Editor(_)) => true,
            (CommandActor::Npc(_), GameCommand::Farm(c)) => {
                let name = farm_command_name(c);
                let ghost names = texts_view(self.npc_farm_commands@);
                let mut k: usize = 0;
                while k < self.npc_farm_commands.len()
                    invariant
                        k <= self.npc_farm_commands@.len(),
                        names == texts_view(self.npc_farm_commands@),
                        forall|j: int| 0 <= j < k ==> names[j] != name@,
                        name@ == farm_command_name_spec(*c),
                        *command == GameCommand::Farm(*c),
                        actor is Npc,
                    decreases self.npc_farm_commands@.len() - k,
                {
                    if text_eq(self.npc_farm_commands[k], name) {
                        assert(names[k as int] == name@);
                        assert(names.contains(name@));
                        assert(names.to_set().contains(name@));
                        assert(name@ == farm_command_name_spec(*c));
                        assert(self.npc_names() == names.to_set());
                        assert(self.npc_names().contains(farm_command_name_spec(*c)));
                        return true;
                    }
                    k += 1;
                }
                assert(!names.to_set().contains(name@)) by {
                    if names.contains(name@) {
                        let j = choose|j: int| 0 <= j < names.len() && names[j] == name@;
                        assert(names[j] != name@);
                    }
                }
                false
            },
            _ => false,
        }
    }
}

/// NPC managers may issue exactly the zone-crop, zone-priority, NPC-assignment,
/// robot-policy and contract-priority commands.
pub proof fn npc_command_permissions(npc: String, command: FarmCommand)
    ensures
        permitted(default_npc_command_names(), CommandActor::Npc(npc), GameCommand::Farm(command))
            <==> (command is SetZoneCrop || command is SetZonePriority || command is AssignNpc
            || command is SetRobotPolicy || command is ChangeContractPriority),
{
    reveal_strlit("create_field_zone");
    reveal_strlit("set_zone_crop");
    reveal_strlit("set_zone_priority");
    reveal_strlit("assign_npc");
    reveal_strlit("purchase_robot");
    reveal_strlit("set_robot_policy");
    reveal_strlit("build_facility");
    reveal_strlit("change_contract_priority");
    reveal_strlit("start_autonomy_trial");
    let name = farm_command_name_spec(command);
    if command is CreateFieldZone {
        assert(name[0] == 'c' && name[1] == 'r');
    } else if command is PurchaseRobot {
        assert(name[0] == 'p');
    } else if command is BuildFacility {
        assert(name[0] == 'b');
    } else if command is StartAutonomyTrial {
        assert(name[0] == 's' && name[1] == 't');
    }
}

} // verus!

