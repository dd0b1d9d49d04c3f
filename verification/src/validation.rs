use vstd::prelude::*;
use vstd::string::*;

use crate::command::{
    default_npc_command_names, permitted, CommandEnvelope, CommandError, CommandPermissions,
    EditorCommand, FarmCommand, GameCommand,
};
use crate::model::{FacilityKind, TerrainKind, TilePos};
use crate::simulation::{refusal_of, text_is_blank, GameSimulation, Refusal};
use crate::text::{text_with_number, text_with_text};
use crate::textmap::text_eq;

verus! {

/// The outcome of a check matches a refusal description exactly.
pub open spec fn outcome_matches(r: Result<(), CommandError>, refusal: Option<Refusal>) -> bool {
    match refusal {
        None => r is Ok,
        Some(expected) => r matches Err(e) && refusal_of(e) == expected,
    }
}

impl GameSimulation {
    /// Index of the first zone with `zone_id`.
    pub fn zone_index(&self, zone_id: u64) -> (r: Option<usize>)
        ensures
            r is None <==> !self.zone_exists(zone_id),
            r matches Some(i) ==> i < self.zones@.len() && self.zones@[i as int].id == zone_id
                && forall|j: int| 0 <= j < i ==> #[trigger] self.zones@[j].id != zone_id,
    {
        let mut i: usize = 0;
        while i < self.zones.len()
            invariant
                i <= self.zones@.len(),
                forall|j: int| 0 <= j < i ==> #[trigger] self.zones@[j].id != zone_id,
            decreases self.zones@.len() - i,
        {
            if self.zones[i].id == zone_id {
                return Some(i);
            }
            i += 1;
        }
        None
    }

    /// Index of the first robot with `robot_id`.
    pub fn robot_index(&self, robot_id: u64) -> (r: Option<usize>)
        ensures
            r is None <==> !self.robot_exists(robot_id),
            r matches Some(i) ==> i < self.robots@.len() && self.robots@[i as int].id == robot_id
                && forall|j: int| 0 <= j < i ==> #[trigger] self.robots@[j].id != robot_id,
    {
        let mut i: usize = 0;
        while i < self.robots.len()
            invariant
                i <= self.robots@.len(),
                forall|j: int| 0 <= j < i ==> #[trigger] self.robots@[j].id != robot_id,
            decreases self.robots@.len() - i,
        {
            if self.robots[i].id == robot_id {
                return Some(i);
            }
            i += 1;
        }
        None
    }

    /// Index of the first facility with `facility_id`.
    pub fn facility_index(&self, facility_id: u64) -> (r: Option<usize>)
        ensures
            r is None <==> !self.facility_exists(facility_id),
            r matches Some(i) ==> i < self.facilities@.len() && self.facilities@[i as int].id
                == facility_id && forall|j: int|
                0 <= j < i ==> #[trigger] self.facilities@[j].id != facility_id,
    {
        let mut i: usize = 0;
        while i < self.facilities.len()
            invariant
                i <= self.facilities@.len(),
                forall|j: int| 0 <= j < i ==> #[trigger] self.facilities@[j].id != facility_id,
            decreases self.facilities@.len() - i,
        {
            if self.facilities[i].id == facility_id {
                return Some(i);
            }
            i += 1;
        }
        None
    }

    /// Index of the first contract with id `contract_id`.
    pub fn contract_index(&self, contract_id: &str) -> (r: Option<usize>)
        ensures
            r is None <==> !self.contract_exists(contract_id@),
            r matches Some(i) ==> i < self.contracts@.len() && self.contracts@[i as int].definition.id@
                == contract_id@ && forall|j: int|
                0 <= j < i ==> #[trigger] self.contracts@[j].definition.id@ != contract_id@,
    {
        let mut i: usize = 0;
        while i < self.contracts.len()
            invariant
                i <= self.contracts@.len(),
                forall|j: int| 0 <= j < i ==> #[trigger] self.contracts@[j].definition.id@ != contract_id@,
            decreases self.contracts@.len() - i,
        {
            if text_eq(self.contracts[i].definition.id.as_str(), contract_id) {
                return Some(i);
            }
            i += 1;
        }
        None
    }

    /// Whether some robot calls `bay` home.
    pub fn bay_taken(&self, bay: TilePos) -> (r: bool)
        ensures
            r == !self.bay_is_free(bay),
    {
        let mut r: usize = 0;
        while r < self.robots.len()
            invariant
                r <= self.robots@.len(),
                forall|q: int| 0 <= q < r ==> #[trigger] self.robots@[q].home_position != bay,
            decreases self.robots@.len() - r,
        {
            if self.robots[r].home_position == bay {
                return true;
            }
            r += 1;
        }
        false
    }

    /// The first garage bay that no robot calls home.
    pub fn available_garage_bay(&self) -> (r: Option<TilePos>)
        ensures
            r is None <==> !self.free_bay_exists(),
            r matches Some(bay) ==> exists|b: int|
                0 <= b < self.map.garage_bays@.len() && #[trigger] self.map.garage_bays@[b] == bay
                    && self.bay_is_free(bay) && forall|c: int|
                    0 <= c < b ==> !self.bay_is_free(#[trigger] self.map.garage_bays@[c]),
    {
        let mut b: usize = 0;
        while b < self.map.garage_bays.len()
            invariant
                b <= self.map.garage_bays@.len(),
                forall|c: int| 0 <= c < b ==> !self.bay_is_free(#[trigger] self.map.garage_bays@[c]),
            decreases self.map.garage_bays@.len() - b,
        {
            let bay = self.map.garage_bays[b];
            if !self.bay_taken(bay) {
                return Some(bay);
            }
            b += 1;
        }
        None
    }

    pub fn require_crop(&self, crop_id: &str) -> (r: Result<(), CommandError>)
        requires
            self.catalog.crops.wf(),
        ensures
            outcome_matches(
                r,
                if self.crop_known(crop_id@) {
                    None
                } else {
                    Some(Refusal::Missing("crop "@ + crop_id@))
                },
            ),
    {
        if self.catalog.crops.contains_key(crop_id) {
            Ok(())
        } else {
            Err(CommandError::NotFound(text_with_text("crop ", crop_id)))
        }
    }

    pub fn require_credits(&self, amount: i32) -> (r: Result<(), CommandError>)
        ensures
            outcome_matches(r, self.credits_refusal(amount)),
    {
        if self.credits >= amount {
            Ok(())
        } else {
            Err(CommandError::InsufficientCredits { required: amount, available: self.credits })
        }
    }

    pub fn validate_facility_position(&self, position: TilePos) -> (r: Result<(), CommandError>)
        requires
            self.grid.wf(),
        ensures
            outcome_matches(r, self.facility_position_refusal(position)),
    {
        proof {
            if self.grid.in_bounds(position) {
                crate::grid::lemma_row_major(self.grid.width, self.grid.height, position);
            }
        }
        match self.grid.tile(position) {
            None => Err(CommandError::Invalid("facility position is outside the map".to_string())),
            Some(tile) => {
                let blocked = match tile.terrain {
                    TerrainKind::Water | TerrainKind::Rock | TerrainKind::IrrigationChannel => true,
                    _ => false,
                };
                if tile.occupied || tile.building.is_some() || blocked {
                    Err(CommandError::Invalid("facility position is blocked".to_string()))
                } else {
                    Ok(())
                }
            },
        }
    }

    pub fn validate_new_zone(&self, origin: TilePos, size: (u32, u32), crop_id: &str) -> (r: Result<(), CommandError>)
        requires
            self.wf(),
        ensures
            outcome_matches(r, self.new_zone_refusal(origin, size, crop_id@)),
    {
        let known = self.require_crop(crop_id);
        if known.is_err() {
            return known;
        }
        if size.0 == 0 || size.1 == 0 || size.0 > 16 || size.1 > 16 {
            return Err(CommandError::Invalid("field size must be between 1x1 and 16x16".to_string()));
        }
        let blocked_message = "field rectangle includes blocked or out-of-bounds tiles";
        if origin.x as u64 + size.0 as u64 > self.grid.width as u64 || origin.y as u64
            + size.1 as u64 > self.grid.height as u64 {
            return Err(CommandError::Invalid(blocked_message.to_string()));
        }
        let mut j: u32 = 0;
        while j < size.1
            invariant
                self.wf(),
                j <= size.1,
                size.0 <= 16,
                size.1 <= 16,
                size.0 > 0,
                size.1 > 0,
                self.crop_known(crop_id@),
                blocked_message@ == "field rectangle includes blocked or out-of-bounds tiles"@,
                origin.x as int + size.0 as int <= self.grid.width,
                origin.y as int + size.1 as int <= self.grid.height,
                forall|a: int, b: int|
                    0 <= a < size.0 && 0 <= b < j ==> {
                        let t = #[trigger] self.grid.tile_at(TilePos { x: (origin.x + a) as u32, y: (origin.y + b) as u32 });
                        t.terrain.is_farmable() && t.building is None
                    },
            decreases size.1 - j,
        {
            let mut i: u32 = 0;
            while i < size.0
                invariant
                    self.wf(),
                    j < size.1,
                    i <= size.0,
                    size.0 <= 16,
                    size.1 <= 16,
                    size.0 > 0,
                    size.1 > 0,
                    self.crop_known(crop_id@),
                    blocked_message@ == "field rectangle includes blocked or out-of-bounds tiles"@,
                    origin.x as int + size.0 as int <= self.grid.width,
                    origin.y as int + size.1 as int <= self.grid.height,
                    forall|a: int, b: int|
                        0 <= a < size.0 && 0 <= b < j ==> {
                            let t = #[trigger] self.grid.tile_at(TilePos { x: (origin.x + a) as u32, y: (origin.y + b) as u32 });
                            t.terrain.is_farmable() && t.building is None
                        },
                    forall|a: int|
                        0 <= a < i ==> {
                            let t = #[trigger] self.grid.tile_at(TilePos { x: (origin.x + a) as u32, y: (origin.y + j) as u32 });
                            t.terrain.is_farmable() && t.building is None
                        },
                decreases size.0 - i,
            {
                let p = TilePos::new(origin.x + i, origin.y + j);
                proof {
                    crate::grid::lemma_row_major(self.grid.width, self.grid.height, p);
                }
                match self.grid.tile(p) {
                    Some(tile) => {
                        if !tile.terrain.farmable() || tile.building.is_some() {
                            proof {
                                let a = i as int;
                                let b = j as int;
                                assert(self.grid.tile_at(TilePos { x: (origin.x + a) as u32, y: (origin.y + b) as u32 }) == *tile);
                                assert(!self.zone_rect_ok(origin, size));
                            }
                            return Err(CommandError::Invalid(blocked_message.to_string()));
                        }
                    },
                    None => {
                        return Err(CommandError::Invalid(blocked_message.to_string()));
                    },
                }
                i += 1;
            }
            j += 1;
        }
        Ok(())
    }

    /// Checks a farm command against the rules of the world.
    pub fn validate_farm_command(&self, command: &FarmCommand) -> (r: Result<(), CommandError>)
        requires
            self.wf(),
        ensures
            outcome_matches(r, self.farm_refusal(*command)),
    {
        match command {
            FarmCommand::CreateFieldZone { origin, size, crop_id } => self.validate_new_zone(
                *origin,
                *size,
                crop_id.as_str(),
            ),
            FarmCommand::SetZoneCrop { zone_id, crop_id } => {
                if self.zone_index(*zone_id).is_none() {
                    return Err(CommandError::NotFound(text_with_number("zone ", *zone_id)));
                }
                self.require_crop(crop_id.as_str())
            },
            FarmCommand::SetZonePriority { zone_id, priority } => {
                if self.zone_index(*zone_id).is_none() {
                    return Err(CommandError::NotFound(text_with_number("zone ", *zone_id)));
                }
                if *priority > 100 {
                    return Err(
                        CommandError::Invalid("zone priority must be between 0 and 100".to_string()),
                    );
                }
                Ok(())
            },
            FarmCommand::AssignNpc { npc_id, zone_id } => {
                if self.zone_index(*zone_id).is_none() {
                    return Err(CommandError::NotFound(text_with_number("zone ", *zone_id)));
                }
                if !self.npc_assignments.contains_key(npc_id.as_str()) {
                    return Err(CommandError::NotFound(text_with_text("NPC ", npc_id.as_str())));
                }
                Ok(())
            },
            FarmCommand::PurchaseRobot { robot_def_id } => {
                let price = match self.catalog.robots.get(robot_def_id.as_str()) {
                    None => {
                        return Err(
                            CommandError::NotFound(
                                text_with_text("robot definition ", robot_def_id.as_str()),
                            ),
                        );
                    },
                    Some(definition) => definition.purchase_price,
                };
                if self.available_garage_bay().is_none() {
                    return Err(
                        CommandError::Invalid("robot garage has no free parking bay".to_string()),
                    );
                }
                self.require_credits(price)
            },
            FarmCommand::SetRobotPolicy { robot_id, reserve_battery_percent } => {
                if self.robot_index(*robot_id).is_none() {
                    return Err(CommandError::NotFound(text_with_number("robot ", *robot_id)));
                }
                if *reserve_battery_percent > 90 {
                    return Err(CommandError::Invalid("battery reserve cannot exceed 90%".to_string()));
                }
                Ok(())
            },
            FarmCommand::BuildFacility { kind, position } => {
                let placed = self.validate_facility_position(*position);
                if placed.is_err() {
                    return placed;
                }
                self.require_credits(kind.price())
            },
            FarmCommand::ChangeContractPriority { priority } => {
                if self.current_contract.is_none() || *priority > 100 {
                    return Err(
                        CommandError::Invalid(
                            "active contract and priority 0..100 required".to_string(),
                        ),
                    );
                }
                Ok(())
            },
            FarmCommand::StartAutonomyTrial { duration_minutes } => {
                if *duration_minutes == 0 {
                    return Err(CommandError::Invalid("trial duration must be positive".to_string()));
                }
                let running = match &self.autonomy_trial {
                    Some(trial) => !trial.finished,
                    None => false,
                };
                if running {
                    return Err(
                        CommandError::Invalid("an autonomy trial is already running".to_string()),
                    );
                }
                Ok(())
            },
        }
    }

    /// Checks an editor command against the rules of the world.
    pub fn validate_editor_command(&self, command: &EditorCommand) -> (r: Result<(), CommandError>)
        requires
            self.wf(),
        ensures
            outcome_matches(r, self.editor_refusal(*command)),
    {
        match command {
            EditorCommand::PlaceBuilding { position, .. } => self.validate_facility_position(*position),
            EditorCommand::DeleteEntity { entity_id } => {
                if self.facility_index(*entity_id).is_some() || self.robot_index(*entity_id).is_some()
                    || self.zone_index(*entity_id).is_some() {
                    Ok(())
                } else {
                    Err(CommandError::NotFound(text_with_number("entity ", *entity_id)))
                }
            },
            EditorCommand::CreateFieldZone { origin, size, crop_id } => self.validate_new_zone(
                *origin,
                *size,
                crop_id.as_str(),
            ),
            EditorCommand::SpawnRobot { robot_def_id, count, position } => {
                if !self.catalog.robots.contains_key(robot_def_id.as_str()) {
                    return Err(
                        CommandError::NotFound(
                            text_with_text("robot definition ", robot_def_id.as_str()),
                        ),
                    );
                }
                if *count == 0 || !self.grid.contains(*position) {
                    return Err(
                        CommandError::Invalid(
                            "robot count and spawn position are invalid".to_string(),
                        ),
                    );
                }
                Ok(())
            },
            EditorCommand::PatchCropDefinition { definition } => {
                if text_is_blank(definition.id.as_str()) || definition.stages.len() < 2 {
                    return Err(
                        CommandError::Invalid(
                            "crop definition needs an id and at least two stages".to_string(),
                        ),
                    );
                }
                Ok(())
            },
            EditorCommand::SetEnvironment { .. } => Ok(()),
            EditorCommand::GiveCredits { amount } => {
                if *amount == 0 {
                    Err(CommandError::Invalid("credit adjustment cannot be zero".to_string()))
                } else {
                    Ok(())
                }
            },
            EditorCommand::StartContract { contract_id } => {
                if self.contract_index(contract_id.as_str()).is_some() {
                    Ok(())
                } else {
                    Err(CommandError::NotFound(text_with_text("contract ", contract_id.as_str())))
                }
            },
            EditorCommand::SetSimulationSpeed { speed } => {
                if *speed == 0 || *speed == 1 || *speed == 8 || *speed == 64 {
                    Ok(())
                } else {
                    Err(
                        CommandError::Invalid(
                            "simulation speed must be 0, 1, 8, or 64".to_string(),
                        ),
                    )
                }
            },
        }
    }

    /// Checks a command envelope: the world revision first, then the actor's
    /// permission, then the rules of the command.
    pub fn validate_command(&self, envelope: &CommandEnvelope) -> (r: Result<(), CommandError>)
        requires
            self.wf(),
        ensures
            outcome_matches(r, self.command_refusal(*envelope)),
    {
        if envelope.expected_world_revision != self.world_revision {
            return Err(
                CommandError::StaleRevision {
                    expected: envelope.expected_world_revision,
                    current: self.world_revision,
                },
            );
        }
        let permissions = CommandPermissions::standard();
        if !permissions.allows(&envelope.actor, &envelope.command) {
            return Err(CommandError::PermissionDenied);
        }
        match &envelope.command {
            GameCommand::Farm(command) => self.validate_farm_command(command),
            GameCommand::Editor(command) => self.validate_editor_command(command),
        }
    }
}

} // verus!
