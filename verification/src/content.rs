use vstd::prelude::*;
use vstd::string::*;

use crate::model::{Capability, RobotBody};
use crate::textmap::TextMap;

verus! {

/// One growth stage of a crop and how long it lasts.
#[derive(Debug, Clone, PartialEq, Eq)]
pub struct GrowthStageDef {
    pub name: String,
    pub duration_minutes: u32,
}

/// Static description of a crop.
#[derive(Debug, Clone, PartialEq, Eq)]
pub struct CropDef {
    pub id: String,
    pub display_name: String,
    pub stages: Vec<GrowthStageDef>,
    pub water_threshold: u8,
    pub fertility_cost: u8,
    pub needs_pollination: bool,
    pub needs_inspection: bool,
    pub needs_pest_control: bool,
    pub requires_flooded_field: bool,
    pub plant_capability: Capability,
    pub harvest_capability: Capability,
    pub harvest_count: u8,
    pub harvest_yield: u32,
    pub market_value: i32,
}

impl CropDef {
    /// Name of the packed product made from this crop.
    pub fn packed_item(&self) -> (r: String)
        ensures
            r@ == "packed_"@ + self.id@,
    {
        let mut out = "packed_".to_string();
        out.append(self.id.as_str());
        out
    }
}

/// Static description of a robot model, as far as the farm rules read it.
#[derive(Debug, Clone, PartialEq, Eq)]
pub struct RobotDef {
    pub id: String,
    pub display_name: String,
    pub body: RobotBody,
    pub capabilities: Vec<Capability>,
    pub cargo_capacity: u32,
    pub purchase_price: i32,
}

/// An amount of an item that a contract asks for.
#[derive(Debug, PartialEq, Eq)]
pub struct ItemRequirement {
    pub item: String,
    pub amount: u32,
}

impl Clone for ItemRequirement {
    fn clone(&self) -> (r: Self)
        ensures
            r == *self,
    {
        ItemRequirement { item: self.item.clone(), amount: self.amount }
    }
}

/// A delivery contract.
#[derive(Debug, PartialEq, Eq)]
pub struct ContractDef {
    pub id: String,
    pub display_name: String,
    pub requirements: Vec<ItemRequirement>,
    pub deadline_minutes: u64,
    pub reward: i32,
    pub reputation: u32,
}

/// Two contract definitions say the same thing.
pub open spec fn same_contract(a: ContractDef, b: ContractDef) -> bool {
    &&& a.id == b.id
    &&& a.display_name == b.display_name
    &&& a.requirements@ == b.requirements@
    &&& a.deadline_minutes == b.deadline_minutes
    &&& a.reward == b.reward
    &&& a.reputation == b.reputation
}

impl Clone for ContractDef {
    fn clone(&self) -> (r: Self)
        ensures
            same_contract(r, *self),
    {
        let mut requirements: Vec<ItemRequirement> = Vec::new();
        let mut k: usize = 0;
        while k < self.requirements.len()
            invariant
                k <= self.requirements@.len(),
                requirements@ == self.requirements@.take(k as int),
            decreases self.requirements@.len() - k,
        {
            requirements.push(self.requirements[k].clone());
            k += 1;
            assert(requirements@ =~= self.requirements@.take(k as int));
        }
        assert(requirements@ =~= self.requirements@);
        ContractDef {
            id: self.id.clone(),
            display_name: self.display_name.clone(),
            requirements,
            deadline_minutes: self.deadline_minutes,
            reward: self.reward,
            reputation: self.reputation,
        }
    }
}

/// Why a content catalog is unusable.
#[derive(Debug, Clone, PartialEq, Eq)]
pub enum ContentError {
    Invalid { kind: &'static str, message: String },
    MissingRequired(String),
}

/// All crops, robot models and contracts of the game.
#[derive(Debug, Clone, PartialEq, Eq)]
pub struct ContentCatalog {
    pub crops: TextMap<CropDef>,
    pub robots: TextMap<RobotDef>,
    pub contracts: Vec<ContractDef>,
}

/// The definitions keyed by id; a later definition of an id replaces an earlier one.
pub open spec fn crops_by_id(s: Seq<CropDef>) -> Map<Seq<char>, CropDef>
    decreases s.len(),
{
    if s.len() == 0 {
        Map::empty()
    } else {
        crops_by_id(s.drop_last()).insert(s.last().id@, s.last())
    }
}

/// The definitions keyed by id; a later definition of an id replaces an earlier one.
pub open spec fn robots_by_id(s: Seq<RobotDef>) -> Map<Seq<char>, RobotDef>
    decreases s.len(),
{
    if s.len() == 0 {
        Map::empty()
    } else {
        robots_by_id(s.drop_last()).insert(s.last().id@, s.last())
    }
}

/// A crop the game cannot run without is present with at least two stages.
pub open spec fn crop_present(crops: Map<Seq<char>, CropDef>, id: Seq<char>) -> bool {
    crops.contains_key(id) && crops[id].stages@.len() >= 2
}

/// The first problem of a catalog, in the order the checks run:
/// each required crop (missing, then too few stages), each required robot, then the contracts.
/// `None` when the catalog is complete; otherwise whether the problem is a missing entry,
/// and the text the error carries.
pub open spec fn first_content_problem(
    crops: Map<Seq<char>, CropDef>,
    robots: Map<Seq<char>, RobotDef>,
    contract_count: int,
) -> Option<(bool, Seq<char>)> {
    let required_crops = seq!["wheat"@, "potato"@, "tomato"@, "strawberry"@];
    let required_robots = seq![
        "basic_rover"@,
        "pollination_drone"@,
        "field_quadruped"@,
        "biped_farmhand"@,
    ];
    if exists|i: int| 0 <= i < 4 && !crop_present(crops, #[trigger] required_crops[i]) {
        let i = choose|i: int|
            0 <= i < 4 && !crop_present(crops, #[trigger] required_crops[i]) && forall|j: int|
                0 <= j < i ==> crop_present(crops, #[trigger] required_crops[j]);
        if !crops.contains_key(required_crops[i]) {
            Some((true, required_crops[i]))
        } else {
            Some((false, required_crops[i] + " needs at least two growth stages"@))
        }
    } else if exists|i: int| 0 <= i < 4 && !robots.contains_key(#[trigger] required_robots[i]) {
        let i = choose|i: int|
            0 <= i < 4 && !robots.contains_key(#[trigger] required_robots[i]) && forall|j: int|
                0 <= j < i ==> robots.contains_key(#[trigger] required_robots[j]);
        Some((true, required_robots[i]))
    } else if contract_count < 4 {
        Some((true, "four starter contracts"@))
    } else {
        None
    }
}

/// The view of a content error: whether it is a missing entry, and its text.
pub open spec fn content_error_view(e: ContentError) -> (bool, Seq<char>) {
    match e {
        ContentError::Invalid { message, .. } => (false, message@),
        ContentError::MissingRequired(name) => (true, name@),
    }
}

impl ContentCatalog {
    /// Checks that the catalog holds what the starter farm needs.
    pub fn validate(&self) -> (r: Result<(), ContentError>)
        requires
            self.crops.wf(),
            self.robots.wf(),
        ensures
            match first_content_problem(
                self.crops.to_map(),
                self.robots.to_map(),
                self.contracts@.len() as int,
            ) {
                None => r is Ok,
                Some(problem) => r matches Err(e) && content_error_view(e) == problem,
            },
            r matches Err(ContentError::Invalid { kind, .. }) ==> kind@ == "crop"@,
    {
        let ghost crops = self.crops.to_map();
        let ghost robots = self.robots.to_map();
        let ghost required_crops = seq!["wheat"@, "potato"@, "tomato"@, "strawberry"@];
        let ghost required_robots = seq![
            "basic_rover"@,
            "pollination_drone"@,
            "field_quadruped"@,
            "biped_farmhand"@,
        ];
        let crop_names: [&'static str; 4] = ["wheat", "potato", "tomato", "strawberry"];
        let robot_names: [&'static str; 4] = [
            "basic_rover",
            "pollination_drone",
            "field_quadruped",
            "biped_farmhand",
        ];
        assert(crop_names@.map_values(|s: &'static str| s@) =~= required_crops);
        assert(robot_names@.map_values(|s: &'static str| s@) =~= required_robots);
        let mut i: usize = 0;
        while i < 4
            invariant
                i <= 4,
                self.crops.wf(),
                crops == self.crops.to_map(),
                crop_names@.map_values(|s: &'static str| s@) == required_crops,
                required_crops == seq!["wheat"@, "potato"@, "tomato"@, "strawberry"@],
                forall|j: int| 0 <= j < i ==> crop_present(crops, #[trigger] required_crops[j]),
            decreases 4 - i,
        {
            let name = crop_names[i];
            assert(name@ == required_crops[i as int]);
            match self.crops.get(name) {
                None => {
                    proof {
                        assert(!crop_present(crops, required_crops[i as int]));
                        assert(exists|k: int| 0 <= k < 4 && !crop_present(crops, #[trigger] required_crops[k]));
                        let c = choose|k: int|
                            0 <= k < 4 && !crop_present(crops, #[trigger] required_crops[k]) && forall|j: int|
                                0 <= j < k ==> crop_present(crops, #[trigger] required_crops[j]);
                        assert(c == i) by {
                            if c < i {
                                assert(crop_present(crops, required_crops[c]));
                            } else if c > i {
                                assert(crop_present(crops, required_crops[i as int]));
                            }
                        }
                    }
                    return Err(ContentError::MissingRequired(name.to_string()));
                },
                Some(definition) => {
                    if definition.stages.len() < 2 {
                        proof {
                            reveal_strlit(" needs at least two growth stages");
                            reveal_strlit("crop");
                            assert(!crop_present(crops, required_crops[i as int]));
                            let c = choose|k: int|
                                0 <= k < 4 && !crop_present(crops, #[trigger] required_crops[k]) && forall|j: int|
                                    0 <= j < k ==> crop_present(crops, #[trigger] required_crops[j]);
                            assert(c == i) by {
                                if c < i {
                                    assert(crop_present(crops, required_crops[c]));
                                } else if c > i {
                                    assert(crop_present(crops, required_crops[i as int]));
                                }
                            }
                        }
                        let message = crate::text::text_with_text(name, " needs at least two growth stages");
                        return Err(ContentError::Invalid { kind: "crop", message });
                    }
                },
            }
            i += 1;
        }
        let mut k: usize = 0;
        while k < 4
            invariant
                k <= 4,
                self.robots.wf(),
                robots == self.robots.to_map(),
                crops == self.crops.to_map(),
                robot_names@.map_values(|s: &'static str| s@) == required_robots,
                required_robots == seq![
                    "basic_rover"@,
                    "pollination_drone"@,
                    "field_quadruped"@,
                    "biped_farmhand"@,
                ],
                required_crops == seq!["wheat"@, "potato"@, "tomato"@, "strawberry"@],
                forall|j: int| 0 <= j < 4 ==> crop_present(crops, #[trigger] required_crops[j]),
                forall|j: int| 0 <= j < k ==> robots.contains_key(#[trigger] required_robots[j]),
            decreases 4 - k,
        {
            let name = robot_names[k];
            assert(name@ == required_robots[k as int]);
            if !self.robots.contains_key(name) {
                proof {
                    let c = choose|m: int|
                        0 <= m < 4 && !robots.contains_key(#[trigger] required_robots[m]) && forall|j: int|
                            0 <= j < m ==> robots.contains_key(#[trigger] required_robots[j]);
                    assert(c == k) by {
                        if c < k {
                            assert(robots.contains_key(required_robots[c]));
                        } else if c > k {
                            assert(robots.contains_key(required_robots[k as int]));
                        }
                    }
                }
                return Err(ContentError::MissingRequired(name.to_string()));
            }
            k += 1;
        }
        if self.contracts.len() < 4 {
            return Err(ContentError::MissingRequired("four starter contracts".to_string()));
        }
        Ok(())
    }

    /// Builds the catalog from definition lists and checks it.
    pub fn from_definitions(
        crops: Vec<CropDef>,
        robots: Vec<RobotDef>,
        contracts: Vec<ContractDef>,
    ) -> (r: Result<Self, ContentError>)
        ensures
            r matches Ok(catalog) ==> {
                &&& catalog.crops.wf()
                &&& catalog.robots.wf()
                &&& catalog.crops.to_map() == crops_by_id(crops@)
                &&& catalog.robots.to_map() == robots_by_id(robots@)
                &&& catalog.contracts@ == contracts@
            },
            r is Ok <==> first_content_problem(
                crops_by_id(crops@),
                robots_by_id(robots@),
                contracts@.len() as int,
            ) is None,
            r matches Err(e) ==> Some(content_error_view(e)) == first_content_problem(
                crops_by_id(crops@),
                robots_by_id(robots@),
                contracts@.len() as int,
            ),
    {
        let ghost all_crops = crops@;
        let ghost all_robots = robots@;
        let mut crops = crops;
        let mut robots = robots;
        let crop_count = crops.len();
        let robot_count = robots.len();
        let mut crop_map: TextMap<CropDef> = TextMap::new();
        let mut i: usize = 0;
        while crops.len() > 0
            invariant
                i + crops@.len() == all_crops.len(),
                all_crops.len() == crop_count,
                crops@ == all_crops.skip(i as int),
                crop_map.wf(),
                crop_map.to_map() == crops_by_id(all_crops.take(i as int)),
            decreases crops@.len(),
        {
            let definition = crops.remove(0);
            assert(definition == all_crops[i as int]);
            assert(all_crops.take(i + 1).drop_last() =~= all_crops.take(i as int));
            assert(crops@ =~= all_crops.skip(i + 1));
            let key = definition.id.clone();
            crop_map.insert(key, definition);
            i += 1;
        }
        assert(all_crops.take(i as int) =~= all_crops);
        let mut robot_map: TextMap<RobotDef> = TextMap::new();
        let mut k: usize = 0;
        while robots.len() > 0
            invariant
                k + robots@.len() == all_robots.len(),
                all_robots.len() == robot_count,
                robots@ == all_robots.skip(k as int),
                robot_map.wf(),
                robot_map.to_map() == robots_by_id(all_robots.take(k as int)),
            decreases robots@.len(),
        {
            let definition = robots.remove(0);
            assert(definition == all_robots[k as int]);
            assert(all_robots.take(k + 1).drop_last() =~= all_robots.take(k as int));
            assert(robots@ =~= all_robots.skip(k + 1));
            let key = definition.id.clone();
            robot_map.insert(key, definition);
            k += 1;
        }
        assert(all_robots.take(k as int) =~= all_robots);
        let catalog = ContentCatalog { crops: crop_map, robots: robot_map, contracts };
        match catalog.validate() {
            Ok(()) => Ok(catalog),
            Err(e) => Err(e),
        }
    }
}

} // verus!
