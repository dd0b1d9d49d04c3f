use vstd::prelude::*;

use crate::farm::Facility;
use crate::model::{FacilityKind, TilePos};
use crate::simulation::GameSimulation;

verus! {

/// The robot models a player buys in turn, one per purchase.
pub open spec fn purchase_cycle() -> Seq<Seq<char>> {
    seq![
        "paddy_rover"@,
        "rice_transplanter"@,
        "pest_control_drone"@,
        "rice_harvester"@,
        "basic_rover"@,
        "pollination_drone"@,
        "field_quadruped"@,
        "biped_farmhand"@,
    ]
}

/// The robot model of purchase number `cursor`: the models are bought in turn.
pub fn purchase_model(cursor: usize) -> (r: &'static str)
    ensures
        r@ == purchase_cycle()[(cursor % 8) as int],
{
    proof {
        reveal_strlit("paddy_rover");
        reveal_strlit("rice_transplanter");
        reveal_strlit("pest_control_drone");
        reveal_strlit("rice_harvester");
        reveal_strlit("basic_rover");
        reveal_strlit("pollination_drone");
        reveal_strlit("field_quadruped");
        reveal_strlit("biped_farmhand");
    }
    match cursor % 8 {
        0 => "paddy_rover",
        1 => "rice_transplanter",
        2 => "pest_control_drone",
        3 => "rice_harvester",
        4 => "basic_rover",
        5 => "pollination_drone",
        6 => "field_quadruped",
        _ => "biped_farmhand",
    }
}

/// The starter facilities a player builds in the utility yard, with their places.
pub open spec fn starter_facilities() -> Seq<(FacilityKind, TilePos)> {
    seq![
        (FacilityKind::SeedStorage, TilePos { x: 25, y: 20 }),
        (FacilityKind::IrrigationNode, TilePos { x: 23, y: 20 }),
        (FacilityKind::SolarGenerator, TilePos { x: 27, y: 20 }),
        (FacilityKind::Battery, TilePos { x: 29, y: 20 }),
        (FacilityKind::Packer, TilePos { x: 25, y: 22 }),
    ]
}

/// Some facility of `kind` stands on the farm.
pub open spec fn facility_of_kind(facilities: Seq<Facility>, kind: FacilityKind) -> bool {
    exists|i: int| 0 <= i < facilities.len() && #[trigger] facilities[i].kind == kind
}

/// The candidates of `candidates` whose kind the farm still lacks, in order.
pub open spec fn missing_facilities(
    facilities: Seq<Facility>,
    candidates: Seq<(FacilityKind, TilePos)>,
) -> Seq<(FacilityKind, TilePos)>
    decreases candidates.len(),
{
    if candidates.len() == 0 {
        Seq::empty()
    } else {
        let rest = missing_facilities(facilities, candidates.drop_last());
        if facility_of_kind(facilities, candidates.last().0) {
            rest
        } else {
            rest.push(candidates.last())
        }
    }
}

fn starter_facility(k: usize) -> (r: (FacilityKind, TilePos))
    requires
        k < 5,
    ensures
        r == starter_facilities()[k as int],
{
    match k {
        0 => (FacilityKind::SeedStorage, TilePos::new(25, 20)),
        1 => (FacilityKind::IrrigationNode, TilePos::new(23, 20)),
        2 => (FacilityKind::SolarGenerator, TilePos::new(27, 20)),
        3 => (FacilityKind::Battery, TilePos::new(29, 20)),
        _ => (FacilityKind::Packer, TilePos::new(25, 22)),
    }
}

impl GameSimulation {
    /// Whether some facility of `kind` stands on the farm.
    pub fn has_facility_of_kind(&self, kind: FacilityKind) -> (r: bool)
        ensures
            r == facility_of_kind(self.facilities@, kind),
    {
        let mut i: usize = 0;
        while i < self.facilities.len()
            invariant
                i <= self.facilities@.len(),
                forall|j: int| 0 <= j < i ==> #[trigger] self.facilities@[j].kind != kind,
            decreases self.facilities@.len() - i,
        {
            if self.facilities[i].kind == kind {
                return true;
            }
            i += 1;
        }
        false
    }

    /// The starter facility a player builds next: among those the farm still lacks,
    /// the one `cursor` points at (counting round); none once all of them stand.
    pub fn next_starter_facility(&self, cursor: usize) -> (r: Option<(FacilityKind, TilePos)>)
        ensures
            ({
                let missing = missing_facilities(self.facilities@, starter_facilities());
                if missing.len() == 0 {
                    r is None
                } else {
                    r == Some(missing[(cursor % missing.len() as usize) as int])
                }
            }),
    {
        let ghost all = starter_facilities();
        let mut missing: Vec<(FacilityKind, TilePos)> = Vec::new();
        let mut k: usize = 0;
        while k < 5
            invariant
                k <= 5,
                all == starter_facilities(),
                missing@ == missing_facilities(self.facilities@, all.take(k as int)),
                missing@.len() <= k,
            decreases 5 - k,
        {
            proof {
                assert(all.take(k + 1).drop_last() =~= all.take(k as int));
            }
            let candidate = starter_facility(k);
            if !self.has_facility_of_kind(candidate.0) {
                missing.push(candidate);
            }
            k += 1;
        }
        assert(all.take(5) =~= all);
        if missing.len() == 0 {
            None
        } else {
            Some(missing[cursor % missing.len()])
        }
    }
}

} // verus!
