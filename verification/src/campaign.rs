use vstd::prelude::*;

use crate::execution::{logged, logged_notice, notice_of, Notice};
use crate::farm::{ActiveContract, AutonomyTrial, FarmEvent};
use crate::content::ItemRequirement;
use crate::inventory::{accepted_amount, stock_after_add, stock_of};
use crate::model::{ContractStatus, FacilityKind};
use crate::simulation::GameSimulation;
use crate::textmap::TextMap;

verus! {

/// `b` is `a` after contract `index` is accepted: it becomes the current contract,
/// active from now until its deadline, with nothing delivered yet; an index past
/// the campaign changes nothing.
pub open spec fn contract_activated(a: GameSimulation, b: GameSimulation, index: int) -> bool {
    if 0 <= index < a.contracts@.len() {
        let c = a.contracts@[index];
        let n = b.contracts@[index];
        &&& b == GameSimulation {
            contracts: b.contracts,
            current_contract: Some(index as usize),
            events: b.events,
            ..a
        }
        &&& b.contracts@.len() == a.contracts@.len()
        &&& forall|j: int| 0 <= j < a.contracts@.len() && j != index ==> #[trigger] b.contracts@[j] == a.contracts@[j]
        &&& n.definition == c.definition
        &&& n.status == ContractStatus::Active
        &&& n.accepted_at == a.clock.minute
        &&& n.deadline == a.clock.minute + c.definition.deadline_minutes
        &&& n.delivered.wf()
        &&& n.delivered.to_map() == Map::<Seq<char>, u32>::empty()
        &&& n.priority == c.priority
        &&& logged_notice(a.events@, b.events@, Notice::ContractAccepted(c.definition.id@))
    } else {
        b == a
    }
}

/// The deadline of contract `index`, if it were accepted now, fits the clock.
pub open spec fn deadline_fits(sim: GameSimulation, index: int) -> bool {
    0 <= index < sim.contracts@.len() ==> sim.clock.minute + sim.contracts@[index].definition.deadline_minutes
        <= u64::MAX
}

impl GameSimulation {
    /// Accepts contract `index` now and makes it the current one.
    pub fn activate_contract(&mut self, index: usize)
        requires
            old(self).wf(),
            deadline_fits(*old(self), index as int),
        ensures
            final(self).wf(),
            contract_activated(*old(self), *final(self), index as int),
    {
        if index >= self.contracts.len() {
            return;
        }
        let minute = self.clock.minute;
        let deadline = minute + self.contracts[index].definition.deadline_minutes;
        let id = self.contracts[index].definition.id.clone();
        self.contracts[index].status = ContractStatus::Active;
        self.contracts[index].accepted_at = minute;
        self.contracts[index].deadline = deadline;
        self.contracts[index].delivered = TextMap::new();
        self.current_contract = Some(index);
        let ghost before = self.events@;
        let event = FarmEvent::ContractAccepted(id);
        let ghost ev = event;
        self.push_event(event);
        assert(self.events@ == logged(before, ev) && notice_of(ev) == Notice::ContractAccepted(old(self).contracts@[index as int].definition.id@));
    }
}

} // verus!

verus! {

/// `b` is `a` after moving on to contract `index`: it is accepted and counted as
/// expected when the campaign has it; otherwise there is no current contract.
pub open spec fn next_contract_activated(a: GameSimulation, b: GameSimulation, index: int) -> bool {
    if 0 <= index < a.contracts@.len() {
        exists|m: GameSimulation|
            #[trigger] contract_activated(a, m, index) && b == GameSimulation {
                metrics: crate::farm::GameMetrics {
                    contracts_expected: (m.metrics.contracts_expected + 1) as u64,
                    ..m.metrics
                },
                ..m
            }
    } else {
        b == GameSimulation { current_contract: None, ..a }
    }
}

impl GameSimulation {
    /// Accepts contract `index` if the campaign has one, otherwise ends the campaign.
    pub fn activate_next_contract(&mut self, index: usize)
        requires
            old(self).wf(),
            deadline_fits(*old(self), index as int),
            old(self).metrics.contracts_expected < u64::MAX,
        ensures
            final(self).wf(),
            next_contract_activated(*old(self), *final(self), index as int),
    {
        if index < self.contracts.len() {
            self.activate_contract(index);
            let ghost m = *self;
            self.metrics.contracts_expected = self.metrics.contracts_expected + 1;
            assert(contract_activated(*old(self), m, index as int));
        } else {
            self.current_contract = None;
        }
    }
}

} // verus!

verus! {

/// `b` is `a` after contract `index` is fulfilled: its reward and reputation are
/// paid, it is marked completed and counted, an event tells of it, and the campaign
/// moves on to the next contract.
pub open spec fn contract_completed(a: GameSimulation, b: GameSimulation, index: int) -> bool {
    let c = a.contracts@[index];
    exists|m: GameSimulation|
        #![trigger next_contract_activated(m, b, index + 1)]
        {
            &&& m == GameSimulation {
                credits: (a.credits + c.definition.reward) as i32,
                reputation: (a.reputation + c.definition.reputation) as u32,
                contracts: m.contracts,
                metrics: crate::farm::GameMetrics {
                    contracts_fulfilled: (a.metrics.contracts_fulfilled + 1) as u64,
                    ..a.metrics
                },
                events: m.events,
                ..a
            }
            &&& m.contracts@ == a.contracts@.update(index, ActiveContract { status: ContractStatus::Completed, ..c })
            &&& logged_notice(a.events@, m.events@, Notice::ContractCompleted(c.definition.id@))
            &&& next_contract_activated(m, b, index + 1)
        }
}

/// `b` is `a` after contract `index` missed its deadline: it is marked failed and
/// counted as a failure, an event tells of it, and the campaign moves on.
pub open spec fn contract_failed(a: GameSimulation, b: GameSimulation, index: int) -> bool {
    let c = a.contracts@[index];
    exists|m: GameSimulation|
        #![trigger next_contract_activated(m, b, index + 1)]
        {
            &&& m == GameSimulation {
                contracts: m.contracts,
                metrics: crate::farm::GameMetrics { jobs_failed: (a.metrics.jobs_failed + 1) as u64, ..a.metrics },
                events: m.events,
                ..a
            }
            &&& m.contracts@ == a.contracts@.update(index, ActiveContract { status: ContractStatus::Failed, ..c })
            &&& logged_notice(a.events@, m.events@, Notice::ContractFailed(c.definition.id@))
            &&& next_contract_activated(m, b, index + 1)
        }
}

/// Closing contract `index` and moving on to the next one stays within the counters' range.
pub open spec fn closing_fits(sim: GameSimulation, index: int) -> bool {
    &&& deadline_fits(sim, index + 1)
    &&& sim.metrics.contracts_expected < u64::MAX
}

impl GameSimulation {
    /// Pays out and closes contract `index`, then moves on to the next one.
    pub fn complete_contract(&mut self, index: usize)
        requires
            old(self).wf(),
            index < old(self).contracts@.len(),
            closing_fits(*old(self), index as int),
            i32::MIN <= old(self).credits + old(self).contracts@[index as int].definition.reward <= i32::MAX,
            old(self).reputation + old(self).contracts@[index as int].definition.reputation <= u32::MAX,
            old(self).metrics.contracts_fulfilled < u64::MAX,
        ensures
            final(self).wf(),
            contract_completed(*old(self), *final(self), index as int),
    {
        let count = self.contracts.len();
        let next = index + 1;
        let id = self.contracts[index].definition.id.clone();
        self.credits = self.credits + self.contracts[index].definition.reward;
        self.reputation = self.reputation + self.contracts[index].definition.reputation;
        self.contracts[index].status = ContractStatus::Completed;
        self.metrics.contracts_fulfilled = self.metrics.contracts_fulfilled + 1;
        let ghost before = self.events@;
        let event = FarmEvent::ContractCompleted(id);
        let ghost ev = event;
        self.push_event(event);
        assert(self.events@ == logged(before, ev));
        let ghost m = *self;
        self.activate_next_contract(next);
        assert(next_contract_activated(m, *self, index + 1));
    }

    /// Marks contract `index` failed, then moves on to the next one.
    pub fn fail_contract(&mut self, index: usize)
        requires
            old(self).wf(),
            index < old(self).contracts@.len(),
            closing_fits(*old(self), index as int),
            old(self).metrics.jobs_failed < u64::MAX,
        ensures
            final(self).wf(),
            contract_failed(*old(self), *final(self), index as int),
    {
        let count = self.contracts.len();
        let next = index + 1;
        let id = self.contracts[index].definition.id.clone();
        self.contracts[index].status = ContractStatus::Failed;
        self.metrics.jobs_failed = self.metrics.jobs_failed + 1;
        let ghost before = self.events@;
        let event = FarmEvent::ContractFailed(id);
        let ghost ev = event;
        self.push_event(event);
        assert(self.events@ == logged(before, ev));
        let ghost m = *self;
        self.activate_next_contract(next);
        assert(next_contract_activated(m, *self, index + 1));
    }
}

} // verus!

verus! {

/// The stock with `moved` of `item` taken out; an item whose stock reaches zero disappears.
pub open spec fn stock_minus(m: Map<Seq<char>, u32>, item: Seq<char>, moved: int) -> Map<Seq<char>, u32> {
    if !m.contains_key(item) {
        m
    } else if moved == stock_of(m, item) {
        m.remove(item)
    } else {
        m.insert(item, (stock_of(m, item) - moved) as u32)
    }
}

/// Stock and deliveries after moving, requirement by requirement in order, as much
/// of what is still owed of each item as the stock holds.
pub open spec fn deliver_all(
    stock: Map<Seq<char>, u32>,
    delivered: Map<Seq<char>, u32>,
    reqs: Seq<ItemRequirement>,
) -> (Map<Seq<char>, u32>, Map<Seq<char>, u32>)
    decreases reqs.len(),
{
    if reqs.len() == 0 {
        (stock, delivered)
    } else {
        let (s0, d0) = deliver_all(stock, delivered, reqs.drop_last());
        let r = reqs.last();
        let have = stock_of(d0, r.item@);
        let needed = if r.amount > have {
            r.amount - have
        } else {
            0
        };
        let on_hand = stock_of(s0, r.item@);
        let moved = if needed < on_hand {
            needed
        } else {
            on_hand
        };
        (
            stock_minus(s0, r.item@, moved),
            if moved > 0 {
                d0.insert(r.item@, (have + moved) as u32)
            } else {
                d0
            },
        )
    }
}

/// Every requirement is delivered in full.
pub open spec fn requirements_met(delivered: Map<Seq<char>, u32>, reqs: Seq<ItemRequirement>) -> bool {
    forall|k: int| 0 <= k < reqs.len() ==> stock_of(delivered, (#[trigger] reqs[k]).item@) >= reqs[k].amount
}

/// `b` is `a` after the stock owed to contract `index` has been delivered to it.
pub open spec fn delivered_to_contract(a: GameSimulation, b: GameSimulation, index: int) -> bool {
    let c = a.contracts@[index];
    let (stock, delivered) = deliver_all(a.inventory.stock(), c.delivered.to_map(), c.definition.requirements@);
    &&& b == GameSimulation { inventory: b.inventory, contracts: b.contracts, ..a }
    &&& b.inventory.capacity == a.inventory.capacity
    &&& b.inventory.stock() == stock
    &&& b.contracts@.len() == a.contracts@.len()
    &&& forall|j: int| 0 <= j < a.contracts@.len() && j != index ==> #[trigger] b.contracts@[j] == a.contracts@[j]
    &&& b.contracts@[index] == (ActiveContract { delivered: b.contracts@[index].delivered, ..c })
    &&& b.contracts@[index].delivered.to_map() == delivered
}

/// `b` is `a` after the current contract `index` is settled: completed when every
/// requirement is delivered, failed once its deadline has passed, and announced as
/// near its deadline three hours before.
pub open spec fn contract_settled(a: GameSimulation, b: GameSimulation, index: int) -> bool {
    let c = a.contracts@[index];
    if requirements_met(c.delivered.to_map(), c.definition.requirements@) {
        contract_completed(a, b, index)
    } else if a.clock.minute > c.deadline {
        contract_failed(a, b, index)
    } else if c.deadline - a.clock.minute == 180 {
        &&& b == GameSimulation { events: b.events, ..a }
        &&& logged_notice(a.events@, b.events@, Notice::ContractNearDeadline(c.definition.id@))
    } else {
        b == a
    }
}

/// `b` is `a` after one minute of the contract economy: the active current contract
/// receives what it is owed from the stock and is then settled.
pub open spec fn economy_updated(a: GameSimulation, b: GameSimulation) -> bool {
    match a.current_contract {
        None => b == a,
        Some(index) => if index >= a.contracts@.len() || a.contracts@[index as int].status != ContractStatus::Active {
            b == a
        } else {
            exists|m: GameSimulation|
                #[trigger] delivered_to_contract(a, m, index as int) && contract_settled(m, b, index as int)
        },
    }
}

/// Settling the current contract stays within the counters' range.
pub open spec fn economy_fits(sim: GameSimulation) -> bool {
    match sim.current_contract {
        None => true,
        Some(index) => index < sim.contracts@.len() ==> {
            let c = sim.contracts@[index as int];
            &&& closing_fits(sim, index as int)
            &&& i32::MIN <= sim.credits + c.definition.reward <= i32::MAX
            &&& sim.reputation + c.definition.reputation <= u32::MAX
            &&& sim.metrics.contracts_fulfilled < u64::MAX
            &&& sim.metrics.jobs_failed < u64::MAX
        },
    }
}

impl GameSimulation {
    /// Delivers to contract `index` what the stock holds of what it is still owed.
    pub fn deliver_to_contract(&mut self, index: usize)
        requires
            old(self).wf(),
            index < old(self).contracts@.len(),
        ensures
            final(self).wf(),
            delivered_to_contract(*old(self), *final(self), index as int),
    {
        let ghost reqs = self.contracts@[index as int].definition.requirements@;
        let ghost c = self.contracts@[index as int];
        let n = self.contracts[index].definition.requirements.len();
        let mut k: usize = 0;
        while k < n
            invariant
                self.wf(),
                index < self.contracts@.len(),
                n == reqs.len(),
                k <= n,
                *self == (GameSimulation { inventory: self.inventory, contracts: self.contracts, ..*old(self) }),
                self.inventory.capacity == old(self).inventory.capacity,
                self.contracts@.len() == old(self).contracts@.len(),
                forall|j: int| 0 <= j < old(self).contracts@.len() && j != index ==> #[trigger] self.contracts@[j] == old(self).contracts@[j],
                self.contracts@[index as int] == (ActiveContract { delivered: self.contracts@[index as int].delivered, ..c }),
                self.contracts@[index as int].definition.requirements@ == reqs,
                (self.inventory.stock(), self.contracts@[index as int].delivered.to_map()) == deliver_all(
                    old(self).inventory.stock(),
                    c.delivered.to_map(),
                    reqs.take(k as int),
                ),
            decreases n - k,
        {
            proof {
                assert(reqs.take(k + 1).drop_last() =~= reqs.take(k as int));
                assert(reqs.take(k + 1).last() == reqs[k as int]);
            }
            let item = self.contracts[index].definition.requirements[k].item.clone();
            let owed = self.contracts[index].definition.requirements[k].amount;
            let have = self.contracts[index].delivered.get(item.as_str());
            let have: u32 = match have {
                Some(v) => *v,
                None => 0,
            };
            let needed = owed.saturating_sub(have);
            let moved = self.inventory.remove(item.as_str(), needed);
            if moved > 0 {
                self.contracts[index].delivered.insert(item, have + moved);
            }
            k += 1;
        }
        assert(reqs.take(n as int) =~= reqs);
    }
}

} // verus!

verus! {

impl GameSimulation {
    /// Whether contract `index` has received everything it asks for.
    pub fn contract_requirements_met(&self, index: usize) -> (r: bool)
        requires
            self.wf(),
            index < self.contracts@.len(),
        ensures
            r == requirements_met(
                self.contracts@[index as int].delivered.to_map(),
                self.contracts@[index as int].definition.requirements@,
            ),
    {
        let ghost reqs = self.contracts@[index as int].definition.requirements@;
        let ghost delivered = self.contracts@[index as int].delivered.to_map();
        let n = self.contracts[index].definition.requirements.len();
        let mut k: usize = 0;
        while k < n
            invariant
                self.wf(),
                index < self.contracts@.len(),
                n == reqs.len(),
                reqs == self.contracts@[index as int].definition.requirements@,
                delivered == self.contracts@[index as int].delivered.to_map(),
                k <= n,
                forall|j: int| 0 <= j < k ==> stock_of(delivered, (#[trigger] reqs[j]).item@) >= reqs[j].amount,
            decreases n - k,
        {
            let requirement = &self.contracts[index].definition.requirements[k];
            let have: u32 = match self.contracts[index].delivered.get(requirement.item.as_str()) {
                Some(v) => *v,
                None => 0,
            };
            if have < requirement.amount {
                return false;
            }
            k += 1;
        }
        true
    }

    /// One minute of the contract economy: the active current contract receives what
    /// it is owed from the stock, then is completed, failed or warned about its deadline.
    pub fn update_economy(&mut self)
        requires
            old(self).wf(),
            economy_fits(*old(self)),
        ensures
            final(self).wf(),
            economy_updated(*old(self), *final(self)),
    {
        let index = match self.current_contract {
            None => {
                return;
            },
            Some(index) => index,
        };
        if index >= self.contracts.len() {
            return;
        }
        if self.contracts[index].status != ContractStatus::Active {
            return;
        }
        self.deliver_to_contract(index);
        let ghost m = *self;
        if self.contract_requirements_met(index) {
            self.complete_contract(index);
        } else if self.clock.minute > self.contracts[index].deadline {
            self.fail_contract(index);
        } else if self.contracts[index].deadline.saturating_sub(self.clock.minute) == 180 {
            let id = self.contracts[index].definition.id.clone();
            let ghost before = self.events@;
            let event = FarmEvent::ContractNearDeadline(id);
            let ghost ev = event;
            self.push_event(event);
            assert(self.events@ == logged(before, ev));
        }
        assert(contract_settled(m, *self, index as int));
    }
}

} // verus!

verus! {

/// Stock, total and count of packed items after packing, crop by crop in order, up
/// to four of each crop into its packed product.
pub open spec fn pack_all(
    stock: Map<Seq<char>, u32>,
    total: int,
    capacity: int,
    crops: Seq<Seq<char>>,
) -> (Map<Seq<char>, u32>, int, int)
    decreases crops.len(),
{
    if crops.len() == 0 {
        (stock, total, 0)
    } else {
        let (s0, t0, p0) = pack_all(stock, total, capacity, crops.drop_last());
        let crop = crops.last();
        let on_hand = stock_of(s0, crop);
        let moved = if 4 < on_hand {
            4
        } else {
            on_hand
        };
        let s1 = stock_minus(s0, crop, moved);
        let t1 = t0 - moved;
        if moved > 0 {
            (
                stock_after_add(s1, t1, capacity, "packed_"@ + crop, moved),
                t1 + accepted_amount(t1, capacity, moved),
                p0 + moved,
            )
        } else {
            (s1, t1, p0)
        }
    }
}

/// `b` is `a` after one minute of packing: with a powered packer on the farm, up to
/// four of each crop in the stock are packed; otherwise nothing changes.
pub open spec fn logistics_updated(a: GameSimulation, b: GameSimulation) -> bool {
    if exists|i: int|
        0 <= i < a.facilities@.len() && #[trigger] a.facilities@[i].kind == FacilityKind::Packer
            && a.facilities@[i].powered {
        let (stock, total, packed) = pack_all(
            a.inventory.stock(),
            a.inventory.total(),
            a.inventory.capacity as int,
            a.catalog.crops.keys(),
        );
        &&& b == GameSimulation {
            inventory: b.inventory,
            metrics: crate::farm::GameMetrics { packed_items: (a.metrics.packed_items + packed) as u64, ..a.metrics },
            ..a
        }
        &&& b.inventory.capacity == a.inventory.capacity
        &&& b.inventory.stock() == stock
        &&& b.inventory.total() == total
    } else {
        b == a
    }
}

impl GameSimulation {
    /// Packs up to four of each crop in the stock when a powered packer stands on the farm.
    pub fn update_logistics(&mut self)
        requires
            old(self).wf(),
            old(self).metrics.packed_items + 4 * old(self).catalog.crops.entries@.len() <= u64::MAX,
        ensures
            final(self).wf(),
            logistics_updated(*old(self), *final(self)),
    {
        if !self.has_facility(FacilityKind::Packer) {
            return;
        }
        let ghost keys = self.catalog.crops.keys();
        let ghost capacity = self.inventory.capacity as int;
        let n = self.catalog.crops.entries.len();
        let mut k: usize = 0;
        let mut packed: u64 = 0;
        while k < n
            invariant
                self.wf(),
                n == keys.len(),
                keys == self.catalog.crops.keys(),
                capacity == self.inventory.capacity,
                k <= n,
                *self == (GameSimulation { inventory: self.inventory, ..*old(self) }),
                (self.inventory.stock(), self.inventory.total(), packed as int) == pack_all(
                    old(self).inventory.stock(),
                    old(self).inventory.total(),
                    capacity,
                    keys.take(k as int),
                ),
                old(self).metrics.packed_items + 4 * n <= u64::MAX,
                packed <= 4 * k,
            decreases n - k,
        {
            proof {
                assert(keys.take(k + 1).drop_last() =~= keys.take(k as int));
                assert(keys.take(k + 1).last() == keys[k as int]);
            }
            let crop = &self.catalog.crops.entries[k].0;
            let moved = self.inventory.remove(crop.as_str(), 4);
            if moved > 0 {
                let mut product = "packed_".to_string();
                product.append(crop.as_str());
                self.inventory.add(product.as_str(), moved);
                packed = packed + moved as u64;
            }
            k += 1;
        }
        assert(keys.take(n as int) =~= keys);
        self.metrics.packed_items = self.metrics.packed_items + packed;
    }
}

} // verus!

verus! {

/// The letter a trial score earns: S from 90 to 100, A in the eighties, B in the
/// seventies, C in the sixties, D otherwise.
pub open spec fn grade_of(score: u8) -> Seq<char> {
    if 90 <= score <= 100 {
        "S"@
    } else if 80 <= score <= 89 {
        "A"@
    } else if 70 <= score <= 79 {
        "B"@
    } else if 60 <= score <= 69 {
        "C"@
    } else {
        "D"@
    }
}

/// The letter a trial score earns.
pub fn autonomy_grade(score: u8) -> (r: String)
    ensures
        r@ == grade_of(score),
{
    if 90 <= score && score <= 100 {
        "S".to_string()
    } else if 80 <= score && score <= 89 {
        "A".to_string()
    } else if 70 <= score && score <= 79 {
        "B".to_string()
    } else if 60 <= score && score <= 69 {
        "C".to_string()
    } else {
        "D".to_string()
    }
}

impl GameSimulation {
    /// Starts a trial of `duration_minutes` from now, scored against the current counters.
    pub fn start_autonomy_trial(&mut self, duration_minutes: u64)
        requires
            old(self).wf(),
            old(self).clock.minute + duration_minutes <= u64::MAX,
        ensures
            final(self).wf(),
            *final(self) == (GameSimulation {
                autonomy_trial: Some(
                    AutonomyTrial {
                        start_time: old(self).clock.minute,
                        end_time: (old(self).clock.minute + duration_minutes) as u64,
                        baseline: old(self).metrics,
                        manual_interventions: 0,
                        finished: false,
                        score: None,
                        grade: None,
                    },
                ),
                events: final(self).events,
                ..*old(self)
            }),
            logged_notice(old(self).events@, final(self).events@, Notice::AutonomyTrialStarted),
    {
        self.autonomy_trial = Some(
            AutonomyTrial {
                start_time: self.clock.minute,
                end_time: self.clock.minute + duration_minutes,
                baseline: self.metrics,
                manual_interventions: 0,
                finished: false,
                score: None,
                grade: None,
            },
        );
        let ghost before = self.events@;
        self.push_event(FarmEvent::AutonomyTrialStarted);
        assert(self.events@ == logged(before, FarmEvent::AutonomyTrialStarted));
    }

    /// Whether a running trial has reached its end time.
    pub fn autonomy_trial_due(&self) -> (r: bool)
        ensures
            r == (self.autonomy_trial matches Some(t) && !t.finished && self.clock.minute >= t.end_time),
    {
        match &self.autonomy_trial {
            None => false,
            Some(trial) => !trial.finished && self.clock.minute >= trial.end_time,
        }
    }

    /// Closes the running trial with its score and the grade the score earns; the farm
    /// earns a fifth of the score in reputation and an event reports the score.
    pub fn finish_autonomy_trial(&mut self, score: u8)
        requires
            old(self).wf(),
            old(self).autonomy_trial is Some,
            old(self).reputation + score / 5 <= u32::MAX,
        ensures
            final(self).wf(),
            ({
                let t = old(self).autonomy_trial->0;
                let n = final(self).autonomy_trial->0;
                &&& *final(self) == (GameSimulation {
                    autonomy_trial: final(self).autonomy_trial,
                    reputation: (old(self).reputation + score / 5) as u32,
                    events: final(self).events,
                    ..*old(self)
                })
                &&& final(self).autonomy_trial is Some
                &&& n == (AutonomyTrial { finished: true, score: Some(score), grade: n.grade, ..t })
                &&& n.grade matches Some(g) && g@ == grade_of(score)
            }),
            logged_notice(old(self).events@, final(self).events@, Notice::AutonomyTrialCompleted(score)),
    {
        let trial = self.autonomy_trial.take();
        match trial {
            Some(mut t) => {
                t.finished = true;
                t.score = Some(score);
                t.grade = Some(autonomy_grade(score));
                self.autonomy_trial = Some(t);
            },
            None => {},
        }
        self.reputation = self.reputation + (score / 5) as u32;
        let ghost before = self.events@;
        self.push_event(FarmEvent::AutonomyTrialCompleted(score));
        assert(self.events@ == logged(before, FarmEvent::AutonomyTrialCompleted(score)));
    }
}

} // verus!
