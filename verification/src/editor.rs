use vstd::prelude::*;
use vstd::string::*;

use crate::command::{CommandActor, CommandEnvelope, CommandError, EditorCommand, GameCommand};
use crate::dispatch::{command_applied, game_command_fits};
use crate::model::{FacilityKind, TilePos};
use crate::simulation::{is_white_space, text_is_blank, GameSimulation};

verus! {

/// What a preview marker stands for.
#[derive(Debug, Clone, Copy, PartialEq, Eq, Structural)]
pub enum PreviewKind {
    Field,
    Facility,
    Robot,
    Environment,
}

/// A rectangle the editor highlights before a plan is applied.
#[derive(Debug, PartialEq, Eq)]
pub struct PreviewMarker {
    pub kind: PreviewKind,
    pub position: TilePos,
    pub size: (u32, u32),
    pub label: String,
}

impl Clone for PreviewMarker {
    fn clone(&self) -> (r: Self)
        ensures
            r == *self,
    {
        PreviewMarker { kind: self.kind, position: self.position, size: self.size, label: self.label.clone() }
    }
}

/// The language-model settings an editor plan is made with: the model, its sampling
/// temperature in hundredths, the output budget, the time limit and the answer schema.
#[derive(Debug, Clone, PartialEq, Eq)]
pub struct EditorRequestParams {
    pub model: String,
    pub temperature_hundredths: u16,
    pub max_output_tokens: u32,
    pub timeout_ms: u64,
    pub response_schema: String,
}

/// The settings of the editor's requests: the default model settings with a sampling
/// temperature of 0.2.
pub open spec fn editor_params_ok(p: EditorRequestParams) -> bool {
    &&& p.model@ == "mock-autofarm-v1"@
    &&& p.temperature_hundredths == 20
    &&& p.max_output_tokens == 1200
    &&& p.timeout_ms == 8000
    &&& p.response_schema@ == "NpcDecisionV1"@
}

/// The settings of the editor's requests.
pub fn editor_request_params() -> (r: EditorRequestParams)
    ensures
        editor_params_ok(r),
{
    EditorRequestParams {
        model: "mock-autofarm-v1".to_string(),
        temperature_hundredths: 20,
        max_output_tokens: 1200,
        timeout_ms: 8000,
        response_schema: "NpcDecisionV1".to_string(),
    }
}

/// A change to the world the editor proposes, planned against a world revision.
#[derive(Debug, Clone, PartialEq)]
pub struct EditorPlan {
    pub summary: String,
    pub rationale: String,
    pub expected_world_revision: u64,
    pub commands: Vec<EditorCommand>,
    pub preview: Vec<PreviewMarker>,
    pub params: EditorRequestParams,
}

/// Why the editor could not do what was asked.
#[derive(Debug, Clone, PartialEq)]
pub enum EditorError {
    UnsupportedIntent,
    NoPendingPlan,
    NoUndoHistory,
    Command(CommandError),
}

/// The lower-case form of a text, character by character as Unicode defines it.
pub uninterp spec fn lowercase_of(s: Seq<char>) -> Seq<char>;

/// `str::to_lowercase`.
#[verifier::external_body]
fn text_to_lowercase(s: &str) -> (r: String)
    ensures
        r@ == lowercase_of(s@),
{
    s.to_lowercase()
}

/// `needle` occurs in `hay` at `start`.
pub open spec fn occurs_at(hay: Seq<char>, needle: Seq<char>, start: int) -> bool {
    0 <= start && start + needle.len() <= hay.len() && hay.subrange(start, start + needle.len()) == needle
}

/// `needle` occurs somewhere in `hay`.
pub open spec fn contains_text(hay: Seq<char>, needle: Seq<char>) -> bool {
    exists|start: int| #[trigger] occurs_at(hay, needle, start)
}

/// Whether `needle` occurs in `hay`.
pub fn text_contains(hay: &str, needle: &str) -> (r: bool)
    ensures
        r == contains_text(hay@, needle@),
{
    let n = hay.unicode_len();
    let m = needle.unicode_len();
    if m > n {
        assert forall|start: int| !occurs_at(hay@, needle@, start) by {}
        return false;
    }
    let mut start: usize = 0;
    while start <= n - m
        invariant
            n == hay@.len(),
            m == needle@.len(),
            m <= n,
            start <= n - m + 1,
            forall|s: int| 0 <= s < start ==> !occurs_at(hay@, needle@, s),
        decreases n - start,
    {
        let mut k: usize = 0;
        let mut same = true;
        while k < m
            invariant
                n == hay@.len(),
                m == needle@.len(),
                start + m <= n,
                k <= m,
                same == forall|j: int| 0 <= j < k ==> hay@[start + j] == needle@[j],
            decreases m - k,
        {
            if hay.get_char(start + k) != needle.get_char(k) {
                same = false;
            }
            k += 1;
        }
        if same {
            assert(hay@.subrange(start as int, start + m) =~= needle@);
            assert(occurs_at(hay@, needle@, start as int));
            return true;
        }
        assert(!occurs_at(hay@, needle@, start as int)) by {
            if occurs_at(hay@, needle@, start as int) {
                let j = choose|j: int| 0 <= j < m && hay@[start + j] != needle@[j];
                assert(hay@.subrange(start as int, start + m)[j] == hay@[start + j]);
            }
        }
        start += 1;
    }
    assert forall|s: int| !occurs_at(hay@, needle@, s) by {
        if s >= start {
            assert(s + m > n);
        }
    }
    false
}

/// Index of the first character of `s` that is not white space (its length if none).
pub open spec fn trim_start(s: Seq<char>) -> int {
    if exists|i: int| 0 <= i < s.len() && !is_white_space(#[trigger] s[i]) {
        choose|i: int| 0 <= i < s.len() && !is_white_space(s[i]) && forall|j: int| 0 <= j < i ==> is_white_space(#[trigger] s[j])
    } else {
        s.len() as int
    }
}

/// One past the last character of `s` that is not white space (0 if none).
pub open spec fn trim_end(s: Seq<char>) -> int {
    if exists|i: int| 0 <= i < s.len() && !is_white_space(#[trigger] s[i]) {
        1 + choose|i: int| 0 <= i < s.len() && !is_white_space(s[i]) && forall|j: int| i < j < s.len() ==> is_white_space(#[trigger] s[j])
    } else {
        0
    }
}

/// `s` without leading and trailing white space.
pub open spec fn trimmed(s: Seq<char>) -> Seq<char> {
    if trim_start(s) < trim_end(s) {
        s.subrange(trim_start(s), trim_end(s))
    } else {
        Seq::empty()
    }
}

/// `s` without leading and trailing white space.
pub fn text_trim(s: &str) -> (r: String)
    ensures
        r@ == trimmed(s@),
{
    let n = s.unicode_len();
    let mut first: usize = 0;
    while first < n && crate::simulation::char_is_whitespace(s.get_char(first))
        invariant
            n == s@.len(),
            first <= n,
            forall|j: int| 0 <= j < first ==> is_white_space(#[trigger] s@[j]),
        decreases n - first,
    {
        first += 1;
    }
    if first == n {
        assert(!exists|i: int| 0 <= i < s@.len() && !is_white_space(#[trigger] s@[i]));
        return String::new();
    }
    let mut last: usize = n - 1;
    while last > first && crate::simulation::char_is_whitespace(s.get_char(last))
        invariant
            n == s@.len(),
            first < n,
            first <= last < n,
            !is_white_space(s@[first as int]),
            forall|j: int| last < j < n ==> is_white_space(#[trigger] s@[j]),
        decreases last,
    {
        last -= 1;
    }
    proof {
        let a = choose|i: int| 0 <= i < s@.len() && !is_white_space(s@[i]) && forall|j: int| 0 <= j < i ==> is_white_space(#[trigger] s@[j]);
        if a < first {
            assert(is_white_space(s@[a]));
        } else if a > first {
            assert(is_white_space(s@[first as int]));
        }
        assert(!is_white_space(s@[last as int]));
        let b = choose|i: int| 0 <= i < s@.len() && !is_white_space(s@[i]) && forall|j: int| i < j < s@.len() ==> is_white_space(#[trigger] s@[j]);
        if b < last {
            assert(is_white_space(s@[last as int]));
        } else if b > last {
            assert(is_white_space(s@[b]));
        }
    }
    s.substring_char(first, last + 1).to_string()
}

/// The prompt as the editor reads it: trimmed and in lower case.
pub open spec fn normalized_prompt(prompt: Seq<char>) -> Seq<char> {
    lowercase_of(trimmed(prompt))
}

/// Which change a normalized prompt asks for: a rice cell (0), a tomato cell (1), a
/// wheat field (2), a drone (3), checked in that order; -1 for none of them.
pub open spec fn intent_of(normalized: Seq<char>) -> int {
    if contains_text(normalized, "rice"@) || contains_text(normalized, "水稻"@) || contains_text(normalized, "稻田"@) {
        0
    } else if contains_text(normalized, "tomato"@) || contains_text(normalized, "番茄"@) {
        1
    } else if contains_text(normalized, "wheat"@) || contains_text(normalized, "小麦"@) {
        2
    } else if contains_text(normalized, "drone"@) || contains_text(normalized, "无人机"@) {
        3
    } else {
        -1
    }
}

pub open spec fn zone_command(c: EditorCommand, x: u32, y: u32, w: u32, h: u32, crop: Seq<char>) -> bool {
    c matches EditorCommand::CreateFieldZone { origin, size, crop_id } && origin == (TilePos { x, y }) && size == (
    w, h) && crop_id@ == crop
}

pub open spec fn spawn_command(c: EditorCommand, def: Seq<char>, n: u8, x: u32, y: u32) -> bool {
    c matches EditorCommand::SpawnRobot { robot_def_id, count, position } && robot_def_id@ == def && count == n
        && position == (TilePos { x, y })
}

pub open spec fn marker_is(m: PreviewMarker, kind: PreviewKind, x: u32, y: u32, w: u32, h: u32, label: Seq<char>) -> bool {
    m.kind == kind && m.position == (TilePos { x, y }) && m.size == (w, h) && m.label@ == label
}

/// The plan for intent `intent`, planned against `revision`.
pub open spec fn plan_is(plan: EditorPlan, intent: int, revision: u64) -> bool {
    let c = plan.commands@;
    let p = plan.preview@;
    &&& plan.expected_world_revision == revision
    &&& editor_params_ok(plan.params)
    &&& intent == 0 ==> {
        &&& plan.summary@ == "Create a second autonomous rice cell"@
        &&& plan.rationale@ == "The plan pairs a flooded paddy with the four specialist machines required for preparation, transplanting, protection, and harvest."@
        &&& c.len() == 5
        &&& zone_command(c[0], 10, 2, 10, 8, "rice"@)
        &&& spawn_command(c[1], "paddy_rover"@, 1, 53, 13)
        &&& spawn_command(c[2], "rice_transplanter"@, 1, 53, 13)
        &&& spawn_command(c[3], "pest_control_drone"@, 1, 53, 13)
        &&& spawn_command(c[4], "rice_harvester"@, 1, 53, 13)
        &&& p.len() == 2
        &&& marker_is(p[0], PreviewKind::Field, 10, 2, 10, 8, "Flooded Rice Paddy"@)
        &&& marker_is(p[1], PreviewKind::Robot, 53, 13, 2, 2, "Rice Specialist Fleet"@)
    }
    &&& intent == 1 ==> {
        &&& plan.summary@ == "Create the north tomato automation cell"@
        &&& plan.rationale@ == "The zone includes irrigation coverage and two pollination drones so its crop-specific bottleneck is visible immediately."@
        &&& c.len() == 3
        &&& zone_command(c[0], 1, 20, 4, 12, "tomato"@)
        &&& c[1] == (EditorCommand::PlaceBuilding { kind: FacilityKind::IrrigationNode, position: TilePos { x: 5, y: 25 } })
        &&& spawn_command(c[2], "pollination_drone"@, 2, 5, 27)
        &&& p.len() == 3
        &&& marker_is(p[0], PreviewKind::Field, 1, 20, 4, 12, "Tomato Field"@)
        &&& marker_is(p[1], PreviewKind::Facility, 5, 25, 1, 1, "Irrigation"@)
        &&& marker_is(p[2], PreviewKind::Robot, 5, 27, 1, 1, "2 x Pollen Drone"@)
    }
    &&& intent == 2 ==> {
        &&& plan.summary@ == "Create a west wheat production field"@
        &&& plan.rationale@ == "A compact field fits the existing rover fleet and provides stable contract throughput."@
        &&& c.len() == 1
        &&& zone_command(c[0], 1, 38, 4, 6, "wheat"@)
        &&& p.len() == 1
        &&& marker_is(p[0], PreviewKind::Field, 1, 38, 4, 6, "Wheat Field"@)
    }
    &&& intent == 3 ==> {
        &&& plan.summary@ == "Add one pollination drone"@
        &&& plan.rationale@ == "The extra flight unit reduces pollination backlog without changing field geometry."@
        &&& c.len() == 1
        &&& spawn_command(c[0], "pollination_drone"@, 1, 31, 29)
        &&& p.len() == 1
        &&& marker_is(p[0], PreviewKind::Robot, 31, 29, 1, 1, "Pollen Drone"@)
    }
}

fn zone_cmd(x: u32, y: u32, w: u32, h: u32, crop: &str) -> (c: EditorCommand)
    ensures
        zone_command(c, x, y, w, h, crop@),
{
    EditorCommand::CreateFieldZone { origin: TilePos::new(x, y), size: (w, h), crop_id: crop.to_string() }
}

fn spawn_cmd(def: &str, n: u8, x: u32, y: u32) -> (c: EditorCommand)
    ensures
        spawn_command(c, def@, n, x, y),
{
    EditorCommand::SpawnRobot { robot_def_id: def.to_string(), count: n, position: TilePos::new(x, y) }
}

fn marker(kind: PreviewKind, x: u32, y: u32, w: u32, h: u32, label: &str) -> (m: PreviewMarker)
    ensures
        marker_is(m, kind, x, y, w, h, label@),
{
    PreviewMarker { kind, position: TilePos::new(x, y), size: (w, h), label: label.to_string() }
}

fn rice_plan(revision: u64) -> (plan: EditorPlan)
    ensures
        plan_is(plan, 0, revision),
{
    let mut commands: Vec<EditorCommand> = Vec::new();
    commands.push(zone_cmd(10, 2, 10, 8, "rice"));
    commands.push(spawn_cmd("paddy_rover", 1, 53, 13));
    commands.push(spawn_cmd("rice_transplanter", 1, 53, 13));
    commands.push(spawn_cmd("pest_control_drone", 1, 53, 13));
    commands.push(spawn_cmd("rice_harvester", 1, 53, 13));
    let mut preview: Vec<PreviewMarker> = Vec::new();
    preview.push(marker(PreviewKind::Field, 10, 2, 10, 8, "Flooded Rice Paddy"));
    preview.push(marker(PreviewKind::Robot, 53, 13, 2, 2, "Rice Specialist Fleet"));
    EditorPlan {
        summary: "Create a second autonomous rice cell".to_string(),
        rationale: "The plan pairs a flooded paddy with the four specialist machines required for preparation, transplanting, protection, and harvest.".to_string(),
        expected_world_revision: revision,
        commands,
        preview,
        params: editor_request_params(),
    }
}

fn tomato_plan(revision: u64) -> (plan: EditorPlan)
    ensures
        plan_is(plan, 1, revision),
{
    let mut commands: Vec<EditorCommand> = Vec::new();
    commands.push(zone_cmd(1, 20, 4, 12, "tomato"));
    commands.push(EditorCommand::PlaceBuilding { kind: FacilityKind::IrrigationNode, position: TilePos::new(5, 25) });
    commands.push(spawn_cmd("pollination_drone", 2, 5, 27));
    let mut preview: Vec<PreviewMarker> = Vec::new();
    preview.push(marker(PreviewKind::Field, 1, 20, 4, 12, "Tomato Field"));
    preview.push(marker(PreviewKind::Facility, 5, 25, 1, 1, "Irrigation"));
    preview.push(marker(PreviewKind::Robot, 5, 27, 1, 1, "2 x Pollen Drone"));
    EditorPlan {
        summary: "Create the north tomato automation cell".to_string(),
        rationale: "The zone includes irrigation coverage and two pollination drones so its crop-specific bottleneck is visible immediately.".to_string(),
        expected_world_revision: revision,
        commands,
        preview,
        params: editor_request_params(),
    }
}

fn wheat_plan(revision: u64) -> (plan: EditorPlan)
    ensures
        plan_is(plan, 2, revision),
{
    let mut commands: Vec<EditorCommand> = Vec::new();
    commands.push(zone_cmd(1, 38, 4, 6, "wheat"));
    let mut preview: Vec<PreviewMarker> = Vec::new();
    preview.push(marker(PreviewKind::Field, 1, 38, 4, 6, "Wheat Field"));
    EditorPlan {
        summary: "Create a west wheat production field".to_string(),
        rationale: "A compact field fits the existing rover fleet and provides stable contract throughput.".to_string(),
        expected_world_revision: revision,
        commands,
        preview,
        params: editor_request_params(),
    }
}

fn drone_plan(revision: u64) -> (plan: EditorPlan)
    ensures
        plan_is(plan, 3, revision),
{
    let mut commands: Vec<EditorCommand> = Vec::new();
    commands.push(spawn_cmd("pollination_drone", 1, 31, 29));
    let mut preview: Vec<PreviewMarker> = Vec::new();
    preview.push(marker(PreviewKind::Robot, 31, 29, 1, 1, "Pollen Drone"));
    EditorPlan {
        summary: "Add one pollination drone".to_string(),
        rationale: "The extra flight unit reduces pollination backlog without changing field geometry.".to_string(),
        expected_world_revision: revision,
        commands,
        preview,
        params: editor_request_params(),
    }
}

/// Turns a request in words into a plan of editor commands with a preview: a second
/// rice cell, a tomato cell, a wheat field or one more drone, by the first keyword
/// found; anything else is not understood.
pub fn plan_for_intent(prompt: &str, revision: u64) -> (r: Result<EditorPlan, EditorError>)
    ensures
        intent_of(normalized_prompt(prompt@)) == -1 <==> r is Err,
        r matches Err(e) ==> e == EditorError::UnsupportedIntent,
        r matches Ok(plan) ==> plan_is(plan, intent_of(normalized_prompt(prompt@)), revision),
{
    let trimmed_prompt = text_trim(prompt);
    let normalized = text_to_lowercase(trimmed_prompt.as_str());
    let n = normalized.as_str();
    if text_contains(n, "rice") || text_contains(n, "水稻") || text_contains(n, "稻田") {
        return Ok(rice_plan(revision));
    }
    if text_contains(n, "tomato") || text_contains(n, "番茄") {
        return Ok(tomato_plan(revision));
    }
    if text_contains(n, "wheat") || text_contains(n, "小麦") {
        return Ok(wheat_plan(revision));
    }
    if text_contains(n, "drone") || text_contains(n, "无人机") {
        return Ok(drone_plan(revision));
    }
    Err(EditorError::UnsupportedIntent)
}

/// The envelope that editor command `command` gets on `sim`: the next command id,
/// issued by the editor AI against the current revision.
pub open spec fn editor_envelope(sim: GameSimulation, command: EditorCommand) -> CommandEnvelope {
    CommandEnvelope {
        id: sim.next_command_id,
        actor: CommandActor::EditorAi,
        expected_world_revision: sim.world_revision,
        command: GameCommand::Editor(command),
    }
}

/// The command can be issued and carried out on `sim` with every counter in range.
pub open spec fn editor_action_fits(sim: GameSimulation, command: EditorCommand) -> bool {
    sim.next_command_id < u64::MAX && game_command_fits(sim, GameCommand::Editor(command))
}

/// `b` and `r` are what editor command `command` gives on `a`: it takes the next
/// command id and is applied.
#[verifier::opaque]
pub open spec fn editor_action_taken(
    a: GameSimulation,
    b: GameSimulation,
    command: EditorCommand,
    r: Result<(), CommandError>,
) -> bool {
    command_applied(
        GameSimulation { next_command_id: (a.next_command_id + 1) as u64, ..a },
        b,
        editor_envelope(a, command),
        r,
    )
}

/// Command `k` of the trace `states` fitted and was accepted.
pub open spec fn editor_step_accepted(states: Seq<GameSimulation>, commands: Seq<EditorCommand>, k: int) -> bool {
    editor_action_fits(states[k], commands[k]) && editor_action_taken(states[k], states[k + 1], commands[k], Ok(()))
}

/// `states` are the farm before and after each of the first `states.len() - 1`
/// commands, every one of them accepted.
pub open spec fn editor_commands_accepted(states: Seq<GameSimulation>, commands: Seq<EditorCommand>) -> bool {
    &&& 1 <= states.len() <= commands.len() + 1
    &&& forall|k: int| 0 <= k < states.len() - 1 ==> #[trigger] editor_step_accepted(states, commands, k)
}

/// How a plan ends after the accepted commands traced by `states`: with every command
/// accepted, the farm is the last state; otherwise the next command either finds the
/// command counters exhausted or is refused, the farm is put back to `rollback`, and
/// the plan fails with that refusal.
pub open spec fn editor_plan_ended(
    states: Seq<GameSimulation>,
    fin: GameSimulation,
    commands: Seq<EditorCommand>,
    rollback: GameSimulation,
    r: Result<(), CommandError>,
) -> bool {
    let k = states.len() - 1;
    let last = states.last();
    if k == commands.len() {
        r is Ok && fin == last
    } else if !editor_action_fits(last, commands[k]) {
        &&& r matches Err(CommandError::Invalid(m)) && m@ == "command counters are exhausted"@
        &&& fin == rollback
    } else {
        &&& r is Err
        &&& exists|m: GameSimulation| editor_action_taken(last, m, commands[k], r)
        &&& fin == rollback
    }
}

impl GameSimulation {
    /// Issues `command` for the editor AI and applies it.
    fn take_editor_action(&mut self, command: EditorCommand) -> (r: Result<(), CommandError>)
        requires
            old(self).wf(),
            editor_action_fits(*old(self), command),
        ensures
            final(self).wf(),
            editor_action_taken(*old(self), *final(self), command, r),
    {
        let envelope = self.next_command(CommandActor::EditorAi, GameCommand::Editor(command));
        assert forall|i: int| crate::campaign::deadline_fits(*self, i) by {
            assert(crate::campaign::deadline_fits(*old(self), i));
        }
        let r = self.apply_command(envelope);
        proof {
            reveal(editor_action_taken);
        }
        r
    }

    /// Carries out the commands of an editor plan made against revision
    /// `expected_world_revision`, in order, as the editor AI. A plan made against
    /// another revision is refused as stale and changes nothing. When a command is
    /// refused, the farm is put back to `rollback` (the caller's copy of the farm from
    /// before the plan) and the refusal is returned.
    pub fn apply_editor_commands(
        &mut self,
        expected_world_revision: u64,
        commands: Vec<EditorCommand>,
        rollback: GameSimulation,
    ) -> (r: Result<(), CommandError>)
        requires
            old(self).wf(),
        ensures
            r is Ok ==> final(self).wf(),
            expected_world_revision != old(self).world_revision ==> r == Err::<(), CommandError>(
                CommandError::StaleRevision { expected: expected_world_revision, current: old(self).world_revision },
            ) && *final(self) == *old(self),
            expected_world_revision == old(self).world_revision ==> exists|states: Seq<GameSimulation>|
                states[0] == *old(self) && editor_commands_accepted(states, commands@) && editor_plan_ended(
                    states,
                    *final(self),
                    commands@,
                    rollback,
                    r,
                ),
    {
        if expected_world_revision != self.world_revision {
            return Err(
                CommandError::StaleRevision { expected: expected_world_revision, current: self.world_revision },
            );
        }
        let ghost all = commands@;
        let ghost mut states: Seq<GameSimulation> = seq![*self];
        let mut pending = commands;
        while pending.len() > 0
            invariant
                self.wf(),
                expected_world_revision == old(self).world_revision,
                all == commands@,
                1 <= states.len(),
                states[0] == *old(self),
                states.last() == *self,
                editor_commands_accepted(states, all),
                states.len() - 1 + pending@.len() == all.len(),
                pending@ == all.subrange(states.len() - 1, all.len() as int),
            decreases pending@.len(),
        {
            let ghost k = states.len() - 1;
            let command = pending.remove(0);
            assert(command == all[k]);
            let fits = self.next_command_id < u64::MAX && self.editor_command_fits_now(&command);
            if !fits {
                let r = Err(CommandError::Invalid("command counters are exhausted".to_string()));
                assert(editor_plan_ended(states, rollback, all, rollback, r));
                *self = rollback;
                return r;
            }
            let ghost before = *self;
            let outcome = self.take_editor_action(command);
            match outcome {
                Err(e) => {
                    let r: Result<(), CommandError> = Err(e);
                    let ghost refused = *self;
                    assert(editor_action_taken(before, refused, all[k], r));
                    assert(editor_plan_ended(states, rollback, all, rollback, r));
                    *self = rollback;
                    return r;
                },
                Ok(()) => {},
            }
            proof {
                match outcome {
                    Ok(u) => {
                        assert(u == ());
                    },
                    Err(_) => {},
                }
                let next = states.push(*self);
                assert forall|j: int| 0 <= j < next.len() - 1 implies #[trigger] editor_step_accepted(next, all, j) by {
                    if j < k {
                        assert(editor_step_accepted(states, all, j));
                        assert(states[j] == next[j] && states[j + 1] == next[j + 1]);
                    } else {
                        assert(next[j] == before && next[j + 1] == *self);
                    }
                }
                states = next;
                assert(pending@ =~= all.subrange(states.len() - 1, all.len() as int));
            }
        }
        assert(editor_plan_ended(states, *self, all, rollback, Ok(())));
        Ok(())
    }

    /// Undoes an editor change: the farm becomes `previous`, the copy kept from before
    /// the change, with its revision moved on past the current one, so that plans made
    /// before the undo are refused as stale.
    pub fn revert_to(&mut self, previous: GameSimulation)
        requires
            old(self).world_revision < u64::MAX,
        ensures
            *final(self) == (GameSimulation { world_revision: (old(self).world_revision + 1) as u64, ..previous }),
    {
        let revision = self.world_revision + 1;
        *self = previous;
        self.world_revision = revision;
    }
}

/// A plan previewed before an undo is refused as stale after it: the undo moves the
/// farm's revision past every revision such a plan can have been made against.
pub proof fn undo_outdates_earlier_plans(
    before_undo: GameSimulation,
    previous: GameSimulation,
    after_undo: GameSimulation,
    planned_against: u64,
)
    requires
        before_undo.world_revision < u64::MAX,
        after_undo == (GameSimulation { world_revision: (before_undo.world_revision + 1) as u64, ..previous }),
        planned_against <= before_undo.world_revision,
    ensures
        planned_against != after_undo.world_revision,
        after_undo.world_revision > before_undo.world_revision,
{
}

} // verus!
