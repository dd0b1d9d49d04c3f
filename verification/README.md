# autofarm

A deterministic farm-automation simulation: a grid of paddies and fields, crops that
grow through their stages with the calendar and the weather, a job scheduler that
follows each field's cultivation gates in 3×3 patches, a robot fleet that routes
around water, channels, bunds and planted cells, contracts, an economy, autonomy
trials, NPC farm managers and a world editor whose plans pass the same permission and
revision checks as every other command.

## Layout

- `src/` — the library, verified with Verus. Each operation states what it does to
  the farm in its contract, and the laws the farm obeys (four-season calendar, cost-
  optimal routing that keeps wheeled robots off channels, bunds and crops, reserved
  cells, cultivation gates, the job cycle of a robot, stale plans being refused,
  refused commands changing nothing, …) are proof functions.
  - `model`, `clock`, `grid`, `map`, `content`, `inventory`, `textmap`, `text`: the
    data of the farm and its invariants.
  - `command`, `validation`, `execution`, `dispatch`: commands, who may issue them,
    why they are refused and what they change.
  - `environment`, `scheduling`, `fleet`, `robots`, `work`, `campaign`: one minute of
    the farm — weather and crops, job generation, assignment and motion planning,
    the robot state machine, work on patches, logistics and contracts.
  - `pathfinding`: best-first search for the first step of a cheapest ground route.
  - `setup`, `census`, `npc`, `editor`, `actions`: a new farm, snapshots and saves,
    NPC turns, editor plans and undo, and the player's next purchase and build.
- `tests/` — tests of the library.
- `app/` — a headless program around the library: it reads the RON content and map,
  keeps the figures the library does not (batteries, motion and work progress, power
  and water, trial reports), talks to a language-model provider for NPC turns, and
  saves and loads farms.
