use vstd::prelude::*;
use vstd::string::*;

use crate::clock::{day_of, day_of_season_of, season_of, year_of};
use crate::execution::{logged, logged_info, notice_of, Notice};
use crate::grid::position_of_index;
use crate::model::TilePos;
use crate::farm::FarmEvent;
use crate::content::CropDef;
use crate::grid::{CropInstance, Tile};
use crate::model::{Season, Weather};
use crate::simulation::GameSimulation;
use crate::text::{decimal, push_decimal};
use crate::textmap::text_eq;

verus! {

/// The roll of the day that picks its weather.
pub open spec fn weather_roll(seed: u64, minute: u64) -> int {
    (seed.wrapping_add((day_of(minute) * 17) as u64) % 10) as int
}

/// The weather a roll gives in a season.
pub open spec fn weather_for(season: Season, roll: int) -> Weather {
    match season {
        Season::Spring => if roll <= 3 {
            Weather::Rain
        } else if roll == 4 {
            Weather::Hot
        } else {
            Weather::Clear
        },
        Season::Summer => if roll <= 1 {
            Weather::Rain
        } else if roll <= 5 {
            Weather::Hot
        } else {
            Weather::Clear
        },
        Season::Autumn => if roll <= 2 {
            Weather::Rain
        } else if roll == 3 {
            Weather::Hot
        } else {
            Weather::Clear
        },
        Season::Winter => if roll == 0 {
            Weather::Rain
        } else {
            Weather::Clear
        },
    }
}

pub open spec fn season_name(season: Season) -> Seq<char> {
    match season {
        Season::Spring => "Spring"@,
        Season::Summer => "Summer"@,
        Season::Autumn => "Autumn"@,
        Season::Winter => "Winter"@,
    }
}

pub open spec fn weather_name(weather: Weather) -> Seq<char> {
    match weather {
        Weather::Clear => "Clear"@,
        Weather::Rain => "Rain"@,
        Weather::Hot => "Hot"@,
    }
}

/// The name of a season.
pub fn season_label(season: Season) -> (r: &'static str)
    ensures
        r@ == season_name(season),
{
    match season {
        Season::Spring => "Spring",
        Season::Summer => "Summer",
        Season::Autumn => "Autumn",
        Season::Winter => "Winter",
    }
}

/// The name of a kind of weather.
pub fn weather_label(weather: Weather) -> (r: &'static str)
    ensures
        r@ == weather_name(weather),
{
    match weather {
        Weather::Clear => "Clear",
        Weather::Rain => "Rain",
        Weather::Hot => "Hot",
    }
}

/// The text announcing a new season.
pub open spec fn season_start_text(minute: u64) -> Seq<char> {
    "Year "@ + decimal(year_of(minute) as nat) + " "@ + season_name(season_of(minute)) + " has begun."@
}

/// The text announcing the weather of the day.
pub open spec fn forecast_text(minute: u64, weather: Weather) -> Seq<char> {
    season_name(season_of(minute)) + " day "@ + decimal(day_of_season_of(minute) as nat) + " weather: "@
        + weather_name(weather)
}

/// `b` is `a` after the weather step of a minute: at the start of each day the
/// weather is rolled from the seed and the season, the first day of a season is
/// announced, then the day's weather.
pub open spec fn weather_updated(a: GameSimulation, b: GameSimulation) -> bool {
    let minute = a.clock.minute;
    if minute % 1440 == 0 {
        let weather = weather_for(season_of(minute), weather_roll(a.seed, minute));
        &&& b == GameSimulation { weather, events: b.events, ..a }
        &&& if day_of_season_of(minute) == 1 {
            exists|mid: Seq<FarmEvent>|
                #[trigger] logged_info(a.events@, mid, season_start_text(minute)) && logged_info(
                    mid,
                    b.events@,
                    forecast_text(minute, weather),
                )
        } else {
            logged_info(a.events@, b.events@, forecast_text(minute, weather))
        }
    } else {
        b == a
    }
}

impl GameSimulation {
    /// Rolls the weather at the start of a day and announces it.
    pub fn update_weather(&mut self)
        requires
            old(self).wf(),
        ensures
            final(self).wf(),
            weather_updated(*old(self), *final(self)),
    {
        if self.clock.minute % 1440 != 0 {
            return;
        }
        let day = self.clock.day();
        let roll = self.seed.wrapping_add(day * 17) % 10;
        let season = self.clock.season();
        self.weather = match season {
            Season::Spring => if roll <= 3 {
                Weather::Rain
            } else if roll == 4 {
                Weather::Hot
            } else {
                Weather::Clear
            },
            Season::Summer => if roll <= 1 {
                Weather::Rain
            } else if roll <= 5 {
                Weather::Hot
            } else {
                Weather::Clear
            },
            Season::Autumn => if roll <= 2 {
                Weather::Rain
            } else if roll == 3 {
                Weather::Hot
            } else {
                Weather::Clear
            },
            Season::Winter => if roll == 0 {
                Weather::Rain
            } else {
                Weather::Clear
            },
        };
        assert(roll == weather_roll(self.seed, self.clock.minute));
        assert(self.weather == weather_for(season_of(self.clock.minute), weather_roll(self.seed, self.clock.minute)));
        let ghost start = self.events@;
        let day_of_season = self.clock.day_of_season();
        if day_of_season == 1 {
            let mut text = "Year ".to_string();
            push_decimal(&mut text, self.clock.year());
            text.append(" ");
            text.append(season_label(season));
            text.append(" has begun.");
            assert(text@ == season_start_text(self.clock.minute));
            let event = FarmEvent::Info(text);
            let ghost ev = event;
            self.push_event(event);
            assert(self.events@ == logged(start, ev));
            assert(logged_info(start, self.events@, season_start_text(self.clock.minute)));
        }
        let ghost mid = self.events@;
        let mut text = season_label(season).to_string();
        text.append(" day ");
        push_decimal(&mut text, day_of_season);
        text.append(" weather: ");
        text.append(weather_label(self.weather));
        assert(text@ == forecast_text(self.clock.minute, self.weather));
        let event = FarmEvent::Info(text);
        let ghost ev = event;
        self.push_event(event);
        assert(self.events@ == logged(mid, ev));
        assert(logged_info(mid, self.events@, forecast_text(self.clock.minute, self.weather)));
    }
}

/// A crop is paddy rice, whose moisture is the standing water of its field.
pub open spec fn is_rice(crop: CropInstance) -> bool {
    crop.crop_id@ == "rice"@
}

pub open spec fn sat_add_cap(x: u8, y: u8, cap: u8) -> u8 {
    if x + y > cap {
        cap
    } else {
        (x + y) as u8
    }
}

pub open spec fn sat_sub(x: u8, y: u8) -> u8 {
    if x < y {
        0
    } else {
        (x - y) as u8
    }
}

/// A tile after an hour of `weather`: paddy water rises with rain and falls in sun,
/// other crops take up or lose moisture; a dry crop loses health, and a crop without
/// health is gone. Tiles without a crop are untouched.
pub open spec fn weathered_tile(t: Tile, weather: Weather) -> Tile {
    match t.crop {
        None => t,
        Some(crop) => {
            let water_level = if is_rice(crop) {
                match weather {
                    Weather::Rain => sat_add_cap(t.water_level, 8, 100),
                    Weather::Hot => sat_sub(t.water_level, 2),
                    Weather::Clear => sat_sub(t.water_level, 1),
                }
            } else {
                t.water_level
            };
            let moisture = if is_rice(crop) {
                water_level
            } else {
                match weather {
                    Weather::Rain => sat_add_cap(crop.moisture, 12, 100),
                    Weather::Hot => sat_sub(crop.moisture, 3),
                    Weather::Clear => sat_sub(crop.moisture, 1),
                }
            };
            let health = if moisture == 0 {
                sat_sub(crop.health, 1)
            } else {
                crop.health
            };
            Tile {
                water_level,
                crop: if health == 0 {
                    None
                } else {
                    Some(CropInstance { moisture, health, ..crop })
                },
                ..t
            }
        },
    }
}

/// How many crops of `tiles` an hour of `weather` kills.
pub open spec fn withered_count(tiles: Seq<Tile>, weather: Weather) -> int
    decreases tiles.len(),
{
    if tiles.len() == 0 {
        0
    } else {
        withered_count(tiles.drop_last(), weather) + if tiles.last().crop is Some
            && weathered_tile(tiles.last(), weather).crop is None {
            1int
        } else {
            0int
        }
    }
}

proof fn lemma_withered_count_bounded(tiles: Seq<Tile>, weather: Weather)
    ensures
        0 <= withered_count(tiles, weather) <= tiles.len(),
    decreases tiles.len(),
{
    if tiles.len() > 0 {
        lemma_withered_count_bounded(tiles.drop_last(), weather);
    }
}

/// `b` is `a` after the hourly environment step: every tile is weathered and the
/// crops lost are counted.
pub open spec fn environment_updated(a: GameSimulation, b: GameSimulation) -> bool {
    if a.clock.minute % 60 == 0 {
        &&& b == GameSimulation {
            grid: b.grid,
            metrics: crate::farm::GameMetrics {
                crops_lost: (a.metrics.crops_lost + withered_count(a.grid.tiles@, a.weather)) as u64,
                ..a.metrics
            },
            ..a
        }
        &&& b.grid.width == a.grid.width
        &&& b.grid.height == a.grid.height
        &&& b.grid.tiles@ == Seq::new(a.grid.tiles@.len(), |i: int| weathered_tile(a.grid.tiles@[i], a.weather))
    } else {
        b == a
    }
}

/// One hour of weather on a tile; whether its crop was lost.
fn weather_tile(t: &mut Tile, weather: Weather) -> (lost: bool)
    ensures
        *final(t) == weathered_tile(*old(t), weather),
        lost == (old(t).crop is Some && weathered_tile(*old(t), weather).crop is None),
{
    let crop = t.crop.take();
    match crop {
        None => false,
        Some(mut crop) => {
            proof {
                reveal_strlit("rice");
            }
            let rice = text_eq(crop.crop_id.as_str(), "rice");
            if rice {
                t.water_level = match weather {
                    Weather::Rain => if t.water_level > 92 {
                        100
                    } else {
                        t.water_level + 8
                    },
                    Weather::Hot => t.water_level.saturating_sub(2),
                    Weather::Clear => t.water_level.saturating_sub(1),
                };
                crop.moisture = t.water_level;
            } else {
                crop.moisture = match weather {
                    Weather::Rain => if crop.moisture > 88 {
                        100
                    } else {
                        crop.moisture + 12
                    },
                    Weather::Hot => crop.moisture.saturating_sub(3),
                    Weather::Clear => crop.moisture.saturating_sub(1),
                };
            }
            if crop.moisture == 0 {
                crop.health = crop.health.saturating_sub(1);
            }
            if crop.health == 0 {
                true
            } else {
                t.crop = Some(crop);
                false
            }
        },
    }
}

impl GameSimulation {
    /// Once an hour, weathers every tile of the farm and counts the crops lost.
    pub fn update_environment(&mut self)
        requires
            old(self).wf(),
            old(self).metrics.crops_lost + old(self).grid.tiles@.len() <= u64::MAX,
        ensures
            final(self).wf(),
            environment_updated(*old(self), *final(self)),
    {
        if self.clock.minute % 60 != 0 {
            return;
        }
        let ghost tiles = self.grid.tiles@;
        let n = self.grid.tiles.len();
        let mut i: usize = 0;
        let mut lost: u64 = 0;
        proof {
            lemma_withered_count_bounded(tiles, self.weather);
        }
        while i < n
            invariant
                self.wf(),
                n == tiles.len(),
                i <= n,
                self.grid.tiles@.len() == n,
                *self == (GameSimulation { grid: self.grid, ..*old(self) }),
                self.grid.width == old(self).grid.width,
                self.grid.height == old(self).grid.height,
                tiles == old(self).grid.tiles@,
                forall|j: int| 0 <= j < i ==> #[trigger] self.grid.tiles@[j] == weathered_tile(tiles[j], self.weather),
                forall|j: int| i <= j < n ==> #[trigger] self.grid.tiles@[j] == tiles[j],
                lost == withered_count(tiles.take(i as int), self.weather),
                old(self).metrics.crops_lost + n <= u64::MAX,
            decreases n - i,
        {
            proof {
                assert(tiles.take(i + 1).drop_last() =~= tiles.take(i as int));
                lemma_withered_count_bounded(tiles.take(i + 1), self.weather);
            }
            let mut t = self.grid.tiles[i].clone_shallow();
            let died = weather_tile(&mut t, self.weather);
            self.grid.tiles.set(i, t);
            if died {
                lost = lost + 1;
            }
            i += 1;
        }
        assert(tiles.take(n as int) =~= tiles);
        assert(self.grid.tiles@ =~= Seq::new(tiles.len(), |j: int| weathered_tile(tiles[j], self.weather)));
        self.metrics.crops_lost = self.metrics.crops_lost + lost;
    }
}

} // verus!

verus! {

/// How a crop fares in one minute, and whether it became ready or is in danger.
pub struct CropStep {
    pub crop: CropInstance,
    pub ready: bool,
    pub critical: bool,
}

/// The daily pressure of weeds, soil and pests on a paddy cell varies by position and day.
pub open spec fn field_variation(x: u32, y: u32, minute: u64) -> int {
    ((x * 7 + y * 11 + (day_of(minute) as u32)) % 5) as int
}

/// The daily wear of a growing paddy crop: weeds and compaction build up, pests
/// once it is past its second stage when the crop is prone to them; heavy pressure
/// costs health.
pub open spec fn paddy_wear(crop: CropInstance, def: CropDef, variation: int) -> CropInstance {
    let weed = sat_add_cap(crop.weed_pressure, (5 + variation) as u8, 100);
    let compaction = sat_add_cap(crop.soil_compaction, (4 + variation / 2) as u8, 100);
    let pests = def.needs_pest_control && crop.stage_index >= 2;
    let pest = if pests {
        sat_add_cap(crop.pest_pressure, (6 + variation) as u8, 100)
    } else {
        crop.pest_pressure
    };
    let health = if pest >= 70 || weed >= 80 {
        sat_sub(crop.health, 3)
    } else {
        crop.health
    };
    CropInstance {
        weed_pressure: weed,
        soil_compaction: compaction,
        pest_pressure: pest,
        pest_controlled: if pests {
            false
        } else {
            crop.pest_controlled
        },
        health,
        ..crop
    }
}

/// One minute of growth of `crop` (described by `def`) at (`x`, `y`): inspections
/// fall due every other day, paddy crops wear daily; a dry or dying crop is
/// critical and stops; a crop waiting for pollination stops; paddy rice does not
/// grow in winter and loses health each winter day; otherwise the crop advances
/// through its stages and is ready on reaching the last one.
pub open spec fn crop_step(crop: CropInstance, def: CropDef, x: u32, y: u32, minute: u64) -> CropStep {
    let day_tick = minute % 1440 == 0;
    let c1 = if minute % 2880 == 0 && def.needs_inspection {
        CropInstance { inspection_due: true, ..crop }
    } else {
        crop
    };
    let c2 = if day_tick && is_rice(c1) && c1.stage_index >= 1 {
        paddy_wear(c1, def, field_variation(x, y, minute))
    } else {
        c1
    };
    let stages = def.stages@.len();
    if c2.moisture == 0 || c2.health == 0 {
        CropStep { crop: c2, ready: false, critical: true }
    } else if def.needs_pollination && c2.stage_index >= 1 && !c2.pollinated {
        CropStep { crop: c2, ready: false, critical: false }
    } else if is_rice(c2) && season_of(minute) == Season::Winter {
        CropStep {
            crop: if day_tick {
                CropInstance { health: sat_sub(c2.health, 4), ..c2 }
            } else {
                c2
            },
            ready: false,
            critical: false,
        }
    } else if c2.stage_index >= stages {
        CropStep { crop: c2, ready: false, critical: false }
    } else if c2.stage_index + 1 == stages {
        CropStep {
            crop: CropInstance { stage_progress: def.stages@[c2.stage_index as int].duration_minutes, ..c2 },
            ready: false,
            critical: false,
        }
    } else if c2.stage_progress + 1 >= def.stages@[c2.stage_index as int].duration_minutes {
        CropStep {
            crop: CropInstance { stage_index: (c2.stage_index + 1) as usize, stage_progress: 0, ..c2 },
            ready: c2.stage_index + 2 == stages,
            critical: false,
        }
    } else {
        CropStep {
            crop: CropInstance { stage_progress: (c2.stage_progress + 1) as u32, ..c2 },
            ready: false,
            critical: false,
        }
    }
}

/// The counters of a crop stay in range for one more minute of growth, at any
/// position of a grid of `width` by `height` on any day up to `minute`'s.
pub open spec fn growth_fits(crop: CropInstance, width: u32, height: u32, minute: u64) -> bool {
    &&& crop.stage_progress < u32::MAX
    &&& 7 * (width as int) + 11 * (height as int) + (day_of(minute) as u32) <= u32::MAX
}

fn wear_paddy(crop: &mut CropInstance, def: &CropDef, variation: u8)
    requires
        variation < 5,
    ensures
        *final(crop) == paddy_wear(*old(crop), *def, variation as int),
{
    crop.weed_pressure = if crop.weed_pressure as u16 + 5 + variation as u16 > 100 {
        100
    } else {
        crop.weed_pressure + 5 + variation
    };
    crop.soil_compaction = if crop.soil_compaction as u16 + 4 + (variation / 2) as u16 > 100 {
        100
    } else {
        crop.soil_compaction + 4 + variation / 2
    };
    if def.needs_pest_control && crop.stage_index >= 2 {
        crop.pest_pressure = if crop.pest_pressure as u16 + 6 + variation as u16 > 100 {
            100
        } else {
            crop.pest_pressure + 6 + variation
        };
        crop.pest_controlled = false;
    }
    if crop.pest_pressure >= 70 || crop.weed_pressure >= 80 {
        crop.health = crop.health.saturating_sub(3);
    }
}

#[verifier::rlimit(30)]
fn grow_crop(crop: &mut CropInstance, def: &CropDef, x: u32, y: u32, minute: u64, season: Season, width: u32, height: u32) -> (r: (bool, bool))
    requires
        season == season_of(minute),
        growth_fits(*old(crop), width, height, minute),
        x < width,
        y < height,
    ensures
        ({
            let step = crop_step(*old(crop), *def, x, y, minute);
            &&& *final(crop) == step.crop
            &&& r.0 == step.ready
            &&& r.1 == step.critical
        }),
{
    let day_tick = minute % 1440 == 0;
    if minute % 2880 == 0 && def.needs_inspection {
        crop.inspection_due = true;
    }
    proof {
        reveal_strlit("rice");
    }
    let rice = text_eq(crop.crop_id.as_str(), "rice");
    if day_tick && rice && crop.stage_index >= 1 {
        let day = (minute / 1440 + 1) as u32;
        let variation = ((x * 7 + y * 11 + day) % 5) as u8;
        wear_paddy(crop, def, variation);
    }
    if crop.moisture == 0 || crop.health == 0 {
        return (false, true);
    }
    if def.needs_pollination && crop.stage_index >= 1 && !crop.pollinated {
        return (false, false);
    }
    if rice && season == Season::Winter {
        if day_tick {
            crop.health = crop.health.saturating_sub(4);
        }
        return (false, false);
    }
    let stages = def.stages.len();
    if crop.stage_index >= stages {
        return (false, false);
    }
    let duration = def.stages[crop.stage_index].duration_minutes;
    if crop.stage_index + 1 == stages {
        crop.stage_progress = duration;
        return (false, false);
    }
    crop.stage_progress = crop.stage_progress + 1;
    if crop.stage_progress >= duration {
        crop.stage_index = crop.stage_index + 1;
        crop.stage_progress = 0;
        return (crop.stage_index + 1 == stages, false);
    }
    (false, false)
}

} // verus!

verus! {

/// The event log after recording the events of `es`, in order.
pub open spec fn logged_all(before: Seq<FarmEvent>, es: Seq<FarmEvent>) -> Seq<FarmEvent>
    decreases es.len(),
{
    if es.len() == 0 {
        before
    } else {
        logged(logged_all(before, es.drop_last()), es.last())
    }
}

/// The event log after recording, in order, events that say `notices`.
pub open spec fn notices_logged(before: Seq<FarmEvent>, after: Seq<FarmEvent>, notices: Seq<Notice>) -> bool {
    exists|es: Seq<FarmEvent>|
        after == #[trigger] logged_all(before, es) && es.len() == notices.len() && forall|i: int|
            0 <= i < es.len() ==> notice_of(#[trigger] es[i]) == notices[i]
}

/// How the crop of tile `t` at `p` fares this minute, when it has one that the catalog knows.
pub open spec fn tile_growth(sim: GameSimulation, t: Tile, p: TilePos) -> Option<CropStep> {
    match t.crop {
        None => None,
        Some(c) => if sim.catalog.crops.to_map().contains_key(c.crop_id@) {
            Some(crop_step(c, sim.catalog.crops.to_map()[c.crop_id@], p.x, p.y, sim.clock.minute))
        } else {
            None
        },
    }
}

/// Tile `t` at `p` after a minute of growth.
pub open spec fn grown_tile(sim: GameSimulation, t: Tile, p: TilePos) -> Tile {
    match tile_growth(sim, t, p) {
        None => t,
        Some(step) => Tile { crop: Some(step.crop), ..t },
    }
}

/// Positions among the first `k` tiles whose crop became ready, in grid order.
pub open spec fn ready_positions(sim: GameSimulation, k: int) -> Seq<TilePos>
    decreases k,
{
    if k <= 0 {
        Seq::empty()
    } else {
        let p = position_of_index(sim.grid.width, k - 1);
        let earlier = ready_positions(sim, k - 1);
        if tile_growth(sim, sim.grid.tiles@[k - 1], p) matches Some(step) && step.ready {
            earlier.push(p)
        } else {
            earlier
        }
    }
}

/// Notices of crops that became ready at the given positions.
pub open spec fn ready_notices(ps: Seq<TilePos>) -> Seq<Notice>
    decreases ps.len(),
{
    if ps.len() == 0 {
        Seq::empty()
    } else {
        ready_notices(ps.drop_last()).push(Notice::CropReady(ps.last()))
    }
}

/// Positions among the first `k` tiles whose crop is in danger, in grid order.
pub open spec fn critical_positions(sim: GameSimulation, k: int) -> Seq<TilePos>
    decreases k,
{
    if k <= 0 {
        Seq::empty()
    } else {
        let p = position_of_index(sim.grid.width, k - 1);
        let earlier = critical_positions(sim, k - 1);
        if tile_growth(sim, sim.grid.tiles@[k - 1], p) matches Some(step) && step.critical {
            earlier.push(p)
        } else {
            earlier
        }
    }
}

/// Notices of crops in danger at the given positions.
pub open spec fn critical_notices(ps: Seq<TilePos>) -> Seq<Notice>
    decreases ps.len(),
{
    if ps.len() == 0 {
        Seq::empty()
    } else {
        critical_notices(ps.drop_last()).push(Notice::CropCritical(ps.last()))
    }
}

/// `b` is `a` after a minute of growth: every crop the catalog knows takes its step,
/// the crops that became ready are announced in grid order, then the first two in danger.
pub open spec fn crops_updated(a: GameSimulation, b: GameSimulation) -> bool {
    let n = a.grid.tiles@.len() as int;
    let critical = critical_positions(a, n);
    &&& b == GameSimulation { grid: b.grid, events: b.events, ..a }
    &&& b.grid.width == a.grid.width
    &&& b.grid.height == a.grid.height
    &&& b.grid.tiles@ == Seq::new(
        a.grid.tiles@.len(),
        |i: int| grown_tile(a, a.grid.tiles@[i], position_of_index(a.grid.width, i)),
    )
    &&& notices_logged(
        a.events@,
        b.events@,
        ready_notices(ready_positions(a, n)) + critical_notices(
            if critical.len() > 2 {
                critical.take(2)
            } else {
                critical
            },
        ),
    )
}

/// Every crop of the farm can grow one more minute without its counters overflowing.
pub open spec fn crops_fit(sim: GameSimulation) -> bool {
    &&& 7 * (sim.grid.width as int) + 11 * (sim.grid.height as int) + (day_of(sim.clock.minute) as u32) <= u32::MAX
    &&& forall|i: int|
        0 <= i < sim.grid.tiles@.len() ==> ((#[trigger] sim.grid.tiles@[i]).crop matches Some(c)
            ==> c.stage_progress < u32::MAX)
}

proof fn lemma_logged_all_push(before: Seq<FarmEvent>, es: Seq<FarmEvent>, e: FarmEvent)
    ensures
        logged_all(before, es.push(e)) == logged(logged_all(before, es), e),
{
    assert(es.push(e).drop_last() =~= es);
}

proof fn lemma_ready_notices(ps: Seq<TilePos>)
    ensures
        ready_notices(ps).len() == ps.len(),
        forall|k: int| 0 <= k < ps.len() ==> ready_notices(ps)[k] == Notice::CropReady(ps[k]),
    decreases ps.len(),
{
    if ps.len() > 0 {
        lemma_ready_notices(ps.drop_last());
    }
}

proof fn lemma_critical_notices(ps: Seq<TilePos>)
    ensures
        critical_notices(ps).len() == ps.len(),
        forall|k: int| 0 <= k < ps.len() ==> critical_notices(ps)[k] == Notice::CropCritical(ps[k]),
    decreases ps.len(),
{
    if ps.len() > 0 {
        lemma_critical_notices(ps.drop_last());
    }
}

impl GameSimulation {
    /// A minute of growth for every crop of the farm, announcing the crops that
    /// became ready and the first two in danger.
    pub fn update_crops(&mut self)
        requires
            old(self).wf(),
            crops_fit(*old(self)),
        ensures
            final(self).wf(),
            crops_updated(*old(self), *final(self)),
    {
        let ghost a = *self;
        let n = self.grid.tiles.len();
        let width = self.grid.width;
        let height = self.grid.height;
        let minute = self.clock.minute;
        let season = self.clock.season();
        let mut ready: Vec<TilePos> = Vec::new();
        let mut critical: Vec<TilePos> = Vec::new();
        let mut i: usize = 0;
        while i < n
            invariant
                self.wf(),
                n == a.grid.tiles@.len(),
                n == (width as int) * (height as int),
                width == a.grid.width,
                height == a.grid.height,
                minute == a.clock.minute,
                season == season_of(minute),
                crops_fit(a),
                i <= n,
                self.grid.tiles@.len() == n,
                *self == (GameSimulation { grid: self.grid, ..a }),
                self.grid.width == width,
                self.grid.height == height,
                forall|j: int|
                    0 <= j < i ==> #[trigger] self.grid.tiles@[j] == grown_tile(a, a.grid.tiles@[j], position_of_index(width, j)),
                forall|j: int| i <= j < n ==> #[trigger] self.grid.tiles@[j] == a.grid.tiles@[j],
                ready@ == ready_positions(a, i as int),
                critical@ == critical_positions(a, i as int),
            decreases n - i,
        {
            let p = self.grid.index_position(i);
            let mut t = self.grid.tiles[i].clone_shallow();
            let ghost t0 = t;
            let crop = t.crop.take();
            match crop {
                None => {},
                Some(mut crop) => {
                    let ghost c0 = crop;
                    match self.catalog.crops.get(crop.crop_id.as_str()) {
                        None => {
                            t.crop = Some(crop);
                        },
                        Some(definition) => {
                            assert(growth_fits(c0, width, height, minute)) by {
                                assert(a.grid.tiles@[i as int].crop == Some(c0));
                            }
                            let (is_ready, is_critical) = grow_crop(&mut crop, definition, p.x, p.y, minute, season, width, height);
                            t.crop = Some(crop);
                            if is_ready {
                                ready.push(p);
                            }
                            if is_critical {
                                critical.push(p);
                            }
                        },
                    }
                    self.grid.tiles.set(i, t);
                },
            }
            assert(t0 == a.grid.tiles@[i as int]);
            i += 1;
        }
        assert(self.grid.tiles@ =~= Seq::new(
            a.grid.tiles@.len(),
            |j: int| grown_tile(a, a.grid.tiles@[j], position_of_index(a.grid.width, j)),
        ));
        let ghost start = self.events@;
        let ghost grown = *self;
        let ghost mut es: Seq<FarmEvent> = Seq::empty();
        let mut k: usize = 0;
        while k < ready.len()
            invariant
                self.wf(),
                k <= ready@.len(),
                *self == (GameSimulation { events: self.events, ..grown }),
                self.events@ == logged_all(start, es),
                es.len() == k,
                forall|j: int| 0 <= j < k ==> notice_of(#[trigger] es[j]) == Notice::CropReady(ready@[j]),
            decreases ready@.len() - k,
        {
            let event = FarmEvent::CropReady(ready[k]);
            proof {
                lemma_logged_all_push(start, es, event);
                es = es.push(event);
            }
            self.push_event(event);
            k += 1;
        }
        let ghost mid = es;
        let limit: usize = if critical.len() > 2 {
            2
        } else {
            critical.len()
        };
        let mut k: usize = 0;
        while k < limit
            invariant
                self.wf(),
                limit <= critical@.len(),
                k <= limit,
                *self == (GameSimulation { events: self.events, ..grown }),
                self.events@ == logged_all(start, es),
                es.len() == ready@.len() + k,
                forall|j: int| 0 <= j < ready@.len() ==> notice_of(#[trigger] es[j]) == Notice::CropReady(ready@[j]),
                forall|j: int|
                    ready@.len() <= j < es.len() ==> notice_of(#[trigger] es[j]) == Notice::CropCritical(
                        critical@[j - ready@.len()],
                    ),
            decreases limit - k,
        {
            let event = FarmEvent::CropCritical(critical[k]);
            proof {
                lemma_logged_all_push(start, es, event);
                es = es.push(event);
            }
            self.push_event(event);
            k += 1;
        }
        proof {
            let shown = if critical@.len() > 2 {
                critical@.take(2)
            } else {
                critical@
            };
            assert(shown =~= critical@.take(limit as int));
            lemma_ready_notices(ready@);
            lemma_critical_notices(shown);
            let notices = ready_notices(ready@) + critical_notices(shown);
            assert(es.len() == notices.len());
            assert forall|j: int| 0 <= j < es.len() implies notice_of(#[trigger] es[j]) == notices[j] by {
                if j < ready@.len() {
                } else {
                }
            }
            assert(notices_logged(start, self.events@, notices));
        }
    }
}

} // verus!

verus! {

/// Paddy rice rests in winter: a minute of winter changes neither its stage nor its
/// progress through the stage.
pub proof fn rice_rests_in_winter(crop: CropInstance, def: CropDef, x: u32, y: u32, minute: u64)
    requires
        is_rice(crop),
        season_of(minute) == Season::Winter,
    ensures
        crop_step(crop, def, x, y, minute).crop.stage_index == crop.stage_index,
        crop_step(crop, def, x, y, minute).crop.stage_progress == crop.stage_progress,
        !crop_step(crop, def, x, y, minute).ready,
{
}

/// A crop moves through its stages one at a time: a minute of growth either keeps
/// its stage, or moves it to the next stage with no progress in it yet, and only
/// after the crop has spent the whole duration of the stage it leaves. Within a stage
/// progress grows by at most one minute, except that a crop in its last stage is
/// marked complete.
pub proof fn crops_grow_one_stage_at_a_time(crop: CropInstance, def: CropDef, x: u32, y: u32, minute: u64)
    requires
        crop.stage_progress < u32::MAX,
        crop.stage_index < usize::MAX,
    ensures
        crop_step(crop, def, x, y, minute).crop.stage_index == crop.stage_index || crop_step(crop, def, x, y, minute).crop.stage_index
            == crop.stage_index + 1,
        crop_step(crop, def, x, y, minute).crop.stage_index == crop.stage_index + 1 ==> crop_step(crop, def, x, y, minute).crop.stage_progress == 0,
        crop_step(crop, def, x, y, minute).crop.stage_index == crop.stage_index + 1 ==> crop.stage_index < def.stages@.len()
            && crop.stage_progress + 1 >= def.stages@[crop.stage_index as int].duration_minutes,
        crop_step(crop, def, x, y, minute).crop.stage_index == crop.stage_index ==> crop_step(crop, def, x, y, minute).crop.stage_progress
            <= crop.stage_progress + 1 || (crop.stage_index + 1 == def.stages@.len()
            && crop_step(crop, def, x, y, minute).crop.stage_progress == def.stages@[crop.stage_index as int].duration_minutes),
        crop_step(crop, def, x, y, minute).crop.stage_index == crop.stage_index && crop.stage_index + 1 != def.stages@.len()
            ==> crop_step(crop, def, x, y, minute).crop.stage_progress >= crop.stage_progress,
{
}

/// An hour of rain raises a paddy's water by eight, up to a full hundred, and the
/// rice in it takes the paddy's level as its moisture and survives; sun and clear
/// skies never raise the water. Other crops gain twelve points of moisture in rain,
/// up to a hundred, and lose moisture otherwise.
pub proof fn rain_fills_paddies(t: Tile, crop: CropInstance)
    requires
        t.crop == Some(crop),
    ensures
        is_rice(crop) ==> {
            let w = weathered_tile(t, Weather::Rain);
            &&& w.water_level == (if t.water_level + 8 > 100 {
                100
            } else {
                t.water_level + 8
            })
            &&& t.water_level <= 100 ==> w.water_level >= t.water_level
            &&& crop.health > 0 ==> (w.crop matches Some(c) && c.moisture == w.water_level && c.health
                == crop.health)
        },
        is_rice(crop) ==> weathered_tile(t, Weather::Hot).water_level <= t.water_level
            && weathered_tile(t, Weather::Clear).water_level <= t.water_level,
        !is_rice(crop) ==> {
            let w = weathered_tile(t, Weather::Rain);
            &&& w.water_level == t.water_level
            &&& crop.health > 0 ==> (w.crop matches Some(c) && c.moisture == (if crop.moisture + 12 > 100 {
                100
            } else {
                crop.moisture + 12
            }))
        },
        !is_rice(crop) ==> (weathered_tile(t, Weather::Hot).crop matches Some(c) ==> c.moisture
            <= crop.moisture) && (weathered_tile(t, Weather::Clear).crop matches Some(c) ==> c.moisture
            <= crop.moisture),
{
}

} // verus!
