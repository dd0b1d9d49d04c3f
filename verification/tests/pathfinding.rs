use autofarm::grid::{CropInstance, FarmGrid, Tile};
use autofarm::model::{RobotBody, TerrainKind, TilePos};
use autofarm::pathfinding::{next_ground_step, next_ground_step_avoiding, path_exists, path_exists_avoiding};

fn open_grid() -> FarmGrid {
    FarmGrid {
        width: 5,
        height: 5,
        tiles: vec![Tile::new(TerrainKind::Soil); 25],
    }
}

#[test]
fn a_star_routes_around_water() {
    let mut grid = open_grid();
    if let Some(tile) = grid.tile_mut(TilePos::new(2, 2)) {
        tile.terrain = TerrainKind::Water;
    }
    let step = next_ground_step(
        &grid,
        TilePos::new(1, 2),
        TilePos::new(3, 2),
        RobotBody::Quadruped,
        true,
    );
    assert!(step.is_some_and(|step| step != TilePos::new(2, 2)));
}

#[test]
fn wheeled_robot_routes_around_rough_soil() {
    let mut grid = open_grid();
    if let Some(tile) = grid.tile_mut(TilePos::new(2, 2)) {
        tile.terrain = TerrainKind::RoughSoil;
    }
    let step = next_ground_step(
        &grid,
        TilePos::new(1, 2),
        TilePos::new(3, 2),
        RobotBody::Wheeled,
        false,
    );
    assert!(step.is_some_and(|step| step != TilePos::new(2, 2)));
}

#[test]
fn water_target_is_unreachable() {
    let mut grid = open_grid();
    if let Some(tile) = grid.tile_mut(TilePos::new(3, 2)) {
        tile.terrain = TerrainKind::Water;
    }
    assert!(!path_exists(
        &grid,
        TilePos::new(1, 2),
        TilePos::new(3, 2),
        RobotBody::Biped,
        true,
    ));
}

#[test]
fn wheeled_prep_robot_routes_around_planted_field() {
    let mut grid = open_grid();
    if let Some(tile) = grid.tile_mut(TilePos::new(2, 2)) {
        tile.crop = Some(CropInstance {
            crop_id: "rice".to_owned(),
            planted_at: 0,
            stage_index: 1,
            stage_progress: 0,
            moisture: 100,
            health: 100,
            pollinated: false,
            inspection_due: false,
            pest_pressure: 0,
            pest_controlled: true,
            weed_pressure: 0,
            soil_compaction: 0,
            remaining_harvests: 1,
        });
    }
    let step = next_ground_step(
        &grid,
        TilePos::new(1, 2),
        TilePos::new(3, 2),
        RobotBody::Wheeled,
        false,
    );
    assert!(step.is_some_and(|step| step != TilePos::new(2, 2)));
}

#[test]
fn straight_route_takes_the_direct_step() {
    let grid = open_grid();
    let step = next_ground_step(&grid, TilePos::new(0, 0), TilePos::new(3, 0), RobotBody::Biped, false);
    assert_eq!(step, Some(TilePos::new(1, 0)));
}

#[test]
fn standing_on_the_goal_stays_put() {
    let grid = open_grid();
    let step = next_ground_step(&grid, TilePos::new(2, 2), TilePos::new(2, 2), RobotBody::Biped, false);
    assert_eq!(step, Some(TilePos::new(2, 2)));
    assert!(path_exists(&grid, TilePos::new(2, 2), TilePos::new(2, 2), RobotBody::Biped, false));
}

#[test]
fn off_grid_start_has_no_route() {
    let grid = open_grid();
    assert_eq!(
        next_ground_step(&grid, TilePos::new(7, 7), TilePos::new(1, 1), RobotBody::Biped, false),
        None
    );
}

#[test]
fn wheeled_robot_stays_off_paddy_bunds_and_channels() {
    let mut grid = open_grid();
    for y in 0..5 {
        if let Some(tile) = grid.tile_mut(TilePos::new(2, y)) {
            tile.terrain = if y % 2 == 0 { TerrainKind::PaddyBund } else { TerrainKind::IrrigationChannel };
        }
    }
    assert!(!path_exists(&grid, TilePos::new(0, 2), TilePos::new(4, 2), RobotBody::Wheeled, false));
    for y in 0..5 {
        if let Some(tile) = grid.tile_mut(TilePos::new(2, y)) {
            tile.terrain = TerrainKind::PaddyBund;
        }
    }
    assert!(path_exists(&grid, TilePos::new(0, 2), TilePos::new(4, 2), RobotBody::Hexapod, false));
}

#[test]
fn occupied_cells_are_avoided() {
    let grid = open_grid();
    let occupied = vec![TilePos::new(1, 0)];
    let step = next_ground_step_avoiding(&grid, TilePos::new(0, 0), TilePos::new(2, 0), RobotBody::Biped, false, &occupied);
    assert_eq!(step, Some(TilePos::new(0, 1)));
    let wall = vec![TilePos::new(1, 0), TilePos::new(0, 1)];
    assert!(!path_exists_avoiding(&grid, TilePos::new(0, 0), TilePos::new(2, 0), RobotBody::Biped, false, &wall));
}
