use ereea::display::{CellView, Display};
use ereea::knowledge::TerrainData;
use ereea::map::TerrainMap;
use ereea::network::{create_exploration_data, create_map_data, create_simulation_state};
use ereea::simulation::Simulation;
use ereea::station::Station;
use ereea::types::{RobotType, TileType};

fn map_with_mineral() -> TerrainMap {
    let mut noise = vec![vec![0; 20]; 20];
    noise[0][0] = 200;
    TerrainMap::new(&noise)
}

fn seen(timestamp: u32) -> TerrainData {
    TerrainData { explored: true, timestamp, robot_id: 1, robot_type: RobotType::Explorer }
}

#[test]
fn map_data_copies_the_grid() {
    let map = map_with_mineral();
    let data = create_map_data(&map);
    assert_eq!(data.station_x, map.station_x);
    assert_eq!(data.station_y, map.station_y);
    for y in 0..20 {
        for x in 0..20 {
            assert_eq!(data.tiles[y][x], map.get_tile(x, y));
        }
    }
}

#[test]
fn exploration_data_mirrors_station_knowledge() {
    let mut station = Station::new();
    station.global_memory[4][9] = seen(3);
    let data = create_exploration_data(&station);
    for y in 0..20 {
        for x in 0..20 {
            assert_eq!(data.explored_tiles[y][x], y == 4 && x == 9);
        }
    }
}

#[test]
fn simulation_state_carries_every_component() {
    let mut sim = Simulation::bootstrap(map_with_mineral());
    sim.step();
    let state = create_simulation_state(&sim.map, &sim.station, &sim.robots, 17);
    assert_eq!(state.iteration, 17);
    assert_eq!(state.robots_data.len(), sim.robots.len());
    for (d, r) in state.robots_data.iter().zip(sim.robots.iter()) {
        assert_eq!(d.id, r.id);
        assert_eq!((d.x, d.y), (r.x, r.y));
        assert_eq!(d.robot_type, r.robot_type);
        assert_eq!(d.mode, r.mode);
    }
    assert_eq!(state.station_data.energy_reserves, sim.station.energy_reserves);
    assert_eq!(state.station_data.conflict_count, sim.station.conflict_count);
    assert_eq!(state.station_data.robot_count, sim.station.next_robot_id - 1);
    assert_eq!(
        state.station_data.exploration_percentage,
        sim.station.get_exploration_percentage(),
    );
}

#[test]
fn cell_view_shows_station_and_robots_first() {
    let map = map_with_mineral();
    let sim = Simulation::bootstrap(map);
    let sx = sim.map.station_x;
    let sy = sim.map.station_y;
    assert_eq!(
        Display::cell_view(&sim.map, &sim.station, &sim.robots, sx, sy),
        CellView::StationMarker,
    );
    // Off the station cell, a robot standing there is shown.
    let robots = vec![ereea::robot::Robot::new_with_memory(
        3,
        2,
        RobotType::Explorer,
        1,
        sx,
        sy,
        ereea::knowledge::unknown_grid(20),
    )];
    match Display::cell_view(&sim.map, &sim.station, &robots, 3, 2) {
        CellView::RobotMarker(id, t) => {
            assert_eq!(id, 1);
            assert_eq!(t, RobotType::Explorer);
        },
        other => panic!("expected a robot marker, got {:?}", other),
    }
}

#[test]
fn snapshot_cells_match_the_live_view() {
    // The snapshot-driven classifier shows the same precedence as the live
    // one: station first, then robots, then explored tiles, then fog.
    let mut sim = Simulation::bootstrap(map_with_mineral());
    sim.station.global_memory[0][0] = seen(2);
    sim.robots[1].x = 7;
    sim.robots[1].y = 8;
    let state = create_simulation_state(&sim.map, &sim.station, &sim.robots, 1);
    let sx = sim.map.station_x;
    let sy = sim.map.station_y;
    assert_eq!(
        Display::snapshot_cell_view(&state, sx, sy),
        CellView::StationMarker,
    );
    match Display::snapshot_cell_view(&state, 7, 8) {
        CellView::RobotMarker(id, t) => {
            assert_eq!(id, 2);
            assert_eq!(t, RobotType::EnergyCollector);
        },
        other => panic!("expected a robot marker, got {:?}", other),
    }
    assert_eq!(
        Display::snapshot_cell_view(&state, 0, 0),
        CellView::Explored(TileType::Mineral),
    );
    assert_eq!(Display::snapshot_cell_view(&state, 3, 17), CellView::Unexplored);
}

#[test]
fn snapshot_carries_the_status_line() {
    let mut station = Station::new();
    station.energy_reserves = 20;
    station.collected_minerals = 3;
    let robots = Vec::new();
    let map = map_with_mineral();
    let state = create_simulation_state(&map, &station, &robots, 0);
    assert_eq!(state.station_data.status_message, station.get_status());
    assert_eq!(
        state.station_data.status_message,
        "Low energy | robot build: 20/50 energy, 3/15 minerals | conflicts: 0",
    );
    assert_eq!(state.station_data.energy_reserves, 20);
    assert_eq!(state.station_data.collected_minerals, 3);
    assert_eq!(state.station_data.collected_scientific_data, 0);
}

#[test]
fn cell_view_never_leaks_unexplored_tiles() {
    let map = map_with_mineral();
    let station = Station::new();
    let robots = Vec::new();
    // The mineral at (0,0) is unexplored: an observer sees only fog.
    assert_eq!(Display::cell_view(&map, &station, &robots, 0, 0), CellView::Unexplored);
    let mut station = station;
    station.global_memory[0][0] = seen(2);
    assert_eq!(
        Display::cell_view(&map, &station, &robots, 0, 0),
        CellView::Explored(TileType::Mineral),
    );
}
