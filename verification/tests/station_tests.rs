use ereea::knowledge::{unknown_grid, TerrainData};
use ereea::map::TerrainMap;
use ereea::robot::Robot;
use ereea::station::{Station, StationStatus};
use ereea::types::{RobotMode, RobotType, TileType};

fn explored(timestamp: u32, robot_id: usize, robot_type: RobotType) -> TerrainData {
    TerrainData { explored: true, timestamp, robot_id, robot_type }
}

fn docked_robot(memory: Vec<Vec<TerrainData>>) -> Robot {
    Robot {
        id: 7,
        x: 0,
        y: 0,
        energy: 80,
        max_energy: 100,
        minerals: 0,
        scientific_data: 0,
        robot_type: RobotType::Explorer,
        mode: RobotMode::ReturnToStation,
        home_station_x: 0,
        home_station_y: 0,
        memory,
    }
}

#[test]
fn newer_observation_wins_and_counts_one_conflict() {
    // The robot saw cell (5,5) at tick 10; the station's record is from tick
    // 7. Last writer wins: the station adopts the newer record and books
    // exactly one resolved conflict.
    let mut station = Station::new();
    station.global_memory[5][5] = explored(7, 1, RobotType::Explorer);
    let mut memory = unknown_grid(20);
    memory[5][5] = explored(10, 7, RobotType::Explorer);
    let mut robot = docked_robot(memory);
    station.share_knowledge(&mut robot);
    assert_eq!(station.global_memory[5][5].timestamp, 10);
    assert_eq!(station.global_memory[5][5].robot_id, 7);
    assert_eq!(station.conflict_count, 1);
}

#[test]
fn older_observation_keeps_station_record() {
    let mut station = Station::new();
    station.global_memory[5][5] = explored(12, 1, RobotType::Explorer);
    let mut memory = unknown_grid(20);
    memory[5][5] = explored(10, 7, RobotType::Explorer);
    let mut robot = docked_robot(memory);
    station.share_knowledge(&mut robot);
    assert_eq!(station.global_memory[5][5].timestamp, 12);
    assert_eq!(station.global_memory[5][5].robot_id, 1);
    assert_eq!(station.conflict_count, 0);
}

#[test]
fn tied_timestamps_keep_station_record_without_conflict() {
    let mut station = Station::new();
    station.global_memory[3][4] = explored(10, 2, RobotType::MineralCollector);
    let mut memory = unknown_grid(20);
    memory[3][4] = explored(10, 7, RobotType::Explorer);
    let mut robot = docked_robot(memory);
    station.share_knowledge(&mut robot);
    assert_eq!(station.global_memory[3][4].robot_id, 2);
    assert_eq!(station.conflict_count, 0);
}

#[test]
fn unknown_cells_are_adopted_without_conflict() {
    let mut station = Station::new();
    let mut memory = unknown_grid(20);
    memory[2][9] = explored(4, 7, RobotType::EnergyCollector);
    let mut robot = docked_robot(memory);
    station.share_knowledge(&mut robot);
    assert!(station.global_memory[2][9].explored);
    assert_eq!(station.global_memory[2][9].timestamp, 4);
    assert_eq!(station.conflict_count, 0);
}

#[test]
fn merge_leaves_robot_and_station_equal() {
    // Immediately after a merge, the robot's knowledge equals the station's
    // cell for cell.
    let mut station = Station::new();
    station.global_memory[1][1] = explored(3, 1, RobotType::Explorer);
    station.global_memory[8][2] = explored(9, 2, RobotType::MineralCollector);
    let mut memory = unknown_grid(20);
    memory[1][1] = explored(6, 7, RobotType::Explorer);
    memory[15][15] = explored(2, 7, RobotType::Explorer);
    let mut robot = docked_robot(memory);
    station.share_knowledge(&mut robot);
    for y in 0..20 {
        for x in 0..20 {
            assert_eq!(robot.memory[y][x], station.global_memory[y][x]);
        }
    }
}

#[test]
fn second_merge_without_movement_adds_no_conflicts() {
    // Once converged, the merge is idempotent: a second docking with no
    // movement in between leaves the conflict counter alone.
    let mut station = Station::new();
    station.global_memory[5][5] = explored(7, 1, RobotType::Explorer);
    station.global_memory[0][3] = explored(2, 2, RobotType::Explorer);
    let mut memory = unknown_grid(20);
    memory[5][5] = explored(10, 7, RobotType::Explorer);
    memory[12][12] = explored(5, 7, RobotType::Explorer);
    let mut robot = docked_robot(memory);
    station.share_knowledge(&mut robot);
    let conflicts_after_first = station.conflict_count;
    station.share_knowledge(&mut robot);
    assert_eq!(station.conflict_count, conflicts_after_first);
}

#[test]
fn share_knowledge_away_from_home_is_a_noop() {
    let mut station = Station::new();
    let mut memory = unknown_grid(20);
    memory[5][5] = explored(10, 7, RobotType::Explorer);
    let mut robot = docked_robot(memory);
    robot.x = 3;
    station.share_knowledge(&mut robot);
    assert!(!station.global_memory[5][5].explored);
    assert_eq!(station.conflict_count, 0);
}

#[test]
fn robot_creation_selects_energy_collector_and_deducts_costs() {
    // Two energy tiles remain and nothing else: rule one picks an energy
    // collector, and the build costs exactly 50 energy and 15 minerals.
    let mut noise = vec![vec![0; 20]; 20];
    noise[0][0] = 400;
    noise[0][19] = 400;
    let map = TerrainMap::new(&noise);
    assert_eq!(map.count_tiles(TileType::Energy), 2);
    let mut station = Station::new();
    station.energy_reserves = 100;
    station.collected_minerals = 15;
    let robot = station.try_create_robot(&map).expect("reserves suffice");
    assert_eq!(robot.robot_type, RobotType::EnergyCollector);
    assert_eq!(robot.id, 1);
    assert_eq!(robot.x, map.station_x);
    assert_eq!(robot.y, map.station_y);
    assert_eq!(station.energy_reserves, 50);
    assert_eq!(station.collected_minerals, 0);
    assert_eq!(station.next_robot_id, 2);
}

#[test]
fn robot_creation_fails_without_reserves() {
    let noise = vec![vec![0; 20]; 20];
    let map = TerrainMap::new(&noise);
    let mut station = Station::new();
    station.energy_reserves = 49;
    station.collected_minerals = 100;
    assert!(station.try_create_robot(&map).is_none());
    assert_eq!(station.energy_reserves, 49);
    assert_eq!(station.collected_minerals, 100);
    assert_eq!(station.next_robot_id, 1);

    station.energy_reserves = 100;
    station.collected_minerals = 14;
    assert!(station.try_create_robot(&map).is_none());
    assert_eq!(station.energy_reserves, 100);
    assert_eq!(station.collected_minerals, 14);
}

#[test]
fn new_robot_inherits_station_knowledge() {
    let noise = vec![vec![0; 20]; 20];
    let map = TerrainMap::new(&noise);
    let mut station = Station::new();
    station.global_memory[9][9] = explored(5, 3, RobotType::Explorer);
    station.energy_reserves = 60;
    station.collected_minerals = 20;
    let robot = station.try_create_robot(&map).expect("reserves suffice");
    assert!(robot.memory[9][9].explored);
    assert_eq!(robot.memory[9][9].timestamp, 5);
    assert_eq!(robot.mode, RobotMode::Exploring);
}

#[test]
fn deposit_converts_minerals_into_energy() {
    let mut station = Station::new();
    station.deposit_resources(4, 2);
    assert_eq!(station.collected_minerals, 4);
    assert_eq!(station.collected_scientific_data, 2);
    assert_eq!(station.energy_reserves, 104);
}

#[test]
fn station_tick_advances_only_the_clock() {
    let mut station = Station::new();
    station.tick();
    station.tick();
    assert_eq!(station.current_time, 2);
    assert_eq!(station.energy_reserves, 100);
    assert_eq!(station.conflict_count, 0);
}

#[test]
fn status_kind_matches_counters() {
    let mut station = Station::new();
    station.energy_reserves = 29;
    station.collected_minerals = 100;
    assert_eq!(station.status_kind(), StationStatus::LowEnergy);
    station.energy_reserves = 30;
    station.collected_minerals = 9;
    assert_eq!(station.status_kind(), StationStatus::LowMinerals);
    station.energy_reserves = 200;
    station.collected_minerals = 50;
    assert_eq!(station.status_kind(), StationStatus::Abundant);
    station.energy_reserves = 100;
    station.collected_minerals = 20;
    assert_eq!(station.status_kind(), StationStatus::Adequate);
}

#[test]
fn status_line_reports_progress_toward_next_robot() {
    let mut station = Station::new();
    station.energy_reserves = 20;
    station.collected_minerals = 3;
    assert_eq!(
        station.get_status(),
        "Low energy | robot build: 20/50 energy, 3/15 minerals | conflicts: 0",
    );
    station.energy_reserves = 120;
    station.collected_minerals = 40;
    assert_eq!(
        station.get_status(),
        "Adequate resources | robot build: 50/50 energy, 15/15 minerals | conflicts: 0",
    );
}

#[test]
fn exploration_percentage_counts_explored_cells() {
    let mut station = Station::new();
    assert_eq!(station.get_exploration_percentage(), 0);
    for x in 0..40 {
        station.global_memory[x / 20][x % 20] = explored(1, 1, RobotType::Explorer);
    }
    // 40 of 400 cells: 10 percent, in hundredths of a percent.
    assert_eq!(station.get_exploration_percentage(), 1000);
}
