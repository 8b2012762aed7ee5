use ereea::knowledge::{unknown_grid, TerrainData};
use ereea::map::TerrainMap;
use ereea::robot::Robot;
use ereea::station::Station;
use ereea::types::{RobotMode, RobotType, TileType};

fn empty_map(n: usize) -> TerrainMap {
    TerrainMap::new(&vec![vec![0; n]; n])
}

fn robot_at(x: usize, y: usize, n: usize, robot_type: RobotType, mode: RobotMode) -> Robot {
    Robot {
        id: 1,
        x,
        y,
        energy: 100,
        max_energy: 100,
        minerals: 0,
        scientific_data: 0,
        robot_type,
        mode,
        home_station_x: n / 2,
        home_station_y: n / 2,
        memory: unknown_grid(n),
    }
}

#[test]
fn new_robot_starts_exploring_with_full_energy() {
    let memory = unknown_grid(20);
    let r = Robot::new_with_memory(10, 10, RobotType::MineralCollector, 3, 10, 10, memory);
    assert_eq!(r.id, 3);
    assert_eq!((r.x, r.y), (10, 10));
    assert_eq!(r.energy, 100);
    assert_eq!(r.max_energy, 100);
    assert_eq!(r.mode, RobotMode::Exploring);
    assert_eq!(r.minerals, 0);
    assert_eq!(r.scientific_data, 0);
}

#[test]
fn force_recall_parks_the_robot_at_home() {
    let mut r = robot_at(1, 2, 20, RobotType::Explorer, RobotMode::Exploring);
    r.energy = 0;
    r.force_recall();
    assert_eq!((r.x, r.y), (10, 10));
    assert_eq!(r.energy, 50);
    assert_eq!(r.mode, RobotMode::Idle);
}

#[test]
fn exploring_marks_the_destination_with_the_current_tick() {
    let mut map = empty_map(20);
    let mut station = Station::new();
    station.current_time = 42;
    let mut r = robot_at(10, 10, 20, RobotType::Explorer, RobotMode::Exploring);
    let (ox, oy) = (r.x, r.y);
    r.update(&mut map, &mut station);
    assert_eq!(r.energy, 99);
    let (nx, ny) = (r.x, r.y);
    assert!((nx as i64 - ox as i64).abs() <= 1 && (ny as i64 - oy as i64).abs() <= 1);
    assert!((nx, ny) != (ox, oy), "an unexplored neighbor exists, so the robot moves");
    let rec = r.memory[ny][nx];
    assert!(rec.explored);
    assert_eq!(rec.timestamp, 42);
    assert_eq!(rec.robot_id, 1);
    // The destination had not been explored by this robot before.
    assert_eq!(r.mode, RobotMode::Exploring);
}

#[test]
fn idle_robot_does_nothing() {
    let mut map = empty_map(20);
    let mut station = Station::new();
    let mut r = robot_at(4, 4, 20, RobotType::Explorer, RobotMode::Idle);
    r.update(&mut map, &mut station);
    assert_eq!((r.x, r.y), (4, 4));
    assert_eq!(r.energy, 100);
    assert_eq!(r.mode, RobotMode::Idle);
}

#[test]
fn exhausted_robot_waits_for_recall() {
    let mut map = empty_map(20);
    let mut station = Station::new();
    let mut r = robot_at(4, 4, 20, RobotType::Explorer, RobotMode::Exploring);
    r.energy = 0;
    r.update(&mut map, &mut station);
    assert_eq!((r.x, r.y), (4, 4));
    assert_eq!(r.energy, 0);
}

#[test]
fn collector_consumes_matching_tile_and_books_cargo() {
    let mut noise = vec![vec![0; 11]; 11];
    noise[0][0] = 200;
    let mut map = TerrainMap::new(&noise);
    assert_eq!(map.get_tile(0, 0), TileType::Mineral);
    let mut station = Station::new();
    let mut r = robot_at(0, 0, 11, RobotType::MineralCollector, RobotMode::Collecting);
    r.update(&mut map, &mut station);
    assert_eq!(map.get_tile(0, 0), TileType::Empty);
    assert_eq!(r.minerals, 1);
    assert_eq!(r.energy, 99);
}

#[test]
fn energy_collector_recharges_from_energy_tiles() {
    let mut noise = vec![vec![0; 11]; 11];
    noise[0][0] = 400;
    let mut map = TerrainMap::new(&noise);
    let mut station = Station::new();
    let mut r = robot_at(0, 0, 11, RobotType::EnergyCollector, RobotMode::Collecting);
    r.energy = 50;
    r.update(&mut map, &mut station);
    assert_eq!(map.get_tile(0, 0), TileType::Empty);
    // One unit spent acting, twenty-five gained from the tile.
    assert_eq!(r.energy, 74);
}

#[test]
fn full_collector_heads_home() {
    let mut noise = vec![vec![0; 11]; 11];
    noise[0][0] = 200;
    let mut map = TerrainMap::new(&noise);
    let mut station = Station::new();
    let mut r = robot_at(0, 0, 11, RobotType::MineralCollector, RobotMode::Collecting);
    r.minerals = 4;
    r.update(&mut map, &mut station);
    assert_eq!(r.minerals, 5);
    assert_eq!(r.mode, RobotMode::ReturnToStation);
}

#[test]
fn collector_with_nothing_nearby_heads_home() {
    let mut map = empty_map(11);
    let mut station = Station::new();
    let mut r = robot_at(5, 5, 11, RobotType::MineralCollector, RobotMode::Collecting);
    r.update(&mut map, &mut station);
    assert_eq!(r.mode, RobotMode::ReturnToStation);
}

#[test]
fn collector_steps_onto_adjacent_matching_tile() {
    let mut noise = vec![vec![0; 11]; 11];
    noise[0][1] = 200;
    let mut map = TerrainMap::new(&noise);
    assert_eq!(map.get_tile(1, 0), TileType::Mineral);
    let mut station = Station::new();
    let mut r = robot_at(0, 0, 11, RobotType::MineralCollector, RobotMode::Collecting);
    r.update(&mut map, &mut station);
    assert_eq!((r.x, r.y), (1, 0));
    assert_eq!(r.mode, RobotMode::Collecting);
}

#[test]
fn returning_robot_approaches_home() {
    let mut map = empty_map(20);
    let mut station = Station::new();
    let mut r = robot_at(14, 14, 20, RobotType::Explorer, RobotMode::ReturnToStation);
    r.update(&mut map, &mut station);
    assert_eq!((r.x, r.y), (13, 13));
    assert_eq!(r.energy, 99);
    assert_eq!(r.mode, RobotMode::ReturnToStation);
}

#[test]
fn docking_deposits_cargo_and_merges_knowledge() {
    let mut map = empty_map(20);
    let mut station = Station::new();
    let mut r = robot_at(10, 10, 20, RobotType::MineralCollector, RobotMode::ReturnToStation);
    r.minerals = 3;
    r.scientific_data = 2;
    r.memory[7][7] = TerrainData {
        explored: true,
        timestamp: 5,
        robot_id: 1,
        robot_type: RobotType::MineralCollector,
    };
    r.update(&mut map, &mut station);
    assert_eq!(station.collected_minerals, 3);
    assert_eq!(station.collected_scientific_data, 2);
    assert_eq!(station.energy_reserves, 103);
    assert_eq!(r.minerals, 0);
    assert_eq!(r.scientific_data, 0);
    assert_eq!(r.mode, RobotMode::Exploring);
    assert!(station.global_memory[7][7].explored);
    for y in 0..20 {
        for x in 0..20 {
            assert_eq!(r.memory[y][x], station.global_memory[y][x]);
        }
    }
}

#[test]
fn exploration_percentage_is_exact() {
    let mut r = robot_at(10, 10, 20, RobotType::Explorer, RobotMode::Exploring);
    assert_eq!(r.get_exploration_percentage(), 0);
    for i in 0..40 {
        r.memory[i / 20][i % 20] = TerrainData {
            explored: true,
            timestamp: 1,
            robot_id: 1,
            robot_type: RobotType::Explorer,
        };
    }
    assert_eq!(r.get_exploration_percentage(), 1000);
}

#[test]
fn display_glyphs_follow_robot_kind() {
    let n = 20;
    let kinds = [
        (RobotType::Explorer, 'E', 9u8),
        (RobotType::EnergyCollector, 'P', 10),
        (RobotType::MineralCollector, 'M', 13),
        (RobotType::ScientificCollector, 'S', 12),
    ];
    for (kind, glyph, color) in kinds {
        let r = robot_at(0, 0, n, kind, RobotMode::Exploring);
        assert_eq!(r.get_display_char(), glyph);
        assert_eq!(r.get_display_color(), color);
    }
}
