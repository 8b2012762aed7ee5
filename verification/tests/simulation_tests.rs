use ereea::knowledge::TerrainData;
use ereea::map::TerrainMap;
use ereea::simulation::{MissionStatus, Simulation};
use ereea::types::{RobotMode, RobotType};

fn empty_map() -> TerrainMap {
    TerrainMap::new(&vec![vec![0; 20]; 20])
}

#[test]
fn bootstrap_deploys_one_robot_of_each_kind() {
    let sim = Simulation::bootstrap(empty_map());
    assert_eq!(sim.robots.len(), 4);
    assert_eq!(sim.status, MissionStatus::Running);
    assert_eq!(sim.station.next_robot_id, 5);
    let kinds: Vec<RobotType> = sim.robots.iter().map(|r| r.robot_type).collect();
    assert_eq!(
        kinds,
        vec![
            RobotType::Explorer,
            RobotType::EnergyCollector,
            RobotType::MineralCollector,
            RobotType::ScientificCollector,
        ],
    );
    for (i, r) in sim.robots.iter().enumerate() {
        assert_eq!(r.id, i + 1);
        assert_eq!((r.x, r.y), (sim.map.station_x, sim.map.station_y));
        assert_eq!(r.mode, RobotMode::Exploring);
    }
}

#[test]
fn ticks_advance_the_clock() {
    let mut sim = Simulation::bootstrap(empty_map());
    for _ in 0..5 {
        sim.step();
    }
    assert_eq!(sim.station.current_time, 5);
}

#[test]
fn exploration_percentage_never_decreases() {
    // The station's view of the world only ever grows.
    let mut noise = vec![vec![0; 20]; 20];
    for y in 0..20 {
        for x in 0..20 {
            noise[y][x] = (((x * 31 + y * 17) % 11) as i32) * 60 - 60;
        }
    }
    let mut sim = Simulation::bootstrap(TerrainMap::new(&noise));
    let mut last = sim.station.get_exploration_percentage();
    for _ in 0..60 {
        if sim.status == MissionStatus::Terminated {
            break;
        }
        sim.step();
        let now = sim.station.get_exploration_percentage();
        assert!(now >= last);
        last = now;
    }
}

#[test]
fn fleet_size_never_shrinks_and_spawning_takes_reserves() {
    let mut sim = Simulation::bootstrap(empty_map());
    sim.station.energy_reserves = 1000;
    sim.station.collected_minerals = 100;
    let mut last_len = sim.robots.len();
    for _ in 0..60 {
        if sim.status == MissionStatus::Terminated {
            break;
        }
        sim.step();
        assert!(sim.robots.len() >= last_len);
        last_len = sim.robots.len();
    }
    // The spawn interval elapsed at least once with ample reserves.
    assert!(sim.robots.len() >= 5);
    assert!(sim.station.energy_reserves <= 950);
}

#[test]
fn crossing_the_goal_recalls_and_terminates_at_home() {
    // A fleet already at the station, a knowledge grid over the goal: one
    // tick recalls everyone and, with every robot home, ends the mission.
    let mut sim = Simulation::bootstrap(empty_map());
    for i in 0..390 {
        sim.station.global_memory[i / 20][i % 20] = TerrainData {
            explored: true,
            timestamp: 1,
            robot_id: 1,
            robot_type: RobotType::Explorer,
        };
    }
    sim.step();
    assert_eq!(sim.status, MissionStatus::Terminated);
    for r in sim.robots.iter() {
        assert_eq!((r.x, r.y), (r.home_station_x, r.home_station_y));
        assert_eq!(r.mode, RobotMode::Idle);
    }
}

#[test]
fn mission_does_not_terminate_while_robots_roam() {
    // The goal is crossed, but a robot is away from the station: the mission
    // completes without terminating until the fleet is home.
    let mut sim = Simulation::bootstrap(empty_map());
    for i in 0..390 {
        sim.station.global_memory[i / 20][i % 20] = TerrainData {
            explored: true,
            timestamp: 1,
            robot_id: 1,
            robot_type: RobotType::Explorer,
        };
    }
    sim.robots[0].x = 0;
    sim.robots[0].y = 0;
    sim.step();
    assert_eq!(sim.status, MissionStatus::MissionComplete);
    // The far robot walks home diagonally; within twenty ticks all robots
    // stand at the station and the run terminates.
    for _ in 0..20 {
        if sim.status == MissionStatus::Terminated {
            break;
        }
        sim.step();
    }
    assert_eq!(sim.status, MissionStatus::Terminated);
}
