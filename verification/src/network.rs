use vstd::prelude::*;

use crate::knowledge::{copy_grid, explored_mask, grid_of};
use crate::map::TerrainMap;
use crate::robot::{centi_pct_spec, Robot};
use crate::station::{status_line_spec, Station};
use crate::types::{RobotMode, RobotType, TileType};

verus! {

/// TCP port the snapshot stream is served on.
pub const DEFAULT_PORT: u16 = 8081;

/// Upper bound on one serialized snapshot message.
pub const MAX_MESSAGE_SIZE: usize = 1024 * 1024;

/// The terrain as an observer sees it.
pub struct MapData {
    pub tiles: Vec<Vec<TileType>>,
    pub station_x: usize,
    pub station_y: usize,
}

/// One robot's public state. Percentages are in hundredths of a percent.
pub struct RobotData {
    pub id: usize,
    pub x: usize,
    pub y: usize,
    pub energy: u32,
    pub max_energy: u32,
    pub minerals: u32,
    pub scientific_data: u32,
    pub robot_type: RobotType,
    pub mode: RobotMode,
    pub exploration_percentage: u32,
}

/// The station's public counters. Percentages are in hundredths of a percent.
pub struct StationData {
    pub energy_reserves: u32,
    pub collected_minerals: u32,
    pub collected_scientific_data: u32,
    pub exploration_percentage: u32,
    pub conflict_count: usize,
    pub robot_count: usize,
    pub status_message: String,
}

/// Which cells the station knows, and nothing more: the exploration grid an
/// observer may see.
pub struct ExplorationData {
    pub explored_tiles: Vec<Vec<bool>>,
}

/// One immutable point-in-time export of the whole simulation.
pub struct SimulationState {
    pub map_data: MapData,
    pub robots_data: Vec<RobotData>,
    pub station_data: StationData,
    pub exploration_data: ExplorationData,
    pub iteration: u32,
}

/// What a robot's exported record owes the robot it describes.
pub open spec fn robot_data_matches(d: RobotData, r: Robot) -> bool {
    &&& d.id == r.id
    &&& d.x == r.x && d.y == r.y
    &&& d.energy == r.energy && d.max_energy == r.max_energy
    &&& d.minerals == r.minerals && d.scientific_data == r.scientific_data
    &&& d.robot_type == r.robot_type
    &&& d.mode == r.mode
    &&& d.exploration_percentage == centi_pct_spec(grid_of(&r.memory))
}

pub fn create_map_data(map: &TerrainMap) -> (d: MapData)
    ensures
        grid_of(&d.tiles) == map.grid(),
        d.station_x == map.station_x,
        d.station_y == map.station_y,
{
    MapData {
        tiles: copy_grid(&map.tiles),
        station_x: map.station_x,
        station_y: map.station_y,
    }
}

pub fn create_robot_data(robot: &Robot) -> (d: RobotData)
    requires
        robot.wf(),
    ensures
        robot_data_matches(d, *robot),
{
    RobotData {
        id: robot.id,
        x: robot.x,
        y: robot.y,
        energy: robot.energy,
        max_energy: robot.max_energy,
        minerals: robot.minerals,
        scientific_data: robot.scientific_data,
        robot_type: robot.robot_type,
        mode: robot.mode,
        exploration_percentage: robot.get_exploration_percentage(),
    }
}

pub fn create_station_data(station: &Station) -> (d: StationData)
    requires
        station.wf(),
    ensures
        d.energy_reserves == station.energy_reserves,
        d.collected_minerals == station.collected_minerals,
        d.collected_scientific_data == station.collected_scientific_data,
        d.exploration_percentage == centi_pct_spec(grid_of(&station.global_memory)),
        d.conflict_count == station.conflict_count,
        d.robot_count == station.next_robot_id - 1,
        d.status_message@ == status_line_spec(
            station.energy_reserves,
            station.collected_minerals,
            station.conflict_count,
        ),
{
    StationData {
        energy_reserves: station.energy_reserves,
        collected_minerals: station.collected_minerals,
        collected_scientific_data: station.collected_scientific_data,
        exploration_percentage: station.get_exploration_percentage(),
        conflict_count: station.conflict_count,
        robot_count: station.next_robot_id - 1,
        status_message: station.get_status(),
    }
}

pub fn create_exploration_data(station: &Station) -> (d: ExplorationData)
    requires
        station.wf(),
    ensures
        grid_of(&d.explored_tiles) == explored_mask(grid_of(&station.global_memory)),
{
    let ghost mask = explored_mask(grid_of(&station.global_memory));
    let n = station.global_memory.len();
    let mut explored_tiles: Vec<Vec<bool>> = Vec::new();
    let mut y: usize = 0;
    while y < n
        invariant
            y <= n,
            grid_of(&explored_tiles).len() == y,
            forall|yy: int| 0 <= yy < y ==> (#[trigger] grid_of(&explored_tiles)[yy]) == mask[yy],
        decreases n - y,
    {
        proof {
            assert(grid_of(&station.global_memory)[y as int].len() == n);
        }
        let mut row: Vec<bool> = Vec::new();
        let mut x: usize = 0;
        while x < n
            invariant
                x <= n,
                y < n,
                row@.len() == x,
                forall|xx: int| 0 <= xx < x ==> (#[trigger] row@[xx]) == mask[y as int][xx],
            decreases n - x,
        {
            row.push(station.global_memory[y][x].explored);
            x = x + 1;
        }
        let ghost g0 = grid_of(&explored_tiles);
        explored_tiles.push(row);
        proof {
            assert(grid_of(&explored_tiles) =~= g0.push(row@));
            assert(grid_of(&explored_tiles)[y as int] =~= mask[y as int]);
        }
        y = y + 1;
    }
    proof {
        assert(grid_of(&explored_tiles) =~= mask);
    }
    ExplorationData { explored_tiles }
}

/// Builds the full snapshot handed to the distribution stage; reading the
/// simulation state mutates none of it.
pub fn create_simulation_state(
    map: &TerrainMap,
    station: &Station,
    robots: &Vec<Robot>,
    iteration: u32,
) -> (s: SimulationState)
    requires
        station.wf(),
        forall|i: int| 0 <= i < robots@.len() ==> (#[trigger] robots@[i]).wf(),
    ensures
        grid_of(&s.map_data.tiles) == map.grid(),
        s.map_data.station_x == map.station_x && s.map_data.station_y == map.station_y,
        s.robots_data@.len() == robots@.len(),
        forall|i: int|
            0 <= i < robots@.len() ==> robot_data_matches(
                #[trigger] s.robots_data@[i],
                robots@[i],
            ),
        s.station_data.energy_reserves == station.energy_reserves,
        s.station_data.collected_minerals == station.collected_minerals,
        s.station_data.collected_scientific_data == station.collected_scientific_data,
        s.station_data.robot_count == station.next_robot_id - 1,
        s.station_data.status_message@ == status_line_spec(
            station.energy_reserves,
            station.collected_minerals,
            station.conflict_count,
        ),
        s.station_data.exploration_percentage == centi_pct_spec(grid_of(&station.global_memory)),
        s.station_data.conflict_count == station.conflict_count,
        grid_of(&s.exploration_data.explored_tiles) == explored_mask(
            grid_of(&station.global_memory),
        ),
        s.iteration == iteration,
{
    let map_data = create_map_data(map);
    let mut robots_data: Vec<RobotData> = Vec::new();
    let mut i: usize = 0;
    while i < robots.len()
        invariant
            i <= robots@.len(),
            robots_data@.len() == i,
            forall|j: int|
                0 <= j < i ==> robot_data_matches(#[trigger] robots_data@[j], robots@[j]),
        decreases robots@.len() - i,
    {
        robots_data.push(create_robot_data(&robots[i]));
        i = i + 1;
    }
    let station_data = create_station_data(station);
    let exploration_data = create_exploration_data(station);
    SimulationState { map_data, robots_data, station_data, exploration_data, iteration }
}

} // verus!
