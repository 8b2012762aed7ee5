use vstd::prelude::*;

use crate::knowledge::{copy_grid, grid_of, mem_wf, merge_cell, merge_conflicts, merged_grid,
    TerrainData};
use crate::map::{tile_count, TerrainMap};
use crate::robot::{centi_pct_spec, exploration_centi_pct, Robot};
use crate::types::{RobotMode, RobotType, TileType, MAP_SIZE};

verus! {

/// Energy a new robot costs the station.
pub const ROBOT_ENERGY_COST: u32 = 50;

/// Minerals a new robot costs the station.
pub const ROBOT_MINERAL_COST: u32 = 15;

/// A coarse report of the station's reserves.
#[derive(Clone, Copy, Debug, PartialEq, Eq, Structural)]
pub enum StationStatus {
    LowEnergy,
    LowMinerals,
    Abundant,
    Adequate,
}

/// The central coordinator: resource reserves, the authoritative knowledge
/// grid, merge statistics, the robot id counter and the global clock.
pub struct Station {
    pub energy_reserves: u32,
    pub collected_minerals: u32,
    pub collected_scientific_data: u32,
    pub global_memory: Vec<Vec<TerrainData>>,
    pub conflict_count: usize,
    pub next_robot_id: usize,
    pub current_time: u32,
}

/// Which coarse status the station's counters call for.
pub open spec fn status_spec(energy: u32, minerals: u32) -> StationStatus {
    if energy < 30 {
        StationStatus::LowEnergy
    } else if minerals < 10 {
        StationStatus::LowMinerals
    } else if energy >= 200 && minerals >= 50 {
        StationStatus::Abundant
    } else {
        StationStatus::Adequate
    }
}

/// The robot kind the station builds next, chosen from what the map still
/// offers and what the reserves look like; the first matching rule wins.
pub open spec fn needed_robot_type_spec(
    energy_reserves: u32,
    collected_minerals: u32,
    energy_tiles: int,
    mineral_tiles: int,
    scientific_tiles: int,
) -> RobotType {
    if energy_tiles > 0 && (energy_tiles <= 3 || energy_reserves < 100) {
        RobotType::EnergyCollector
    } else if mineral_tiles > 0 && (mineral_tiles <= 5 || collected_minerals < 30) {
        RobotType::MineralCollector
    } else if scientific_tiles > 0 && energy_reserves >= 100 {
        RobotType::ScientificCollector
    } else {
        RobotType::Explorer
    }
}

/// The text std's formatter renders for a status line with these arguments;
/// formatting is a function of the arguments alone.
pub uninterp spec fn status_line_of(
    label: Seq<char>,
    energy_progress: u32,
    energy_goal: u32,
    mineral_progress: u32,
    mineral_goal: u32,
    conflicts: usize,
) -> Seq<char>;

/// The label each coarse status renders as.
pub open spec fn status_label_spec(k: StationStatus) -> Seq<char> {
    match k {
        StationStatus::LowEnergy => "Low energy"@,
        StationStatus::LowMinerals => "Low minerals"@,
        StationStatus::Abundant => "Abundant resources"@,
        StationStatus::Adequate => "Adequate resources"@,
    }
}

/// The status line owed for these counters: the label of their coarse
/// status, the progress toward the next robot's costs, and the conflicts
/// resolved so far, rendered by the formatter.
pub open spec fn status_line_spec(energy: u32, minerals: u32, conflicts: usize) -> Seq<char> {
    status_line_of(
        status_label_spec(status_spec(energy, minerals)),
        if energy < ROBOT_ENERGY_COST {
            energy
        } else {
            ROBOT_ENERGY_COST
        },
        ROBOT_ENERGY_COST,
        if minerals < ROBOT_MINERAL_COST {
            minerals
        } else {
            ROBOT_MINERAL_COST
        },
        ROBOT_MINERAL_COST,
        conflicts,
    )
}

/// Relies on std's string formatting to render the station status line; the
/// result depends on the arguments alone.
#[verifier::external_body]
fn format_status(
    label: &str,
    energy_progress: u32,
    energy_goal: u32,
    mineral_progress: u32,
    mineral_goal: u32,
    conflicts: usize,
) -> (s: String)
    ensures
        s@ == status_line_of(
            label@,
            energy_progress,
            energy_goal,
            mineral_progress,
            mineral_goal,
            conflicts,
        ),
{
    format!(
        "{} | robot build: {}/{} energy, {}/{} minerals | conflicts: {}",
        label, energy_progress, energy_goal, mineral_progress, mineral_goal, conflicts,
    )
}

impl Station {
    /// Side length of the authoritative knowledge grid.
    pub open spec fn side(&self) -> int {
        grid_of(&self.global_memory).len() as int
    }

    pub open spec fn wf(&self) -> bool {
        &&& mem_wf(grid_of(&self.global_memory))
        &&& 1 <= self.side() <= 46340
        &&& self.next_robot_id >= 1
    }

    /// A fresh station: starting reserves, an unexplored knowledge grid, the
    /// clock at zero and robot ids starting at one.
    pub fn new() -> (s: Station)
        ensures
            s.wf(),
            s.side() == MAP_SIZE,
            s.energy_reserves == 100,
            s.collected_minerals == 0,
            s.collected_scientific_data == 0,
            s.conflict_count == 0,
            s.next_robot_id == 1,
            s.current_time == 0,
            forall|y: int, x: int|
                0 <= y < MAP_SIZE && 0 <= x < MAP_SIZE ==> (#[trigger] grid_of(
                    &s.global_memory,
                )[y][x]) == TerrainData::unknown_spec(),
    {
        let global_memory = crate::knowledge::unknown_grid(MAP_SIZE);
        Station {
            energy_reserves: 100,
            collected_minerals: 0,
            collected_scientific_data: 0,
            global_memory,
            conflict_count: 0,
            next_robot_id: 1,
            current_time: 0,
        }
    }

    /// Advances the global clock by one tick; nothing else changes.
    pub fn tick(&mut self)
        requires
            old(self).wf(),
            old(self).current_time < u32::MAX,
        ensures
            final(self).wf(),
            final(self).current_time == old(self).current_time + 1,
            final(self).energy_reserves == old(self).energy_reserves,
            final(self).collected_minerals == old(self).collected_minerals,
            final(self).collected_scientific_data == old(self).collected_scientific_data,
            final(self).global_memory == old(self).global_memory,
            final(self).conflict_count == old(self).conflict_count,
            final(self).next_robot_id == old(self).next_robot_id,
    {
        self.current_time = self.current_time + 1;
    }

    /// The last-writer-wins merge protocol, run when a robot docks.
    ///
    /// Every cell the robot knows and the station does not is adopted without
    /// a conflict; where both know a cell, the strictly newer record wins and
    /// a robot win counts as one resolved conflict. Afterwards the robot's
    /// whole grid is overwritten with the updated station grid, so robot and
    /// station leave the merge cell-for-cell equal. Away from its home
    /// station the call is a no-op.
    pub fn share_knowledge(&mut self, robot: &mut Robot)
        requires
            old(self).wf(),
            old(robot).wf(),
            old(robot).side() == old(self).side(),
            old(self).conflict_count + old(self).side() * old(self).side() <= usize::MAX,
        ensures
            final(self).wf(),
            final(robot).wf(),
            final(self).side() == old(self).side(),
            final(robot).side() == old(robot).side(),
            final(self).energy_reserves == old(self).energy_reserves,
            final(self).collected_minerals == old(self).collected_minerals,
            final(self).collected_scientific_data == old(self).collected_scientific_data,
            final(self).next_robot_id == old(self).next_robot_id,
            final(self).current_time == old(self).current_time,
            final(robot).id == old(robot).id,
            final(robot).x == old(robot).x && final(robot).y == old(robot).y,
            final(robot).energy == old(robot).energy,
            final(robot).max_energy == old(robot).max_energy,
            final(robot).minerals == old(robot).minerals,
            final(robot).scientific_data == old(robot).scientific_data,
            final(robot).robot_type == old(robot).robot_type,
            final(robot).mode == old(robot).mode,
            final(robot).home_station_x == old(robot).home_station_x,
            final(robot).home_station_y == old(robot).home_station_y,
            old(robot).x == old(robot).home_station_x && old(robot).y == old(
                robot,
            ).home_station_y ==> {
                &&& grid_of(&final(self).global_memory) == merged_grid(
                    grid_of(&old(robot).memory),
                    grid_of(&old(self).global_memory),
                )
                &&& grid_of(&final(robot).memory) == grid_of(&final(self).global_memory)
                &&& final(self).conflict_count == old(self).conflict_count + merge_conflicts(
                    grid_of(&old(robot).memory),
                    grid_of(&old(self).global_memory),
                )
            },
            !(old(robot).x == old(robot).home_station_x && old(robot).y == old(
                robot,
            ).home_station_y) ==> {
                &&& final(self).global_memory == old(self).global_memory
                &&& final(self).conflict_count == old(self).conflict_count
                &&& final(robot).memory == old(robot).memory
            },
    {
        if !(robot.x == robot.home_station_x && robot.y == robot.home_station_y) {
            return ;
        }
        let ghost rm = grid_of(&robot.memory);
        let ghost gm0 = grid_of(&self.global_memory);
        let conflicts = crate::knowledge::merge_into(&mut self.global_memory, &robot.memory);
        self.conflict_count = self.conflict_count + conflicts;
        let ghost gm1 = grid_of(&self.global_memory);
        proof {
            let n = gm0.len() as int;
            assert forall|yy: int, xx: int|
                0 <= yy < n && 0 <= xx < n && !(#[trigger] gm1[yy][xx]).explored implies gm1[yy][xx]
                == TerrainData::unknown_spec() by {
                assert(gm1[yy][xx] == merge_cell(rm[yy][xx], gm0[yy][xx]));
                assert(!rm[yy][xx].explored && !gm0[yy][xx].explored);
            }
            assert(mem_wf(gm1));
        }
        crate::knowledge::adopt_explored(&mut robot.memory, &self.global_memory);
        proof {
            let n = gm0.len() as int;
            assert forall|yy: int, xx: int| 0 <= yy < n && 0 <= xx < n implies (#[trigger] grid_of(
                &robot.memory,
            )[yy][xx]) == gm1[yy][xx] by {
                if !gm1[yy][xx].explored {
                    assert(gm1[yy][xx] == TerrainData::unknown_spec());
                    assert(gm1[yy][xx] == merge_cell(rm[yy][xx], gm0[yy][xx]));
                    assert(!rm[yy][xx].explored);
                    assert(rm[yy][xx] == TerrainData::unknown_spec());
                }
            }
            assert(grid_of(&robot.memory) =~~= gm1);
        }
    }

    /// Spends 50 energy and 15 minerals to build a robot of the kind the
    /// heuristic calls for, seeded with a copy of the station's knowledge and
    /// placed at the station; with insufficient reserves nothing changes.
    pub fn try_create_robot(&mut self, map: &TerrainMap) -> (r: Option<Robot>)
        requires
            old(self).wf(),
            map.wf(),
            map.side() == old(self).side(),
            old(self).next_robot_id < usize::MAX,
        ensures
            final(self).wf(),
            final(self).side() == old(self).side(),
            r.is_some() <==> (old(self).energy_reserves >= ROBOT_ENERGY_COST && old(
                self,
            ).collected_minerals >= ROBOT_MINERAL_COST),
            r.is_none() ==> *final(self) == *old(self),
            r.is_some() ==> {
                &&& final(self).energy_reserves == old(self).energy_reserves - ROBOT_ENERGY_COST
                &&& final(self).collected_minerals == old(self).collected_minerals
                    - ROBOT_MINERAL_COST
                &&& final(self).next_robot_id == old(self).next_robot_id + 1
                &&& final(self).collected_scientific_data == old(self).collected_scientific_data
                &&& final(self).global_memory == old(self).global_memory
                &&& final(self).conflict_count == old(self).conflict_count
                &&& final(self).current_time == old(self).current_time
            },
            r.is_some() ==> {
                &&& r.unwrap().wf()
                &&& r.unwrap().id == old(self).next_robot_id
                &&& r.unwrap().x == map.station_x && r.unwrap().y == map.station_y
                &&& r.unwrap().home_station_x == map.station_x && r.unwrap().home_station_y
                    == map.station_y
                &&& r.unwrap().mode == RobotMode::Exploring
                &&& r.unwrap().minerals == 0 && r.unwrap().scientific_data == 0
                &&& grid_of(&r.unwrap().memory) == grid_of(&old(self).global_memory)
                &&& r.unwrap().robot_type == needed_robot_type_spec(
                    old(self).energy_reserves,
                    old(self).collected_minerals,
                    tile_count(map.grid(), TileType::Energy),
                    tile_count(map.grid(), TileType::Mineral),
                    tile_count(map.grid(), TileType::Scientific),
                )
            },
    {
        if self.energy_reserves >= ROBOT_ENERGY_COST && self.collected_minerals
            >= ROBOT_MINERAL_COST {
            let robot_type = self.determine_needed_robot_type(map);
            self.energy_reserves = self.energy_reserves - ROBOT_ENERGY_COST;
            self.collected_minerals = self.collected_minerals - ROBOT_MINERAL_COST;
            let new_robot_id = self.next_robot_id;
            self.next_robot_id = self.next_robot_id + 1;
            let memory = copy_grid(&self.global_memory);
            Some(
                Robot::new_with_memory(
                    map.station_x,
                    map.station_y,
                    robot_type,
                    new_robot_id,
                    map.station_x,
                    map.station_y,
                    memory,
                ),
            )
        } else {
            None
        }
    }

    /// Ranks which robot kind the station needs most right now.
    fn determine_needed_robot_type(&self, map: &TerrainMap) -> (t: RobotType)
        requires
            map.wf(),
        ensures
            t == needed_robot_type_spec(
                self.energy_reserves,
                self.collected_minerals,
                tile_count(map.grid(), TileType::Energy),
                tile_count(map.grid(), TileType::Mineral),
                tile_count(map.grid(), TileType::Scientific),
            ),
    {
        let energy_count = map.count_tiles(TileType::Energy);
        let mineral_count = map.count_tiles(TileType::Mineral);
        let scientific_count = map.count_tiles(TileType::Scientific);
        if energy_count > 0 && (energy_count <= 3 || self.energy_reserves < 100) {
            RobotType::EnergyCollector
        } else if mineral_count > 0 && (mineral_count <= 5 || self.collected_minerals < 30) {
            RobotType::MineralCollector
        } else if scientific_count > 0 && self.energy_reserves >= 100 {
            RobotType::ScientificCollector
        } else {
            RobotType::Explorer
        }
    }

    /// Books delivered cargo: both counters grow, and each mineral also funds
    /// one unit of energy reserves.
    pub fn deposit_resources(&mut self, minerals: u32, scientific_data: u32)
        requires
            old(self).wf(),
            old(self).collected_minerals + minerals <= u32::MAX,
            old(self).collected_scientific_data + scientific_data <= u32::MAX,
            old(self).energy_reserves + minerals <= u32::MAX,
        ensures
            final(self).wf(),
            final(self).collected_minerals == old(self).collected_minerals + minerals,
            final(self).collected_scientific_data == old(self).collected_scientific_data
                + scientific_data,
            final(self).energy_reserves == old(self).energy_reserves + minerals,
            final(self).global_memory == old(self).global_memory,
            final(self).conflict_count == old(self).conflict_count,
            final(self).next_robot_id == old(self).next_robot_id,
            final(self).current_time == old(self).current_time,
    {
        self.collected_minerals = self.collected_minerals + minerals;
        self.collected_scientific_data = self.collected_scientific_data + scientific_data;
        self.energy_reserves = self.energy_reserves + minerals;
    }

    /// The coarse status the counters call for.
    pub fn status_kind(&self) -> (k: StationStatus)
        ensures
            k == status_spec(self.energy_reserves, self.collected_minerals),
    {
        if self.energy_reserves < 30 {
            StationStatus::LowEnergy
        } else if self.collected_minerals < 10 {
            StationStatus::LowMinerals
        } else if self.energy_reserves >= 200 && self.collected_minerals >= 50 {
            StationStatus::Abundant
        } else {
            StationStatus::Adequate
        }
    }

    /// A one-line human-readable report of the reserves, the progress toward
    /// the next robot, and the conflicts resolved so far. The classification
    /// it renders is the one `status_kind` proves.
    pub fn get_status(&self) -> (s: String)
        ensures
            s@ == status_line_spec(self.energy_reserves, self.collected_minerals, self.conflict_count),
    {
        let kind = self.status_kind();
        let label = match kind {
            StationStatus::LowEnergy => "Low energy",
            StationStatus::LowMinerals => "Low minerals",
            StationStatus::Abundant => "Abundant resources",
            StationStatus::Adequate => "Adequate resources",
        };
        let energy_progress = if self.energy_reserves < ROBOT_ENERGY_COST {
            self.energy_reserves
        } else {
            ROBOT_ENERGY_COST
        };
        let mineral_progress = if self.collected_minerals < ROBOT_MINERAL_COST {
            self.collected_minerals
        } else {
            ROBOT_MINERAL_COST
        };
        format_status(
            label,
            energy_progress,
            ROBOT_ENERGY_COST,
            mineral_progress,
            ROBOT_MINERAL_COST,
            self.conflict_count,
        )
    }

    /// How much of the grid the station knows, in hundredths of a percent.
    pub fn get_exploration_percentage(&self) -> (p: u32)
        requires
            self.wf(),
        ensures
            p == centi_pct_spec(grid_of(&self.global_memory)),
            p <= 10000,
    {
        exploration_centi_pct(&self.global_memory)
    }
}

} // verus!
