use vstd::prelude::*;

use crate::knowledge::{explored_grows, grid_of, TerrainData};
use crate::map::{adjacent8, dist1, open_cell, tile_count, TerrainMap};
use crate::robot::{cargo_full_spec, centi_pct_spec, has_matching_neighbor,
    lemma_centi_pct_le, Robot, CARGO_CAPACITY};
use crate::station::{needed_robot_type_spec, Station, ROBOT_ENERGY_COST, ROBOT_MINERAL_COST};
use crate::types::{RobotMode, RobotType, TileType, MAP_SIZE};

verus! {

/// The state machine over the whole run.
#[derive(Clone, Copy, Debug, PartialEq, Eq, Structural)]
pub enum MissionStatus {
    Running,
    MissionComplete,
    Terminated,
}

/// The mission counts as complete at 95 percent exploration, expressed in
/// hundredths of a percent.
pub const EXPLORATION_GOAL_CENTI: u32 = 9500;

/// How many ticks separate two spawn attempts.
pub const SPAWN_INTERVAL: u32 = 50;

pub open spec fn status_rank(s: MissionStatus) -> int {
    match s {
        MissionStatus::Running => 0,
        MissionStatus::MissionComplete => 1,
        MissionStatus::Terminated => 2,
    }
}

/// Every robot of the fleet stands on its home station cell.
pub open spec fn fleet_home(robots: Seq<Robot>) -> bool {
    forall|i: int|
        0 <= i < robots.len() ==> (#[trigger] robots[i]).x == robots[i].home_station_x
            && robots[i].y == robots[i].home_station_y
}

/// One simulation: the terrain, the station, the fleet, and where the run
/// stands. A tick mutates all of it atomically.
pub struct Simulation {
    pub map: TerrainMap,
    pub station: Station,
    pub robots: Vec<Robot>,
    pub status: MissionStatus,
    pub ticks_since_spawn: u32,
}

/// A running mission whose knowledge has just reached the exploration goal:
/// the tick that sees this recalls the whole fleet.
pub open spec fn mission_crossing(s: Simulation) -> bool {
    s.status == MissionStatus::Running && centi_pct_spec(grid_of(&s.station.global_memory))
        >= EXPLORATION_GOAL_CENTI
}

/// The mission is complete by the time this tick's robots act: either it
/// already was, or the goal is crossed as the tick opens.
pub open spec fn goal_reached_entering(s: Simulation) -> bool {
    s.status == MissionStatus::MissionComplete || mission_crossing(s)
}

/// A robot as the whole-fleet recall leaves it: sent home, or left alone.
pub open spec fn recalled_for_mission(r: Robot, crossing: bool) -> Robot {
    if crossing {
        Robot { mode: RobotMode::ReturnToStation, ..r }
    } else {
        r
    }
}

/// A robot after the tick loop's energy-exhaustion recovery: teleported home,
/// refunded half of its maximum energy, and parked in Idle.
pub open spec fn force_recalled(r: Robot) -> Robot {
    Robot {
        x: r.home_station_x,
        y: r.home_station_y,
        energy: (r.max_energy / 2) as u32,
        mode: RobotMode::Idle,
        ..r
    }
}

/// The recovery applies exactly when the robot's energy ran out.
pub open spec fn recall_if_drained(r: Robot) -> Robot {
    if r.energy == 0 {
        force_recalled(r)
    } else {
        r
    }
}

/// A robot of a complete mission that stands at home is parked in Idle;
/// every other robot is left alone.
pub open spec fn parked(r: Robot, complete: bool) -> Robot {
    if complete && r.x == r.home_station_x && r.y == r.home_station_y && r.mode
        != RobotMode::Idle {
        Robot { mode: RobotMode::Idle, ..r }
    } else {
        r
    }
}

/// How one call of `Robot::update` may evolve a robot, seen from the robot
/// alone: identity is kept, and each behavioral mode allows exactly its own
/// outcomes — an idle or drained robot is untouched, an explorer steps onto
/// an adjacent cell and records it at tick `now`, a collector books at most
/// one unit of cargo, a returning robot approaches home, and a docked robot
/// hands over its cargo and resumes exploring.
#[verifier::opaque]
pub open spec fn acted(r0: Robot, r1: Robot, now: u32) -> bool {
    &&& r1.id == r0.id
    &&& r1.robot_type == r0.robot_type
    &&& r1.max_energy == r0.max_energy
    &&& r1.home_station_x == r0.home_station_x
    &&& r1.home_station_y == r0.home_station_y
    &&& r1.side() == r0.side()
    &&& match r0.mode {
        RobotMode::Idle => r1 == r0,
        RobotMode::Exploring => if r0.energy == 0 {
            r1 == r0
        } else {
            &&& r1.energy == r0.energy - 1
            &&& r1.minerals == r0.minerals && r1.scientific_data == r0.scientific_data
            &&& ((r1.x, r1.y) == (r0.x, r0.y) || adjacent8(
                r0.x as int,
                r0.y as int,
                r1.x as int,
                r1.y as int,
            ))
            &&& grid_of(&r1.memory) == grid_of(&r0.memory).update(
                r1.y as int,
                grid_of(&r0.memory)[r1.y as int].update(
                    r1.x as int,
                    TerrainData {
                        explored: true,
                        timestamp: now,
                        robot_id: r0.id,
                        robot_type: r0.robot_type,
                    },
                ),
            )
            &&& (r1.mode == RobotMode::Exploring || r1.mode == RobotMode::Collecting)
        },
        RobotMode::Collecting => if r0.energy == 0 {
            r1 == r0
        } else {
            &&& r1.memory == r0.memory
            &&& r1.minerals >= r0.minerals
            &&& r1.scientific_data >= r0.scientific_data
            &&& r1.minerals + r1.scientific_data <= r0.minerals + r0.scientific_data + 1
            &&& ((r1.x, r1.y) == (r0.x, r0.y) || adjacent8(
                r0.x as int,
                r0.y as int,
                r1.x as int,
                r1.y as int,
            ))
            &&& (r1.mode == RobotMode::Collecting || r1.mode == RobotMode::ReturnToStation
                || r1.mode == RobotMode::Exploring)
        },
        RobotMode::ReturnToStation => if r0.x == r0.home_station_x && r0.y
            == r0.home_station_y {
            &&& r1.minerals == 0 && r1.scientific_data == 0
            &&& r1.mode == RobotMode::Exploring
            &&& r1.x == r0.x && r1.y == r0.y
            &&& r1.energy == r0.energy
        } else if r0.energy == 0 {
            r1 == r0
        } else {
            &&& r1.memory == r0.memory
            &&& r1.minerals == r0.minerals && r1.scientific_data == r0.scientific_data
            &&& r1.energy == r0.energy - 1
            &&& r1.mode == RobotMode::ReturnToStation
            &&& dist1(r1.x as int, r0.home_station_x as int) + dist1(
                r1.y as int,
                r0.home_station_y as int,
            ) <= dist1(r0.x as int, r0.home_station_x as int) + dist1(
                r0.y as int,
                r0.home_station_y as int,
            )
        },
    }
}

impl Simulation {
    pub open spec fn side(&self) -> int {
        self.map.side()
    }

    /// Every robot agrees with the terrain: well formed, gridded like the
    /// map, homed at the station, and standing on a walkable cell.
    pub open spec fn robots_wf(&self) -> bool {
        forall|i: int|
            0 <= i < self.robots@.len() ==> {
                let r = #[trigger] self.robots@[i];
                &&& r.wf()
                &&& r.side() == self.map.side()
                &&& r.home_station_x == self.map.station_x
                &&& r.home_station_y == self.map.station_y
                &&& open_cell(self.map.grid(), r.x as int, r.y as int)
            }
    }

    pub open spec fn wf(&self) -> bool {
        &&& self.map.wf()
        &&& self.station.wf()
        &&& self.station.side() == self.map.side()
        &&& self.robots_wf()
        &&& self.status != MissionStatus::Running ==> centi_pct_spec(
            grid_of(&self.station.global_memory),
        ) >= EXPLORATION_GOAL_CENTI
    }

    /// The initial deployment: a fresh station and one robot of each kind,
    /// ids 1 through 4, all placed at the station in Exploring mode with a
    /// copy of the station's still-unexplored knowledge.
    pub fn bootstrap(map: TerrainMap) -> (s: Simulation)
        requires
            map.wf(),
            map.side() == MAP_SIZE,
        ensures
            s.wf(),
            s.status == MissionStatus::Running,
            s.ticks_since_spawn == 0,
            s.map == map,
            s.robots@.len() == 4,
            s.station.next_robot_id == 5,
            s.station.current_time == 0,
            forall|i: int|
                0 <= i < 4 ==> (#[trigger] s.robots@[i]).id == i + 1 && s.robots@[i].mode
                    == RobotMode::Exploring,
            forall|i: int|
                0 <= i < 4 ==> {
                    let r = #[trigger] s.robots@[i];
                    &&& r.x == map.station_x && r.y == map.station_y
                    &&& r.home_station_x == map.station_x && r.home_station_y == map.station_y
                    &&& grid_of(&r.memory) == grid_of(&s.station.global_memory)
                },
            forall|y: int, x: int|
                0 <= y < MAP_SIZE && 0 <= x < MAP_SIZE ==> (#[trigger] grid_of(
                    &s.station.global_memory,
                )[y][x]) == TerrainData::unknown_spec(),
            s.robots@[0].robot_type == RobotType::Explorer,
            s.robots@[1].robot_type == RobotType::EnergyCollector,
            s.robots@[2].robot_type == RobotType::MineralCollector,
            s.robots@[3].robot_type == RobotType::ScientificCollector,
    {
        let mut station = Station::new();
        let sx = map.station_x;
        let sy = map.station_y;
        let mut robots: Vec<Robot> = Vec::new();
        let m1 = crate::knowledge::copy_grid(&station.global_memory);
        robots.push(Robot::new_with_memory(sx, sy, RobotType::Explorer, 1, sx, sy, m1));
        let m2 = crate::knowledge::copy_grid(&station.global_memory);
        robots.push(Robot::new_with_memory(sx, sy, RobotType::EnergyCollector, 2, sx, sy, m2));
        let m3 = crate::knowledge::copy_grid(&station.global_memory);
        robots.push(Robot::new_with_memory(sx, sy, RobotType::MineralCollector, 3, sx, sy, m3));
        let m4 = crate::knowledge::copy_grid(&station.global_memory);
        robots.push(Robot::new_with_memory(sx, sy, RobotType::ScientificCollector, 4, sx, sy, m4));
        station.next_robot_id = 5;
        Simulation {
            map,
            station,
            robots,
            status: MissionStatus::Running,
            ticks_since_spawn: 0,
        }
    }

    /// Whether every robot stands on its home station cell.
    pub fn all_robots_home(&self) -> (r: bool)
        ensures
            r == fleet_home(self.robots@),
    {
        let mut i: usize = 0;
        while i < self.robots.len()
            invariant
                i <= self.robots@.len(),
                forall|j: int|
                    0 <= j < i ==> (#[trigger] self.robots@[j]).x == self.robots@[j].home_station_x
                        && self.robots@[j].y == self.robots@[j].home_station_y,
            decreases self.robots@.len() - i,
        {
            let r = &self.robots[i];
            if !(r.x == r.home_station_x && r.y == r.home_station_y) {
                return false;
            }
            i = i + 1;
        }
        true
    }

    /// One atomic tick.
    ///
    /// The clock advances; crossing the exploration goal recalls the whole
    /// fleet and marks the mission complete; every robot acts, an exhausted
    /// one is force-recalled, and a robot that reaches home after the recall
    /// is parked in Idle; every 50 ticks of a running mission the station
    /// spawns one robot if its reserves cover the costs; and a complete
    /// mission whose fleet stands at the station terminates. A force-recalled
    /// robot stays Idle until an external transition resumes it; nothing in
    /// the tick loop does, so a parked fleet only moves again by the caller's
    /// choice.
    #[verifier::rlimit(100)]
    pub fn step(&mut self)
        requires
            old(self).wf(),
            old(self).status != MissionStatus::Terminated,
            old(self).station.current_time < u32::MAX,
            old(self).ticks_since_spawn < u32::MAX,
            old(self).station.next_robot_id < usize::MAX,
            old(self).station.collected_minerals + CARGO_CAPACITY * old(self).robots@.len()
                <= u32::MAX,
            old(self).station.collected_scientific_data + CARGO_CAPACITY * old(
                self,
            ).robots@.len() <= u32::MAX,
            old(self).station.energy_reserves + CARGO_CAPACITY * old(self).robots@.len()
                <= u32::MAX,
            old(self).station.conflict_count + old(self).side() * old(self).side() * old(
                self,
            ).robots@.len() <= usize::MAX,
        ensures
            final(self).wf(),
            final(self).side() == old(self).side(),
            final(self).map.station_x == old(self).map.station_x,
            final(self).map.station_y == old(self).map.station_y,
            final(self).station.current_time == old(self).station.current_time + 1,
            explored_grows(
                grid_of(&old(self).station.global_memory),
                grid_of(&final(self).station.global_memory),
            ),
            centi_pct_spec(grid_of(&final(self).station.global_memory)) >= centi_pct_spec(
                grid_of(&old(self).station.global_memory),
            ),
            status_rank(final(self).status) >= status_rank(old(self).status),
            // The run's status transitions, exactly.
            (final(self).status == MissionStatus::Running) <==> !goal_reached_entering(
                *old(self),
            ),
            (final(self).status == MissionStatus::Terminated) <==> (goal_reached_entering(
                *old(self),
            ) && fleet_home(final(self).robots@)),
            // Every robot of the entering fleet acted: recalled to the
            // station on a goal crossing, evolved by its state machine,
            // force-recalled exactly if that left it drained, and parked in
            // Idle if it stands at home with the mission complete.
            forall|i: int|
                #![trigger old(self).robots@[i]]
                0 <= i < old(self).robots@.len() ==> exists|mid: Robot|
                    #[trigger] acted(
                        recalled_for_mission(
                            old(self).robots@[i],
                            mission_crossing(*old(self)),
                        ),
                        mid,
                        (old(self).station.current_time + 1) as u32,
                    ) && final(self).robots@[i] == parked(
                        recall_if_drained(mid),
                        goal_reached_entering(*old(self)),
                    ),
            // Spawning: exactly one robot may join, only on an elapsed
            // interval of a running mission; ample reserves entering the tick
            // guarantee it, and the newcomer meets the spawn contract.
            final(self).robots@.len() == old(self).robots@.len() || final(self).robots@.len()
                == old(self).robots@.len() + 1,
            final(self).robots@.len() == old(self).robots@.len() + 1 ==> {
                &&& !goal_reached_entering(*old(self))
                &&& old(self).ticks_since_spawn + 1 >= SPAWN_INTERVAL
                &&& {
                    let r = final(self).robots@[old(self).robots@.len() as int];
                    &&& r.id == old(self).station.next_robot_id
                    &&& r.x == old(self).map.station_x && r.y == old(self).map.station_y
                    &&& r.home_station_x == old(self).map.station_x && r.home_station_y == old(
                        self,
                    ).map.station_y
                    &&& r.mode == RobotMode::Exploring
                    &&& r.minerals == 0 && r.scientific_data == 0
                    &&& grid_of(&r.memory) == grid_of(&final(self).station.global_memory)
                    &&& r.robot_type == needed_robot_type_spec(
                        (final(self).station.energy_reserves + ROBOT_ENERGY_COST) as u32,
                        (final(self).station.collected_minerals + ROBOT_MINERAL_COST) as u32,
                        tile_count(final(self).map.grid(), TileType::Energy),
                        tile_count(final(self).map.grid(), TileType::Mineral),
                        tile_count(final(self).map.grid(), TileType::Scientific),
                    )
                }
            },
            final(self).robots@.len() == old(self).robots@.len() ==> (goal_reached_entering(
                *old(self),
            ) || old(self).ticks_since_spawn + 1 < SPAWN_INTERVAL || final(self).station.energy_reserves < ROBOT_ENERGY_COST || final(self).station.collected_minerals
                < ROBOT_MINERAL_COST),
            (!goal_reached_entering(*old(self)) && old(self).ticks_since_spawn + 1
                >= SPAWN_INTERVAL && old(self).station.energy_reserves >= ROBOT_ENERGY_COST && old(
                self,
            ).station.collected_minerals >= ROBOT_MINERAL_COST) ==> final(self).robots@.len()
                == old(self).robots@.len() + 1,
            final(self).ticks_since_spawn as int == (if final(self).robots@.len() == old(
                self,
            ).robots@.len() + 1 {
                0int
            } else {
                old(self).ticks_since_spawn + 1
            }),
            final(self).station.next_robot_id as int == old(self).station.next_robot_id + (
            if final(self).robots@.len() == old(self).robots@.len() + 1 {
                1int
            } else {
                0int
            }),
    {
        let ghost gm_start = grid_of(&self.station.global_memory);
        let ghost crossing = mission_crossing(*old(self));
        let ghost complete = goal_reached_entering(*old(self));
        let ghost now32 = (old(self).station.current_time + 1) as u32;

        // Advance the clock.
        self.station.tick();
        proof {
            assert(grid_of(&self.station.global_memory) == gm_start);
        }

        // Crossing the goal recalls the fleet.
        let pct = self.station.get_exploration_percentage();
        if pct >= EXPLORATION_GOAL_CENTI && matches!(self.status, MissionStatus::Running) {
            let ghost st_t = self.station;
            let mut i: usize = 0;
            while i < self.robots.len()
                invariant
                    i <= self.robots@.len(),
                    self.robots@.len() == old(self).robots@.len(),
                    self.map == old(self).map,
                    self.station == st_t,
                    self.status == old(self).status,
                    self.ticks_since_spawn == old(self).ticks_since_spawn,
                    forall|j: int|
                        0 <= j < i ==> (#[trigger] self.robots@[j]) == recalled_for_mission(
                            old(self).robots@[j],
                            true,
                        ),
                    forall|j: int|
                        i <= j < self.robots@.len() ==> (#[trigger] self.robots@[j]) == old(
                            self,
                        ).robots@[j],
                decreases self.robots@.len() - i,
            {
                self.robots[i].mode = RobotMode::ReturnToStation;
                proof {
                    assert(self.robots@[i as int] == recalled_for_mission(
                        old(self).robots@[i as int],
                        true,
                    ));
                }
                i = i + 1;
            }
            self.status = MissionStatus::MissionComplete;
        }
        proof {
            assert forall|j: int| 0 <= j < self.robots@.len() implies (#[trigger] self.robots@[j])
                == recalled_for_mission(old(self).robots@[j], crossing) by {}
            assert(self.status == (if complete {
                MissionStatus::MissionComplete
            } else {
                MissionStatus::Running
            }));
        }

        // Every robot acts; exhaustion is recovered by force recall, and a
        // recalled fleet parks at home.
        let n = self.robots.len();
        let ghost gm_tick = grid_of(&self.station.global_memory);
        let mut updated: Vec<Robot> = Vec::new();
        let ghost mut mids: Seq<Robot> = Seq::empty();
        let mut k: usize = 0;
        while k < n
            invariant
                k <= n,
                n == old(self).robots@.len(),
                self.robots@.len() == n - k,
                updated@.len() == k,
                mids.len() == k,
                self.map.wf(),
                self.station.wf(),
                self.station.side() == self.map.side(),
                self.map.side() == old(self).map.side(),
                self.map.station_x == old(self).map.station_x,
                self.map.station_y == old(self).map.station_y,
                self.station.current_time == old(self).station.current_time + 1,
                self.station.next_robot_id == old(self).station.next_robot_id,
                self.ticks_since_spawn == old(self).ticks_since_spawn,
                self.station.collected_minerals <= old(self).station.collected_minerals
                    + CARGO_CAPACITY * k,
                self.station.collected_scientific_data <= old(
                    self,
                ).station.collected_scientific_data + CARGO_CAPACITY * k,
                self.station.energy_reserves <= old(self).station.energy_reserves + CARGO_CAPACITY
                    * k,
                self.station.conflict_count <= old(self).station.conflict_count + old(
                    self,
                ).side() * old(self).side() * k,
                self.station.collected_minerals >= old(self).station.collected_minerals,
                self.station.energy_reserves >= old(self).station.energy_reserves,
                explored_grows(gm_tick, grid_of(&self.station.global_memory)),
                forall|x: int, y: int| #[trigger]
                    open_cell(old(self).map.grid(), x, y) ==> open_cell(self.map.grid(), x, y),
                forall|j: int|
                    0 <= j < self.robots@.len() ==> (#[trigger] self.robots@[j])
                        == recalled_for_mission(old(self).robots@[k + j], crossing),
                forall|j: int|
                    0 <= j < k ==> #[trigger] acted(
                        recalled_for_mission(old(self).robots@[j], crossing),
                        mids[j],
                        now32,
                    ) && updated@[j] == parked(recall_if_drained(mids[j]), complete),
                forall|j: int|
                    0 <= j < updated@.len() ==> {
                        let r = #[trigger] updated@[j];
                        &&& r.wf()
                        &&& r.side() == self.map.side()
                        &&& r.home_station_x == self.map.station_x
                        &&& r.home_station_y == self.map.station_y
                        &&& open_cell(self.map.grid(), r.x as int, r.y as int)
                    },
                self.status == (if complete {
                    MissionStatus::MissionComplete
                } else {
                    MissionStatus::Running
                }),
                self.status != MissionStatus::Running ==> centi_pct_spec(
                    grid_of(&self.station.global_memory),
                ) >= EXPLORATION_GOAL_CENTI,
            decreases n - k,
        {
            let ghost gm_before = grid_of(&self.station.global_memory);
            let ghost st_b = self.station;
            let ghost mp_b = self.map;
            let mut r = self.robots.remove(0);
            let ghost r_in = recalled_for_mission(old(self).robots@[k as int], crossing);
            proof {
                assert(r == r_in);
                assert(old(self).robots@[k as int].wf());
                assert(open_cell(old(self).map.grid(), r.x as int, r.y as int));
                let s2 = old(self).side() * old(self).side();
                assert(s2 * k + s2 == s2 * (k + 1)) by (nonlinear_arith);
                assert(s2 * (k + 1) <= s2 * n) by (nonlinear_arith)
                    requires
                        k + 1 <= n,
                        s2 >= 0,
                ;
            }
            r.update(&mut self.map, &mut self.station);
            let ghost mid = r;
            if r.energy == 0 {
                r.force_recall();
            }
            proof {
                assert(r == recall_if_drained(mid));
            }
            if matches!(self.status, MissionStatus::MissionComplete) && r.x == r.home_station_x
                && r.y == r.home_station_y && !matches!(r.mode, RobotMode::Idle) {
                r.mode = RobotMode::Idle;
            }
            proof {
                assert(r == parked(recall_if_drained(mid), complete));
                assert(acted(r_in, mid, now32)) by {
                    reveal(crate::simulation::acted);
                    if r_in.mode == RobotMode::Exploring && r_in.energy > 0 {
                        assert(mid.energy == r_in.energy - 1);
                        assert(grid_of(&mid.memory) == grid_of(&r_in.memory).update(
                            mid.y as int,
                            grid_of(&r_in.memory)[mid.y as int].update(
                                mid.x as int,
                                TerrainData {
                                    explored: true,
                                    timestamp: now32,
                                    robot_id: r_in.id,
                                    robot_type: r_in.robot_type,
                                },
                            ),
                        ));
                        assert(mid.mode == RobotMode::Exploring || mid.mode
                            == RobotMode::Collecting);
                    }
                    if r_in.mode == RobotMode::Collecting && r_in.energy > 0 {
                        // Which collecting outcome applied is decided by the
                        // map the robot saw; split on those conditions.
                        let g = mp_b.grid();
                        if r_in.robot_type == RobotType::Explorer {
                        } else if cargo_full_spec(r_in) {
                        } else if Robot::specialty_spec(r_in.robot_type) == Some(
                            mp_b.tile_at(r_in.x as int, r_in.y as int),
                        ) {
                        } else if has_matching_neighbor(
                            g,
                            r_in.x as int,
                            r_in.y as int,
                            r_in.robot_type,
                        ) {
                        } else {
                        }
                        assert(mid.mode == RobotMode::Collecting || mid.mode
                            == RobotMode::ReturnToStation || mid.mode == RobotMode::Exploring);
                        assert((mid.x, mid.y) == (r_in.x, r_in.y) || adjacent8(
                            r_in.x as int,
                            r_in.y as int,
                            mid.x as int,
                            mid.y as int,
                        ));
                    }
                    if r_in.mode == RobotMode::ReturnToStation && r_in.x == r_in.home_station_x
                        && r_in.y == r_in.home_station_y {
                        assert(mid.minerals == 0 && mid.scientific_data == 0);
                        assert(mid.mode == RobotMode::Exploring);
                    }
                }
            }
            updated.push(r);
            proof {
                let mids0 = mids;
                mids = mids0.push(mid);
                assert forall|j: int|
                    0 <= j <= k as int implies #[trigger] acted(
                        recalled_for_mission(old(self).robots@[j], crossing),
                        mids[j],
                        now32,
                    ) && updated@[j] == parked(recall_if_drained(mids[j]), complete) by {
                    if j < k as int {
                        assert(mids[j] == mids0[j]);
                        assert(acted(
                            recalled_for_mission(old(self).robots@[j], crossing),
                            mids0[j],
                            now32,
                        ));
                        assert(updated@[j] == parked(recall_if_drained(mids0[j]), complete));
                    } else {
                        assert(mids[j] == mid);
                        assert(updated@[j] == r);
                        assert(r == parked(recall_if_drained(mid), complete));
                        assert(acted(r_in, mid, now32));
                    }
                }
                assert(self.station.collected_minerals <= st_b.collected_minerals
                    + CARGO_CAPACITY);
                assert(self.station.collected_scientific_data
                    <= st_b.collected_scientific_data + CARGO_CAPACITY);
                assert(self.station.energy_reserves <= st_b.energy_reserves + CARGO_CAPACITY);
                assert(self.station.conflict_count <= st_b.conflict_count + old(self).side()
                    * old(self).side());
                crate::knowledge::lemma_explored_grows_trans(
                    gm_tick,
                    gm_before,
                    grid_of(&self.station.global_memory),
                );
                if self.status != MissionStatus::Running {
                    lemma_centi_pct_le(gm_before, grid_of(&self.station.global_memory));
                }
            }
            k = k + 1;
        }
        let ghost fleet_mid = updated@;
        self.robots = updated;

        // A running mission spawns one robot every SPAWN_INTERVAL ticks when
        // the reserves cover the costs.
        self.ticks_since_spawn = self.ticks_since_spawn + 1;
        if matches!(self.status, MissionStatus::Running) && self.ticks_since_spawn
            >= SPAWN_INTERVAL {
            match self.station.try_create_robot(&self.map) {
                Some(new_robot) => {
                    self.robots.push(new_robot);
                    self.ticks_since_spawn = 0;
                },
                None => {},
            }
        }

        // A complete mission whose whole fleet stands at home terminates.
        if matches!(self.status, MissionStatus::MissionComplete) {
            if self.all_robots_home() {
                self.status = MissionStatus::Terminated;
            }
        }

        proof {
            crate::knowledge::lemma_explored_grows_trans(
                gm_start,
                gm_tick,
                grid_of(&self.station.global_memory),
            );
            lemma_centi_pct_le(gm_start, grid_of(&self.station.global_memory));
            assert forall|i: int| #![trigger old(self).robots@[i]]
                0 <= i < old(self).robots@.len() implies exists|mid: Robot|
                #[trigger] acted(
                    recalled_for_mission(old(self).robots@[i], mission_crossing(*old(self))),
                    mid,
                    now32,
                ) && self.robots@[i] == parked(
                    recall_if_drained(mid),
                    goal_reached_entering(*old(self)),
                ) by {
                assert(acted(
                    recalled_for_mission(old(self).robots@[i], crossing),
                    mids[i],
                    now32,
                ));
                assert(self.robots@[i] == fleet_mid[i]);
                assert(fleet_mid[i] == parked(recall_if_drained(mids[i]), complete));
            }
        }
    }
}

} // verus!
