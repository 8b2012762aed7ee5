use vstd::prelude::*;

use crate::knowledge::{count_explored, explored_cells, grid_of, grid_set, mem_wf, TerrainData};
use crate::map::{adjacent8, dist1, open_cell, TerrainMap};
use crate::station::Station;
use crate::types::{RobotMode, RobotType, TileType};

verus! {

/// How much cargo of its specialty a collector carries home before returning.
pub const CARGO_CAPACITY: u32 = 5;

/// How much energy one consumed energy tile returns to an energy collector.
pub const ENERGY_RECHARGE: u32 = 25;

/// The starting energy of a freshly built robot.
pub const INITIAL_ENERGY: u32 = 100;

/// An autonomous agent: identity, physical state, cargo, behavioral mode, and
/// a private copy of the knowledge grid that evolves independently of the
/// station's until the two are merged.
pub struct Robot {
    pub id: usize,
    pub x: usize,
    pub y: usize,
    pub energy: u32,
    pub max_energy: u32,
    pub minerals: u32,
    pub scientific_data: u32,
    pub robot_type: RobotType,
    pub mode: RobotMode,
    pub home_station_x: usize,
    pub home_station_y: usize,
    pub memory: Vec<Vec<TerrainData>>,
}

impl Robot {
    /// Side length of the robot's knowledge grid.
    pub open spec fn side(&self) -> int {
        grid_of(&self.memory).len() as int
    }

    pub open spec fn wf(&self) -> bool {
        &&& mem_wf(grid_of(&self.memory))
        &&& 1 <= self.side() <= 46340
        &&& self.x < self.side() && self.y < self.side()
        &&& self.home_station_x < self.side() && self.home_station_y < self.side()
        &&& self.energy <= self.max_energy
        &&& self.max_energy <= 1000000
        &&& self.minerals <= CARGO_CAPACITY
        &&& self.scientific_data <= CARGO_CAPACITY
    }

    /// A new robot, seeded with a copy of an existing knowledge grid.
    pub fn new_with_memory(
        x: usize,
        y: usize,
        robot_type: RobotType,
        id: usize,
        home_station_x: usize,
        home_station_y: usize,
        memory: Vec<Vec<TerrainData>>,
    ) -> (r: Robot)
        requires
            mem_wf(grid_of(&memory)),
            1 <= grid_of(&memory).len() <= 46340,
            x < grid_of(&memory).len(),
            y < grid_of(&memory).len(),
            home_station_x < grid_of(&memory).len(),
            home_station_y < grid_of(&memory).len(),
        ensures
            r.wf(),
            r.id == id && r.x == x && r.y == y,
            r.robot_type == robot_type,
            r.home_station_x == home_station_x && r.home_station_y == home_station_y,
            r.energy == INITIAL_ENERGY && r.max_energy == INITIAL_ENERGY,
            r.minerals == 0 && r.scientific_data == 0,
            r.mode == RobotMode::Exploring,
            grid_of(&r.memory) == grid_of(&memory),
    {
        Robot {
            id,
            x,
            y,
            energy: INITIAL_ENERGY,
            max_energy: INITIAL_ENERGY,
            minerals: 0,
            scientific_data: 0,
            robot_type,
            mode: RobotMode::Exploring,
            home_station_x,
            home_station_y,
            memory,
        }
    }

    /// The recovery transition the tick loop applies to a robot whose energy
    /// is exhausted: teleported home, refunded half of its maximum energy,
    /// and parked in Idle. This bypasses the normal return path, so no
    /// knowledge merge happens on the way.
    pub fn force_recall(&mut self)
        requires
            old(self).wf(),
        ensures
            final(self).wf(),
            final(self).x == old(self).home_station_x,
            final(self).y == old(self).home_station_y,
            final(self).energy == old(self).max_energy / 2,
            final(self).mode == RobotMode::Idle,
            final(self).id == old(self).id,
            final(self).robot_type == old(self).robot_type,
            final(self).max_energy == old(self).max_energy,
            final(self).minerals == old(self).minerals,
            final(self).scientific_data == old(self).scientific_data,
            final(self).home_station_x == old(self).home_station_x,
            final(self).home_station_y == old(self).home_station_y,
            final(self).memory == old(self).memory,
    {
        self.x = self.home_station_x;
        self.y = self.home_station_y;
        self.energy = self.max_energy / 2;
        self.mode = RobotMode::Idle;
    }

    /// Records in the robot's own knowledge grid that it stands on an
    /// explored cell, stamped with the current tick and its own identity.
    fn mark_explored(&mut self, x: usize, y: usize, now: u32)
        requires
            old(self).wf(),
            x < old(self).side(),
            y < old(self).side(),
        ensures
            final(self).wf(),
            grid_of(&final(self).memory) == grid_of(&old(self).memory).update(
                y as int,
                grid_of(&old(self).memory)[y as int].update(
                    x as int,
                    TerrainData {
                        explored: true,
                        timestamp: now,
                        robot_id: old(self).id,
                        robot_type: old(self).robot_type,
                    },
                ),
            ),
            final(self).id == old(self).id,
            final(self).x == old(self).x && final(self).y == old(self).y,
            final(self).energy == old(self).energy,
            final(self).max_energy == old(self).max_energy,
            final(self).minerals == old(self).minerals,
            final(self).scientific_data == old(self).scientific_data,
            final(self).robot_type == old(self).robot_type,
            final(self).mode == old(self).mode,
            final(self).home_station_x == old(self).home_station_x,
            final(self).home_station_y == old(self).home_station_y,
    {
        let rec = TerrainData {
            explored: true,
            timestamp: now,
            robot_id: self.id,
            robot_type: self.robot_type,
        };
        proof {
            assert(grid_of(&self.memory)[y as int].len() == self.side());
        }
        grid_set(&mut self.memory, y, x, rec);
    }

    /// How much of the grid this robot believes it has seen, in hundredths of
    /// a percent.
    pub fn get_exploration_percentage(&self) -> (p: u32)
        requires
            self.wf(),
        ensures
            p == centi_pct_spec(grid_of(&self.memory)),
            p <= 10000,
    {
        exploration_centi_pct(&self.memory)
    }

    /// The letter a renderer shows for this robot's kind.
    pub fn get_display_char(&self) -> (c: char)
        ensures
            c == display_char_spec(self.robot_type),
    {
        match self.robot_type {
            RobotType::Explorer => 'E',
            RobotType::EnergyCollector => 'P',
            RobotType::MineralCollector => 'M',
            RobotType::ScientificCollector => 'S',
        }
    }

    /// The terminal color code a renderer uses for this robot's kind.
    pub fn get_display_color(&self) -> (c: u8)
        ensures
            c == display_color_spec(self.robot_type),
    {
        match self.robot_type {
            RobotType::Explorer => 9,
            RobotType::EnergyCollector => 10,
            RobotType::MineralCollector => 13,
            RobotType::ScientificCollector => 12,
        }
    }

    /// The tile kind this robot's specialty consumes, if any.
    pub open spec fn specialty_spec(t: RobotType) -> Option<TileType> {
        match t {
            RobotType::Explorer => None,
            RobotType::EnergyCollector => Some(TileType::Energy),
            RobotType::MineralCollector => Some(TileType::Mineral),
            RobotType::ScientificCollector => Some(TileType::Scientific),
        }
    }

    /// Picks the next cell while exploring: a walkable neighbor the robot has
    /// not seen itself if one exists, else any walkable neighbor, else the
    /// current cell.
    fn choose_explore_step(&self, map: &TerrainMap) -> (p: (usize, usize))
        requires
            map.square(),
            1 <= map.side() <= 46340,
            self.side() == map.side(),
            self.x < self.side(),
            self.y < self.side(),
            open_cell(map.grid(), self.x as int, self.y as int),
            mem_wf(grid_of(&self.memory)),
        ensures
            open_cell(map.grid(), p.0 as int, p.1 as int),
            p == (self.x, self.y) || adjacent8(self.x as int, self.y as int, p.0 as int, p.1 as int),
            has_unexplored_neighbor(grid_of(&self.memory), map.grid(), self.x as int, self.y as int)
                ==> !grid_of(&self.memory)[p.1 as int][p.0 as int].explored,
    {
        let ghost m = grid_of(&self.memory);
        let ghost g = map.grid();
        let x = self.x;
        let y = self.y;
        let n = map.tiles.len();
        let mut best_x: usize = 0;
        let mut best_y: usize = 0;
        let mut have_best: bool = false;
        let mut any_x: usize = 0;
        let mut any_y: usize = 0;
        let mut have_any: bool = false;
        let mut k: usize = 0;
        while k < 9
            invariant
                k <= 9,
                have_best ==> {
                    &&& open_cell(g, best_x as int, best_y as int)
                    &&& adjacent8(x as int, y as int, best_x as int, best_y as int)
                    &&& best_y < m.len() && best_x < m[best_y as int].len()
                    &&& !m[best_y as int][best_x as int].explored
                },
                have_any ==> {
                    &&& open_cell(g, any_x as int, any_y as int)
                    &&& adjacent8(x as int, y as int, any_x as int, any_y as int)
                },
                !have_best ==> forall|j: int|
                    0 <= j < k ==> !unexplored_open_neighbor(m, g, x as int, y as int, j),
            decreases 9 - k,
        {
            if k != 4 {
                let dx = k % 3;
                let dy = k / 3;
                let mut rejected = true;
                if x + dx >= 1 && y + dy >= 1 {
                    let nx = x + dx - 1;
                    let ny = y + dy - 1;
                    if nx < n && ny < n {
                        proof {
                            assert(g[ny as int].len() == n);
                            assert(m[ny as int].len() == n);
                        }
                        if map.tiles[ny][nx] != TileType::Obstacle {
                            if !have_any {
                                have_any = true;
                                any_x = nx;
                                any_y = ny;
                            }
                            if !self.memory[ny][nx].explored {
                                rejected = false;
                                if !have_best {
                                    have_best = true;
                                    best_x = nx;
                                    best_y = ny;
                                }
                            }
                        }
                    }
                }
                proof {
                    if rejected {
                        assert(!unexplored_open_neighbor(m, g, x as int, y as int, k as int));
                    }
                }
            } else {
                proof {
                    assert(!unexplored_open_neighbor(m, g, x as int, y as int, 4));
                }
            }
            k = k + 1;
        }
        if have_best {
            (best_x, best_y)
        } else if have_any {
            (any_x, any_y)
        } else {
            (x, y)
        }
    }

    /// Scans the 8 neighbors for a tile matching the robot's specialty;
    /// a negative answer means no such neighbor exists.
    fn find_adjacent_matching(&self, map: &TerrainMap) -> (r: Option<(usize, usize)>)
        requires
            map.square(),
            1 <= map.side() <= 46340,
            self.x < map.side(),
            self.y < map.side(),
        ensures
            r matches Some(c) ==> {
                &&& open_cell(map.grid(), c.0 as int, c.1 as int)
                &&& adjacent8(self.x as int, self.y as int, c.0 as int, c.1 as int)
                &&& Robot::specialty_spec(self.robot_type) == Some(
                    map.grid()[c.1 as int][c.0 as int],
                )
            },
            r.is_none() ==> forall|k: int|
                0 <= k < 9 ==> !matching_specialty_neighbor(
                    map.grid(),
                    self.x as int,
                    self.y as int,
                    self.robot_type,
                    k,
                ),
    {
        let ghost g = map.grid();
        let target = match self.robot_type {
            RobotType::Explorer => {
                proof {
                    assert forall|j: int| 0 <= j < 9 implies !matching_specialty_neighbor(
                        g,
                        self.x as int,
                        self.y as int,
                        self.robot_type,
                        j,
                    ) by {}
                }
                return None;
            },
            RobotType::EnergyCollector => TileType::Energy,
            RobotType::MineralCollector => TileType::Mineral,
            RobotType::ScientificCollector => TileType::Scientific,
        };
        let x = self.x;
        let y = self.y;
        let n = map.tiles.len();
        let mut k: usize = 0;
        while k < 9
            invariant
                k <= 9,
                forall|j: int|
                    0 <= j < k ==> !matching_specialty_neighbor(
                        g,
                        x as int,
                        y as int,
                        self.robot_type,
                        j,
                    ),
            decreases 9 - k,
        {
            if k != 4 {
                let dx = k % 3;
                let dy = k / 3;
                if x + dx >= 1 && y + dy >= 1 {
                    let nx = x + dx - 1;
                    let ny = y + dy - 1;
                    if nx < n && ny < n {
                        proof {
                            assert(map.grid()[ny as int].len() == n);
                        }
                        if map.tiles[ny][nx] == target {
                            return Some((nx, ny));
                        }
                    }
                }
                proof {
                    assert(!matching_specialty_neighbor(
                        g,
                        x as int,
                        y as int,
                        self.robot_type,
                        k as int,
                    ));
                }
            } else {
                proof {
                    assert(!matching_specialty_neighbor(
                        g,
                        x as int,
                        y as int,
                        self.robot_type,
                        4,
                    ));
                }
            }
            k = k + 1;
        }
        None
    }

    /// One greedy step toward a target: diagonal when possible, else along
    /// one axis; never steps onto an obstacle, and never moves away.
    fn step_toward(&self, map: &TerrainMap, tx: usize, ty: usize) -> (p: (usize, usize))
        requires
            map.square(),
            1 <= map.side() <= 46340,
            self.x < map.side(),
            self.y < map.side(),
            tx < map.side(),
            ty < map.side(),
            open_cell(map.grid(), self.x as int, self.y as int),
        ensures
            open_cell(map.grid(), p.0 as int, p.1 as int),
            p == (self.x, self.y) || adjacent8(self.x as int, self.y as int, p.0 as int, p.1 as int),
            dist1(p.0 as int, tx as int) + dist1(p.1 as int, ty as int) <= dist1(
                self.x as int,
                tx as int,
            ) + dist1(self.y as int, ty as int),
            self.x == tx && self.y == ty ==> p == (self.x, self.y),
    {
        let x = self.x;
        let y = self.y;
        if x == tx && y == ty {
            return (x, y);
        }
        let nx = if x < tx {
            x + 1
        } else if x > tx {
            x - 1
        } else {
            x
        };
        let ny = if y < ty {
            y + 1
        } else if y > ty {
            y - 1
        } else {
            y
        };
        if !(nx == x && ny == y) && map.is_valid_position(nx, ny) {
            return (nx, ny);
        }
        if nx != x && map.is_valid_position(nx, y) {
            return (nx, y);
        }
        if ny != y && map.is_valid_position(x, ny) {
            return (x, ny);
        }
        (x, y)
    }

    /// One action of the robot's state machine.
    ///
    /// Exploring robots step onto a walkable neighbor, preferring cells they
    /// have not seen themselves, record the destination in their own
    /// knowledge grid, and switch to Collecting on a tile of their
    /// specialty. Collecting robots consume the resource under them, book
    /// the matching cargo, and head home once full or once no matching tile
    /// is adjacent. A returning robot steps toward its home station; on
    /// docking it deposits its cargo, merges knowledge with the station, and
    /// resumes exploring. Idle robots, and robots out of energy, do nothing.
    pub fn update(&mut self, map: &mut TerrainMap, station: &mut Station)
        requires
            old(self).wf(),
            old(map).wf(),
            old(station).wf(),
            old(self).side() == old(map).side(),
            old(self).side() == old(station).side(),
            open_cell(old(map).grid(), old(self).x as int, old(self).y as int),
            old(station).collected_minerals + CARGO_CAPACITY <= u32::MAX,
            old(station).collected_scientific_data + CARGO_CAPACITY <= u32::MAX,
            old(station).energy_reserves + CARGO_CAPACITY <= u32::MAX,
            old(station).conflict_count + old(station).side() * old(station).side() <= usize::MAX,
        ensures
            final(self).wf(),
            final(map).wf(),
            final(station).wf(),
            final(self).id == old(self).id,
            final(self).robot_type == old(self).robot_type,
            final(self).max_energy == old(self).max_energy,
            final(self).home_station_x == old(self).home_station_x,
            final(self).home_station_y == old(self).home_station_y,
            final(self).side() == old(self).side(),
            open_cell(final(map).grid(), final(self).x as int, final(self).y as int),
            final(map).side() == old(map).side(),
            final(map).station_x == old(map).station_x,
            final(map).station_y == old(map).station_y,
            forall|x: int, y: int| #[trigger]
                open_cell(old(map).grid(), x, y) ==> open_cell(final(map).grid(), x, y),
            final(station).side() == old(station).side(),
            final(station).current_time == old(station).current_time,
            final(station).next_robot_id == old(station).next_robot_id,
            final(station).energy_reserves >= old(station).energy_reserves,
            final(station).collected_minerals >= old(station).collected_minerals,
            final(station).collected_scientific_data >= old(station).collected_scientific_data,
            final(station).conflict_count >= old(station).conflict_count,
            final(station).conflict_count <= old(station).conflict_count + old(station).side()
                * old(station).side(),
            crate::knowledge::explored_grows(
                grid_of(&old(station).global_memory),
                grid_of(&final(station).global_memory),
            ),
            old(self).mode == RobotMode::Idle ==> *final(self) == *old(self) && *final(map) == *old(
                map,
            ) && *final(station) == *old(station),
            old(self).mode != RobotMode::Idle && old(self).energy == 0 && !(old(self).mode
                == RobotMode::ReturnToStation && old(self).x == old(self).home_station_x && old(
                self,
            ).y == old(self).home_station_y) ==> *final(self) == *old(self) && *final(map) == *old(
                map,
            ) && *final(station) == *old(station),
            old(self).mode == RobotMode::ReturnToStation && old(self).x == old(
                self,
            ).home_station_x && old(self).y == old(self).home_station_y ==> {
                &&& final(self).minerals == 0 && final(self).scientific_data == 0
                &&& final(station).collected_minerals == old(station).collected_minerals + old(
                    self,
                ).minerals
                &&& final(station).collected_scientific_data == old(
                    station,
                ).collected_scientific_data + old(self).scientific_data
                &&& final(station).energy_reserves == old(station).energy_reserves + old(
                    self,
                ).minerals
                &&& final(self).mode == RobotMode::Exploring
                &&& final(self).x == old(self).x && final(self).y == old(self).y
                &&& final(self).energy == old(self).energy
                &&& grid_of(&final(self).memory) == grid_of(&final(station).global_memory)
                &&& *final(map) == *old(map)
            },
            old(self).mode == RobotMode::Exploring && old(self).energy > 0 ==> {
                &&& *final(map) == *old(map)
                &&& *final(station) == *old(station)
                &&& final(self).energy == old(self).energy - 1
                &&& final(self).minerals == old(self).minerals
                &&& final(self).scientific_data == old(self).scientific_data
                &&& ((final(self).x, final(self).y) == (old(self).x, old(self).y) || adjacent8(
                    old(self).x as int,
                    old(self).y as int,
                    final(self).x as int,
                    final(self).y as int,
                ))
                &&& grid_of(&final(self).memory) == grid_of(&old(self).memory).update(
                    final(self).y as int,
                    grid_of(&old(self).memory)[final(self).y as int].update(
                        final(self).x as int,
                        TerrainData {
                            explored: true,
                            timestamp: old(station).current_time,
                            robot_id: old(self).id,
                            robot_type: old(self).robot_type,
                        },
                    ),
                )
                &&& (has_unexplored_neighbor(
                    grid_of(&old(self).memory),
                    old(map).grid(),
                    old(self).x as int,
                    old(self).y as int,
                ) ==> !(grid_of(&old(self).memory)[final(self).y as int][final(self).x as int]).explored)
                &&& final(self).mode == (if Robot::specialty_spec(old(self).robot_type) == Some(
                    old(map).grid()[final(self).y as int][final(self).x as int],
                ) {
                    RobotMode::Collecting
                } else {
                    RobotMode::Exploring
                })
            },
            old(self).mode == RobotMode::ReturnToStation && !(old(self).x == old(
                self,
            ).home_station_x && old(self).y == old(self).home_station_y) && old(self).energy > 0
                ==> {
                &&& *final(map) == *old(map)
                &&& *final(station) == *old(station)
                &&& final(self).memory == old(self).memory
                &&& final(self).energy == old(self).energy - 1
                &&& final(self).minerals == old(self).minerals
                &&& final(self).scientific_data == old(self).scientific_data
                &&& final(self).mode == RobotMode::ReturnToStation
                &&& dist1(final(self).x as int, old(self).home_station_x as int) + dist1(
                    final(self).y as int,
                    old(self).home_station_y as int,
                ) <= dist1(old(self).x as int, old(self).home_station_x as int) + dist1(
                    old(self).y as int,
                    old(self).home_station_y as int,
                )
            },
            old(self).mode == RobotMode::Collecting && old(self).energy > 0 ==> {
                &&& *final(station) == *old(station)
                &&& final(self).memory == old(self).memory
                &&& forall|x: int, y: int|
                    0 <= x < old(map).side() && 0 <= y < old(map).side() ==> (
                    #[trigger] final(map).grid()[y][x]) == old(map).grid()[y][x] || (x == old(
                        self,
                    ).x && y == old(self).y && final(map).grid()[y][x] == TileType::Empty)
                &&& final(self).minerals >= old(self).minerals
                &&& final(self).scientific_data >= old(self).scientific_data
                &&& final(self).minerals + final(self).scientific_data <= old(self).minerals + old(
                    self,
                ).scientific_data + 1
            },
            old(self).mode == RobotMode::Collecting && old(self).energy > 0 && old(self).robot_type
                == RobotType::Explorer ==> {
                &&& final(self).mode == RobotMode::Exploring
                &&& *final(map) == *old(map)
                &&& final(self).x == old(self).x && final(self).y == old(self).y
                &&& final(self).energy == old(self).energy
            },
            old(self).mode == RobotMode::Collecting && old(self).energy > 0 && old(self).robot_type
                != RobotType::Explorer && cargo_full_spec(*old(self)) ==> {
                &&& final(self).mode == RobotMode::ReturnToStation
                &&& *final(map) == *old(map)
                &&& final(self).x == old(self).x && final(self).y == old(self).y
                &&& final(self).energy == old(self).energy
                &&& final(self).minerals == old(self).minerals
                &&& final(self).scientific_data == old(self).scientific_data
            },
            old(self).mode == RobotMode::Collecting && old(self).energy > 0 && old(self).robot_type
                != RobotType::Explorer && !cargo_full_spec(*old(self)) && Robot::specialty_spec(
                old(self).robot_type,
            ) == Some(old(map).tile_at(old(self).x as int, old(self).y as int)) ==> {
                &&& final(map).grid() == old(map).grid().update(
                    old(self).y as int,
                    old(map).grid()[old(self).y as int].update(old(self).x as int, TileType::Empty),
                )
                &&& final(self).x == old(self).x && final(self).y == old(self).y
                &&& final(self).energy == (if old(self).robot_type == RobotType::EnergyCollector {
                    if old(self).energy - 1 + ENERGY_RECHARGE > old(self).max_energy {
                        old(self).max_energy
                    } else {
                        (old(self).energy - 1 + ENERGY_RECHARGE) as u32
                    }
                } else {
                    (old(self).energy - 1) as u32
                })
                &&& final(self).minerals == old(self).minerals + (
                if old(self).robot_type == RobotType::MineralCollector {
                    1int
                } else {
                    0int
                })
                &&& final(self).scientific_data == old(self).scientific_data + (
                if old(self).robot_type == RobotType::ScientificCollector {
                    1int
                } else {
                    0int
                })
                &&& final(self).mode == (if cargo_full_spec(*final(self)) {
                    RobotMode::ReturnToStation
                } else {
                    RobotMode::Collecting
                })
            },
            old(self).mode == RobotMode::Collecting && old(self).energy > 0 && old(self).robot_type
                != RobotType::Explorer && !cargo_full_spec(*old(self)) && Robot::specialty_spec(
                old(self).robot_type,
            ) != Some(old(map).tile_at(old(self).x as int, old(self).y as int)) ==> {
                &&& *final(map) == *old(map)
                &&& (has_matching_neighbor(
                    old(map).grid(),
                    old(self).x as int,
                    old(self).y as int,
                    old(self).robot_type,
                ) ==> {
                    &&& final(self).mode == RobotMode::Collecting
                    &&& adjacent8(
                        old(self).x as int,
                        old(self).y as int,
                        final(self).x as int,
                        final(self).y as int,
                    )
                    &&& Robot::specialty_spec(old(self).robot_type) == Some(
                        old(map).tile_at(final(self).x as int, final(self).y as int),
                    )
                    &&& final(self).energy == old(self).energy - 1
                })
                &&& (!has_matching_neighbor(
                    old(map).grid(),
                    old(self).x as int,
                    old(self).y as int,
                    old(self).robot_type,
                ) ==> {
                    &&& final(self).mode == RobotMode::ReturnToStation
                    &&& final(self).x == old(self).x && final(self).y == old(self).y
                    &&& final(self).energy == old(self).energy
                })
            },
    {
        match self.mode {
            RobotMode::Idle => {},
            RobotMode::Exploring => {
                if self.energy == 0 {
                    return ;
                }
                let (nx, ny) = self.choose_explore_step(map);
                self.x = nx;
                self.y = ny;
                self.energy = self.energy - 1;
                let now = station.current_time;
                self.mark_explored(nx, ny, now);
                let tile = map.get_tile(nx, ny);
                let switch = match self.robot_type {
                    RobotType::Explorer => false,
                    RobotType::EnergyCollector => tile == TileType::Energy,
                    RobotType::MineralCollector => tile == TileType::Mineral,
                    RobotType::ScientificCollector => tile == TileType::Scientific,
                };
                if switch {
                    self.mode = RobotMode::Collecting;
                }
            },
            RobotMode::Collecting => {
                if self.energy == 0 {
                    return ;
                }
                let target = match self.robot_type {
                    RobotType::Explorer => {
                        self.mode = RobotMode::Exploring;
                        return ;
                    },
                    RobotType::EnergyCollector => TileType::Energy,
                    RobotType::MineralCollector => TileType::Mineral,
                    RobotType::ScientificCollector => TileType::Scientific,
                };
                let full = match self.robot_type {
                    RobotType::Explorer => true,
                    RobotType::EnergyCollector => self.energy >= self.max_energy,
                    RobotType::MineralCollector => self.minerals >= CARGO_CAPACITY,
                    RobotType::ScientificCollector => self.scientific_data >= CARGO_CAPACITY,
                };
                if full {
                    self.mode = RobotMode::ReturnToStation;
                    return ;
                }
                let here = map.get_tile(self.x, self.y);
                if here == target {
                    map.consume_resource(self.x, self.y);
                    self.energy = self.energy - 1;
                    match self.robot_type {
                        RobotType::Explorer => {},
                        RobotType::EnergyCollector => {
                            let boosted = self.energy + ENERGY_RECHARGE;
                            self.energy = if boosted > self.max_energy {
                                self.max_energy
                            } else {
                                boosted
                            };
                        },
                        RobotType::MineralCollector => {
                            self.minerals = self.minerals + 1;
                        },
                        RobotType::ScientificCollector => {
                            self.scientific_data = self.scientific_data + 1;
                        },
                    }
                    let full_now = match self.robot_type {
                        RobotType::Explorer => true,
                        RobotType::EnergyCollector => self.energy >= self.max_energy,
                        RobotType::MineralCollector => self.minerals >= CARGO_CAPACITY,
                        RobotType::ScientificCollector => self.scientific_data >= CARGO_CAPACITY,
                    };
                    if full_now {
                        self.mode = RobotMode::ReturnToStation;
                    }
                } else {
                    match self.find_adjacent_matching(map) {
                        Some((mx, my)) => {
                            proof {
                                let ddx = mx as int - self.x as int + 1;
                                let ddy = my as int - self.y as int + 1;
                                let k = ddy * 3 + ddx;
                                assert(k % 3 == ddx && k / 3 == ddy) by (nonlinear_arith)
                                    requires
                                        0 <= ddx < 3,
                                        0 <= ddy < 3,
                                        k == ddy * 3 + ddx,
                                ;
                                assert(matching_specialty_neighbor(
                                    map.grid(),
                                    self.x as int,
                                    self.y as int,
                                    self.robot_type,
                                    k,
                                ));
                            }
                            self.x = mx;
                            self.y = my;
                            self.energy = self.energy - 1;
                        },
                        None => {
                            self.mode = RobotMode::ReturnToStation;
                        },
                    }
                }
            },
            RobotMode::ReturnToStation => {
                if self.x == self.home_station_x && self.y == self.home_station_y {
                    let minerals = self.minerals;
                    let scientific = self.scientific_data;
                    station.deposit_resources(minerals, scientific);
                    self.minerals = 0;
                    self.scientific_data = 0;
                    station.share_knowledge(self);
                    self.mode = RobotMode::Exploring;
                    proof {
                        let gm0 = grid_of(&old(station).global_memory);
                        let gm1 = grid_of(&station.global_memory);
                        let cm = crate::knowledge::conflict_mask(grid_of(&old(self).memory), gm0);
                        crate::knowledge::lemma_grid_trues_nonneg(cm);
                        assert forall|yy: int| 0 <= yy < cm.len() implies (#[trigger] cm[yy]).len()
                            <= gm0.len() as int by {
                            assert(gm0[yy].len() == gm0.len());
                        }
                        crate::knowledge::lemma_grid_trues_bounds(cm, gm0.len() as int);
                        assert(gm0.len() * gm0.len() == old(station).side() * old(station).side());
                        assert forall|y: int, x: int|
                            0 <= y < gm0.len() && 0 <= x < gm0[y].len() && (
                            #[trigger] gm0[y][x]).explored implies gm1[y][x].explored by {
                            assert(gm1[y][x] == crate::knowledge::merge_cell(
                                grid_of(&old(self).memory)[y][x],
                                gm0[y][x],
                            ));
                        }
                    }
                } else {
                    if self.energy == 0 {
                        return ;
                    }
                    let home_x = self.home_station_x;
                    let home_y = self.home_station_y;
                    let (nx, ny) = self.step_toward(map, home_x, home_y);
                    self.x = nx;
                    self.y = ny;
                    self.energy = self.energy - 1;
                }
            },
        }
    }
}

/// The cell at scan offset `k` of the 3-by-3 block around `(x, y)`
/// (`k == 4` is the center).
pub open spec fn neighbor_cell(x: int, y: int, k: int) -> (int, int) {
    (x + k % 3 - 1, y + k / 3 - 1)
}

/// Scan offset `k` names a walkable neighbor the robot has not yet explored.
pub open spec fn unexplored_open_neighbor(
    m: Seq<Seq<TerrainData>>,
    g: Seq<Seq<TileType>>,
    x: int,
    y: int,
    k: int,
) -> bool {
    let c = neighbor_cell(x, y, k);
    &&& k != 4
    &&& open_cell(g, c.0, c.1)
    &&& 0 <= c.1 < m.len() && 0 <= c.0 < m[c.1].len()
    &&& !m[c.1][c.0].explored
}

/// Scan offset `k` names a walkable neighbor bearing the tile a robot of
/// kind `rt` collects.
pub open spec fn matching_specialty_neighbor(
    g: Seq<Seq<TileType>>,
    x: int,
    y: int,
    rt: RobotType,
    k: int,
) -> bool {
    let c = neighbor_cell(x, y, k);
    &&& k != 4
    &&& open_cell(g, c.0, c.1)
    &&& Robot::specialty_spec(rt) == Some(g[c.1][c.0])
}

/// Some walkable neighbor of `(x, y)` bears the tile a robot of kind `rt`
/// collects.
pub open spec fn has_matching_neighbor(
    g: Seq<Seq<TileType>>,
    x: int,
    y: int,
    rt: RobotType,
) -> bool {
    exists|k: int| 0 <= k < 9 && #[trigger] matching_specialty_neighbor(g, x, y, rt, k)
}

/// A collector that can carry no more of what it gathers: a mineral or
/// science hold at capacity, an energy collector already at full charge.
pub open spec fn cargo_full_spec(r: Robot) -> bool {
    match r.robot_type {
        RobotType::Explorer => true,
        RobotType::EnergyCollector => r.energy >= r.max_energy,
        RobotType::MineralCollector => r.minerals >= CARGO_CAPACITY,
        RobotType::ScientificCollector => r.scientific_data >= CARGO_CAPACITY,
    }
}

/// Some walkable neighbor of `(x, y)` is still unexplored in grid `m`.
pub open spec fn has_unexplored_neighbor(
    m: Seq<Seq<TerrainData>>,
    g: Seq<Seq<TileType>>,
    x: int,
    y: int,
) -> bool {
    exists|k: int| 0 <= k < 9 && #[trigger] unexplored_open_neighbor(m, g, x, y, k)
}

pub open spec fn display_char_spec(t: RobotType) -> char {
    match t {
        RobotType::Explorer => 'E',
        RobotType::EnergyCollector => 'P',
        RobotType::MineralCollector => 'M',
        RobotType::ScientificCollector => 'S',
    }
}

pub open spec fn display_color_spec(t: RobotType) -> u8 {
    match t {
        RobotType::Explorer => 9u8,
        RobotType::EnergyCollector => 10u8,
        RobotType::MineralCollector => 13u8,
        RobotType::ScientificCollector => 12u8,
    }
}

/// The explored share of a knowledge grid, in hundredths of a percent.
pub open spec fn centi_pct_spec(m: Seq<Seq<TerrainData>>) -> int {
    explored_cells(m) * 10000 / ((m.len() * m.len()) as int)
}

/// Exploration percentage never falls while knowledge only grows.
pub proof fn lemma_centi_pct_le(a: Seq<Seq<TerrainData>>, b: Seq<Seq<TerrainData>>)
    requires
        crate::knowledge::explored_grows(a, b),
        a.len() >= 1,
    ensures
        centi_pct_spec(a) <= centi_pct_spec(b),
{
    crate::knowledge::lemma_explored_le(a, b);
    let total = (a.len() * a.len()) as int;
    assert(total >= 1) by (nonlinear_arith)
        requires
            a.len() >= 1,
            total == (a.len() * a.len()) as int,
    ;
    vstd::arithmetic::div_mod::lemma_div_is_ordered(
        explored_cells(a) * 10000,
        explored_cells(b) * 10000,
        total,
    );
}

/// How much of a knowledge grid is explored, in hundredths of a percent.
pub fn exploration_centi_pct(m: &Vec<Vec<TerrainData>>) -> (p: u32)
    requires
        mem_wf(grid_of(m)),
        1 <= grid_of(m).len() <= 46340,
    ensures
        p == centi_pct_spec(grid_of(m)),
        p <= 10000,
{
    let n = m.len();
    proof {
        assert(n * n <= 46340 * 46340) by (nonlinear_arith)
            requires
                1 <= n <= 46340,
        ;
    }
    let c = count_explored(m);
    let total = n * n;
    proof {
        assert(total >= 1) by (nonlinear_arith)
            requires
                n >= 1,
                total == n * n,
        ;
    }
    let p64 = (c as u64) * 10000 / (total as u64);
    proof {
        assert((c as u64) * 10000 <= 46340u64 * 46340 * 10000) by (nonlinear_arith)
            requires
                c <= 46340 * 46340,
        ;
        vstd::arithmetic::div_mod::lemma_div_is_ordered(
            c as int * 10000,
            total as int * 10000,
            total as int,
        );
        assert(total as int * 10000 / (total as int) == 10000) by (nonlinear_arith)
            requires
                total >= 1,
        ;
    }
    p64 as u32
}

} // verus!
