use vstd::prelude::*;

use crate::knowledge::grid_of;
use crate::map::TerrainMap;
use crate::network::SimulationState;
use crate::robot::Robot;
use crate::station::Station;
use crate::types::{RobotType, TileType};

verus! {

/// What a renderer may show for one cell. The decision is driven by the
/// station's knowledge grid, never by ground truth alone, so an unexplored
/// cell reveals nothing about its tile.
#[derive(Clone, Copy, Debug, PartialEq, Eq, Structural)]
pub enum CellView {
    StationMarker,
    RobotMarker(usize, RobotType),
    Explored(TileType),
    Unexplored,
}

/// The render contract: which of station marker, robot glyph, explored tile
/// or fog each cell shows.
pub struct Display;

/// Some robot of the fleet stands on the cell.
pub open spec fn robot_at(robots: Seq<Robot>, x: int, y: int) -> bool {
    exists|i: int| 0 <= i < robots.len() && (#[trigger] robots[i]).x == x && robots[i].y == y
}

/// Some robot record of a snapshot stands on the cell.
pub open spec fn snapshot_robot_at(robots: Seq<crate::network::RobotData>, x: int, y: int) -> bool {
    exists|i: int| 0 <= i < robots.len() && (#[trigger] robots[i]).x == x && robots[i].y == y
}

impl Display {
    /// Classifies one cell for rendering: the station marker wins, then the
    /// first robot standing there, then the ground-truth tile if the station
    /// has explored the cell, and otherwise fog.
    pub fn cell_view(
        map: &TerrainMap,
        station: &Station,
        robots: &Vec<Robot>,
        x: usize,
        y: usize,
    ) -> (v: CellView)
        requires
            map.square(),
            map.in_bounds(x as int, y as int),
            station.wf(),
            station.side() == map.side(),
        ensures
            x == map.station_x && y == map.station_y ==> v == CellView::StationMarker,
            !(x == map.station_x && y == map.station_y) && robot_at(robots@, x as int, y as int)
                ==> (v matches CellView::RobotMarker(id, t) && exists|i: int|
                0 <= i < robots@.len() && (#[trigger] robots@[i]).x == x && robots@[i].y == y
                    && robots@[i].id == id && robots@[i].robot_type == t),
            !(x == map.station_x && y == map.station_y) && !robot_at(robots@, x as int, y as int)
                && grid_of(&station.global_memory)[y as int][x as int].explored ==> v
                == CellView::Explored(map.tile_at(x as int, y as int)),
            !(x == map.station_x && y == map.station_y) && !robot_at(robots@, x as int, y as int)
                && !grid_of(&station.global_memory)[y as int][x as int].explored ==> v
                == CellView::Unexplored,
    {
        if x == map.station_x && y == map.station_y {
            return CellView::StationMarker;
        }
        let mut i: usize = 0;
        while i < robots.len()
            invariant
                i <= robots@.len(),
                forall|j: int|
                    0 <= j < i ==> !((#[trigger] robots@[j]).x == x && robots@[j].y == y),
            decreases robots@.len() - i,
        {
            let r = &robots[i];
            if r.x == x && r.y == y {
                return CellView::RobotMarker(r.id, r.robot_type);
            }
            i = i + 1;
        }
        proof {
            assert(grid_of(&station.global_memory)[y as int].len() == station.side());
        }
        if station.global_memory[y][x].explored {
            CellView::Explored(map.get_tile(x, y))
        } else {
            CellView::Unexplored
        }
    }

    /// The same per-cell classification, driven by a snapshot: what a remote
    /// viewer may show for one cell of a received simulation state.
    pub fn snapshot_cell_view(state: &SimulationState, x: usize, y: usize) -> (v: CellView)
        requires
            x < grid_of(&state.map_data.tiles).len(),
            y < grid_of(&state.map_data.tiles).len(),
            forall|yy: int|
                0 <= yy < grid_of(&state.map_data.tiles).len() ==> (#[trigger] grid_of(
                    &state.map_data.tiles,
                )[yy]).len() == grid_of(&state.map_data.tiles).len(),
            grid_of(&state.exploration_data.explored_tiles).len() == grid_of(
                &state.map_data.tiles,
            ).len(),
            forall|yy: int|
                0 <= yy < grid_of(&state.exploration_data.explored_tiles).len() ==> (
                #[trigger] grid_of(&state.exploration_data.explored_tiles)[yy]).len() == grid_of(
                    &state.map_data.tiles,
                ).len(),
        ensures
            x == state.map_data.station_x && y == state.map_data.station_y ==> v
                == CellView::StationMarker,
            !(x == state.map_data.station_x && y == state.map_data.station_y)
                && snapshot_robot_at(state.robots_data@, x as int, y as int) ==> (v matches CellView::RobotMarker(id, t)
                && exists|i: int|
                0 <= i < state.robots_data@.len() && (#[trigger] state.robots_data@[i]).x == x
                    && state.robots_data@[i].y == y && state.robots_data@[i].id == id
                    && state.robots_data@[i].robot_type == t),
            !(x == state.map_data.station_x && y == state.map_data.station_y)
                && !snapshot_robot_at(state.robots_data@, x as int, y as int) && grid_of(
                &state.exploration_data.explored_tiles,
            )[y as int][x as int] ==> v == CellView::Explored(
                grid_of(&state.map_data.tiles)[y as int][x as int],
            ),
            !(x == state.map_data.station_x && y == state.map_data.station_y)
                && !snapshot_robot_at(state.robots_data@, x as int, y as int) && !grid_of(
                &state.exploration_data.explored_tiles,
            )[y as int][x as int] ==> v == CellView::Unexplored,
    {
        if x == state.map_data.station_x && y == state.map_data.station_y {
            return CellView::StationMarker;
        }
        let mut i: usize = 0;
        while i < state.robots_data.len()
            invariant
                i <= state.robots_data@.len(),
                forall|j: int|
                    0 <= j < i ==> !((#[trigger] state.robots_data@[j]).x == x
                        && state.robots_data@[j].y == y),
            decreases state.robots_data@.len() - i,
        {
            let r = &state.robots_data[i];
            if r.x == x && r.y == y {
                return CellView::RobotMarker(r.id, r.robot_type);
            }
            i = i + 1;
        }
        proof {
            assert(grid_of(&state.exploration_data.explored_tiles)[y as int].len() == grid_of(
                &state.map_data.tiles,
            ).len());
            assert(grid_of(&state.map_data.tiles)[y as int].len() == grid_of(
                &state.map_data.tiles,
            ).len());
        }
        if state.exploration_data.explored_tiles[y][x] {
            CellView::Explored(state.map_data.tiles[y][x])
        } else {
            CellView::Unexplored
        }
    }
}

} // verus!
