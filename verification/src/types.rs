use vstd::prelude::*;

verus! {

/// Ground-truth classification of one grid cell.
#[derive(Clone, Copy, Debug, PartialEq, Eq, Structural)]
pub enum TileType {
    Empty,
    Obstacle,
    Energy,
    Mineral,
    Scientific,
}

/// The specialty of a robot, fixed at creation.
#[derive(Clone, Copy, Debug, PartialEq, Eq, Structural)]
pub enum RobotType {
    Explorer,
    EnergyCollector,
    MineralCollector,
    ScientificCollector,
}

/// The behavioral state of a robot's state machine.
#[derive(Clone, Copy, Debug, PartialEq, Eq, Structural)]
pub enum RobotMode {
    Exploring,
    Collecting,
    ReturnToStation,
    Idle,
}

/// Side length of the square planetary grid.
pub const MAP_SIZE: usize = 20;

impl TileType {
    /// A resource-bearing tile: one that a collector can consume.
    pub open spec fn is_resource(self) -> bool {
        self == TileType::Energy || self == TileType::Mineral || self == TileType::Scientific
    }
}

} // verus!
