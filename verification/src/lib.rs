#![verifier::loop_isolation(false)]

pub mod types;
pub mod knowledge;
pub mod map;
pub mod robot;
pub mod station;
pub mod simulation;
pub mod network;
pub mod display;
