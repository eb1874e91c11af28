pub mod controller;
pub mod generator;
pub mod pending;
pub mod selection;
pub mod spend;
pub mod stats;
pub mod tx;
pub mod types;
