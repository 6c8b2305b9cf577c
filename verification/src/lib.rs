//! Road tile path finding and grid generation.
//!
//! This library finds single-pass routes (Hamiltonian paths) across a
//! rectangular grid and converts them into 2-lane road tile assignments
//! with continuous port connections.

pub mod geometry;
pub mod laws;
pub mod mapper;
pub mod pathfind;
pub mod tiles;

pub use geometry::{cell_parity, has_different_parity, Direction, GridSize, Point};
pub use mapper::{
    find_tile_with_port_constraint, get_direction, path_to_road_grid, path_to_tiles, CellData,
    Connection, MapError, RoadGridResult,
};
pub use pathfind::{count_unvisited_neighbors, find_path_internal, find_road_path, PathResult, PathState};
pub use tiles::{find_matching_tiles, get_all_tiles, PortSet, TileDefinition, TileVariant};
