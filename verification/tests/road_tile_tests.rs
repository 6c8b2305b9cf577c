use road_tile::{
    cell_parity, find_path_internal, find_road_path, get_all_tiles, has_different_parity,
    path_to_tiles, Direction, GridSize, PathState, Point, PortSet, TileVariant,
};

#[test]
fn test_find_path_small_grid() {
    // For a 2x2 grid, start and end must have different parity for Hamiltonian path
    // (0,0) has parity 0, (0,1) has parity 1
    let start = Point::new(0, 0);
    let end = Point::new(0, 1);
    let grid_size = GridSize { rows: 2, cols: 2 };

    let mut state = PathState::new(grid_size, 1000);
    let found = find_path_internal(&mut state, start, end);

    assert!(found);
    assert_eq!(state.path.len(), 4);
}

#[test]
fn test_parity() {
    assert_eq!(cell_parity(0, 0), 0);
    assert_eq!(cell_parity(0, 1), 1);
    assert_eq!(cell_parity(1, 0), 1);
    assert_eq!(cell_parity(1, 1), 0);
}

#[test]
fn test_different_parity() {
    assert!(has_different_parity(0, 0, 0, 1));
    assert!(!has_different_parity(0, 0, 1, 1));
}

#[test]
fn test_tile_definitions() {
    let tiles = get_all_tiles();
    assert_eq!(tiles.len(), 40); // 16 curve + 16 sharp + 8 straight
}

#[test]
fn test_path_to_tiles() {
    // Test a simple 3-cell path
    let path = vec![Point::new(0, 0), Point::new(0, 1), Point::new(0, 2)];
    let grid_size = GridSize { rows: 1, cols: 3 };
    let result = path_to_tiles(&path, grid_size).unwrap();

    assert!(result.valid);
    // First cell should be start
    assert_eq!(result.grid[0][0].as_ref().unwrap().tile_id, "start");
    // Last cell should be goal
    assert_eq!(result.grid[0][2].as_ref().unwrap().tile_id, "goal");
}

#[test]
fn found_path_covers_whole_grid() {
    // Opposite-parity endpoints on a 2x2 grid: a Hamiltonian path exists.
    let r = find_road_path(0, 0, 0, 1, 2, 2, 1000);
    assert!(r.found);
    assert_eq!(r.path.len(), 4);
    assert_eq!(r.path[0], Point::new(0, 0));
    assert_eq!(r.path[3], Point::new(0, 1));
    // All points distinct, in bounds, and consecutive points adjacent.
    for i in 0..r.path.len() {
        let p = r.path[i];
        assert!(p.row >= 0 && p.row < 2 && p.col >= 0 && p.col < 2);
        for j in 0..i {
            assert_ne!(r.path[j], p);
        }
        if i > 0 {
            let q = r.path[i - 1];
            assert_eq!((p.row - q.row).abs() + (p.col - q.col).abs(), 1);
        }
    }
}

#[test]
fn same_parity_endpoints_fail() {
    // (0,0) and (1,1) share parity on a 2x2 grid: the search exhausts.
    let r = find_road_path(0, 0, 1, 1, 2, 2, 1000);
    assert!(!r.found);
    assert!(r.path.is_empty());
    assert!(r.iterations <= 1000);
}

#[test]
fn zero_budget_aborts_before_any_visit() {
    let r = find_road_path(0, 0, 1, 1, 2, 2, 0);
    assert!(!r.found);
    assert_eq!(r.iterations, 0);
    assert!(r.path.is_empty());
}

#[test]
fn single_cell_grid_is_found() {
    let r = find_road_path(0, 0, 0, 0, 1, 1, 10);
    assert!(r.found);
    assert_eq!(r.path.len(), 1);
    assert_eq!(r.path[0], Point::new(0, 0));
}

#[test]
fn equal_endpoints_on_larger_grid_fail() {
    let r = find_road_path(0, 0, 0, 0, 2, 2, 1000);
    assert!(!r.found);
    assert!(r.path.is_empty());
}

#[test]
fn parity_is_row_plus_col_mod_2() {
    assert_eq!(cell_parity(2, 3), (2 + 3) % 2);
    assert_eq!(cell_parity(7, 7), 0);
    assert_eq!(cell_parity(100, 1), 1);
    // XOR of the two parities.
    assert_eq!(
        has_different_parity(2, 3, 4, 4),
        (cell_parity(2, 3) != cell_parity(4, 4))
    );
    assert!(has_different_parity(1, 0, 1, 1));
    assert!(!has_different_parity(0, 1, 1, 0));
}

#[test]
fn catalog_counts_by_variant() {
    let tiles = get_all_tiles();
    let curves = tiles.iter().filter(|t| t.variant == TileVariant::Curve).count();
    let sharps = tiles.iter().filter(|t| t.variant == TileVariant::Sharp).count();
    let straights = tiles.iter().filter(|t| t.variant == TileVariant::Straight).count();
    assert_eq!(curves, 16);
    assert_eq!(sharps, 16);
    assert_eq!(straights, 8);
    // Every definition connects exactly two distinct edges.
    for t in &tiles {
        assert_ne!(t.conn1.0, t.conn2.0);
    }
}

#[test]
fn interior_cell_keeps_lane_continuity() {
    // Scenario: 1x3 grid, straight path. The middle tile must use one and
    // the same port set on both edges, equal to the start marker's P23.
    let path = vec![Point::new(0, 0), Point::new(0, 1), Point::new(0, 2)];
    let result = path_to_tiles(&path, GridSize { rows: 1, cols: 3 }).unwrap();
    assert!(result.valid);

    let start = result.grid[0][0].as_ref().unwrap();
    let mid = result.grid[0][1].as_ref().unwrap();
    let goal = result.grid[0][2].as_ref().unwrap();

    assert_eq!(start.path_index, 0);
    assert_eq!(mid.path_index, 1);
    assert_eq!(goal.path_index, 2);

    assert_eq!(start.connections.len(), 1);
    assert_eq!(mid.connections.len(), 2);
    assert_eq!(goal.connections.len(), 1);

    // The start marker exits on the outer lane.
    assert_eq!(start.connections[0].ports, PortSet::P23);
    assert_eq!(start.connections[0].direction, Direction::Right);

    // The interior tile keeps entry and exit on one port set...
    assert_eq!(mid.connections[0].ports, mid.connections[1].ports);
    // ...which is the one propagated from the start.
    assert_eq!(mid.connections[0].ports, PortSet::P23);
    assert_eq!(mid.tile_id, "straight-h-88");

    // The goal consumes the propagated port.
    assert_eq!(goal.connections[0].ports, PortSet::P23);
    assert_eq!(goal.connections[0].direction, Direction::Left);
}

#[test]
fn port_continuity_along_found_path() {
    // Search a 3x3 grid, map the result, and check lane continuity along
    // every consecutive pair of the path.
    let r = find_road_path(0, 0, 2, 2, 3, 3, 100000);
    assert!(r.found);
    let result = path_to_tiles(&r.path, GridSize { rows: 3, cols: 3 }).unwrap();
    assert!(result.valid);
    for i in 0..r.path.len() - 1 {
        let a = r.path[i];
        let b = r.path[i + 1];
        let ca = result.grid[a.row as usize][a.col as usize].as_ref().unwrap();
        let cb = result.grid[b.row as usize][b.col as usize].as_ref().unwrap();
        assert_eq!(ca.path_index, i);
        assert_eq!(cb.path_index, i + 1);
        let exit = ca.connections.last().unwrap().ports;
        let entry = cb.connections.first().unwrap().ports;
        assert_eq!(exit, entry);
    }
}

#[test]
fn single_point_path_is_invalid_and_empty() {
    let path = vec![Point::new(1, 1)];
    let result = path_to_tiles(&path, GridSize { rows: 3, cols: 3 }).unwrap();
    assert!(!result.valid);
    for row in &result.grid {
        for cell in row {
            assert!(cell.is_none());
        }
    }
}

#[test]
fn empty_path_is_invalid_and_empty() {
    let path: Vec<Point> = Vec::new();
    let result = path_to_tiles(&path, GridSize { rows: 2, cols: 2 }).unwrap();
    assert!(!result.valid);
    for row in &result.grid {
        for cell in row {
            assert!(cell.is_none());
        }
    }
}

#[test]
fn mapping_is_idempotent() {
    let path = vec![
        Point::new(0, 0),
        Point::new(1, 0),
        Point::new(1, 1),
        Point::new(0, 1),
    ];
    let g = GridSize { rows: 2, cols: 2 };
    let first = path_to_tiles(&path, g);
    let second = path_to_tiles(&path, g);
    assert_eq!(first, second);
}
