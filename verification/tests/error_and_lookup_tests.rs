use road_tile::{
    find_matching_tiles, find_tile_with_port_constraint, get_all_tiles, get_direction,
    path_to_road_grid, path_to_tiles, Direction, GridSize, MapError, Point, PortSet,
};

#[test]
fn non_adjacent_pair_is_malformed() {
    let path = vec![Point::new(0, 0), Point::new(2, 2)];
    let result = path_to_tiles(&path, GridSize { rows: 3, cols: 3 });
    assert_eq!(result, Err(MapError::MalformedPath));
}

#[test]
fn diagonal_pair_is_malformed() {
    let path = vec![Point::new(0, 0), Point::new(1, 1), Point::new(1, 2)];
    let result = path_to_tiles(&path, GridSize { rows: 2, cols: 3 });
    assert_eq!(result, Err(MapError::MalformedPath));
}

#[test]
fn out_of_bounds_point_is_malformed() {
    // The points are adjacent, but (0,1) lies outside a 1x1 grid.
    let path = vec![Point::new(0, 0), Point::new(0, 1)];
    let result = path_to_tiles(&path, GridSize { rows: 1, cols: 1 });
    assert_eq!(result, Err(MapError::MalformedPath));
}

#[test]
fn road_grid_wrapper_matches_mapper() {
    let path = vec![Point::new(0, 0), Point::new(0, 1), Point::new(0, 2)];
    let a = path_to_road_grid(&path, 1, 3);
    let b = path_to_tiles(&path, GridSize { rows: 1, cols: 3 });
    assert_eq!(a, b);
}

#[test]
fn direction_helpers() {
    assert_eq!(Direction::Up.opposite(), Direction::Down);
    assert_eq!(Direction::Left.opposite(), Direction::Right);
    assert_eq!(Direction::Up.delta(), (-1, 0));
    assert_eq!(Direction::Down.delta(), (1, 0));
    assert_eq!(Direction::Left.delta(), (0, -1));
    assert_eq!(Direction::Right.delta(), (0, 1));
    assert_eq!(Direction::Up.to_string(), "up");
    assert_eq!(Direction::Down.to_string(), "down");
    assert_eq!(Direction::Left.to_string(), "left");
    assert_eq!(Direction::Right.to_string(), "right");
    assert_eq!(
        Direction::all(),
        [Direction::Up, Direction::Right, Direction::Down, Direction::Left]
    );
    assert_eq!(PortSet::P12.to_string(), "12");
    assert_eq!(PortSet::P23.to_string(), "23");
}

#[test]
fn direction_between_points() {
    let p = Point::new(3, 3);
    assert_eq!(get_direction(p, Point::new(2, 3)), Some(Direction::Up));
    assert_eq!(get_direction(p, Point::new(4, 3)), Some(Direction::Down));
    assert_eq!(get_direction(p, Point::new(3, 2)), Some(Direction::Left));
    assert_eq!(get_direction(p, Point::new(3, 4)), Some(Direction::Right));
    assert_eq!(get_direction(p, Point::new(4, 4)), None);
    assert_eq!(get_direction(p, p), None);
    assert_eq!(get_direction(p, Point::new(5, 3)), None);
}

#[test]
fn tile_connection_lookup() {
    let tiles = get_all_tiles();
    // curve-05 connects Up with P12 and Right with P12.
    let t = &tiles[0];
    assert_eq!(t.id, "curve-05");
    assert!(t.has_direction(Direction::Up));
    assert!(t.has_direction(Direction::Right));
    assert!(!t.has_direction(Direction::Down));
    assert_eq!(t.get_connection(Direction::Up), Some(PortSet::P12));
    assert_eq!(t.get_connection(Direction::Right), Some(PortSet::P12));
    assert_eq!(t.get_connection(Direction::Left), None);
}

#[test]
fn first_matching_tile_follows_catalog_order() {
    let tiles = get_all_tiles();
    // Entering moving Right (over the Left edge) and exiting Right with no
    // required port: the first lane-preserving tile is the P12 horizontal
    // straight.
    let r = find_tile_with_port_constraint(&tiles, Direction::Right, Direction::Right, None);
    let (id, ep, xp) = r.unwrap();
    assert_eq!(id, "straight-h-44");
    assert_eq!(ep, PortSet::P12);
    assert_eq!(xp, PortSet::P12);

    // With the outer lane required, the P23 straight is chosen instead.
    let r = find_tile_with_port_constraint(
        &tiles,
        Direction::Right,
        Direction::Right,
        Some(PortSet::P23),
    );
    let (id, ep, xp) = r.unwrap();
    assert_eq!(id, "straight-h-88");
    assert_eq!(ep, PortSet::P23);
    assert_eq!(xp, PortSet::P23);
}

#[test]
fn matching_tiles_filters_in_order() {
    let tiles = get_all_tiles();
    // Tiles entered moving Down (over the Up edge) on P12 and leaving
    // Right on P12: the curve and the sharp with mask 0x05.
    let found = find_matching_tiles(
        Direction::Down,
        PortSet::P12,
        Direction::Right,
        PortSet::P12,
        &tiles,
    );
    assert_eq!(found.len(), 2);
    assert_eq!(found[0].id, "curve-05");
    assert_eq!(found[1].id, "sharp-05");
}
