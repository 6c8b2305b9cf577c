//! Conversion of a path into per-cell road tile assignments.
//!
//! Each path cell is assigned a tile whose edge connections cover the
//! directions the path crosses, and the port set chosen for a tile's exit
//! edge is propagated as the required entry port of the next tile, so the
//! rendered lanes stay continuous along the whole route. The first cell
//! gets a literal "start" marker, the last a literal "goal" marker.
use crate::geometry::{in_bounds, spec_direction, spec_opposite, Direction, GridSize, Point};
use crate::tiles::{
    catalog, catalog_entry, catalog_len, get_all_tiles, spec_get_connection, PortSet,
    TileDefinition,
};
use vstd::prelude::*;
use vstd::string::StringExecFns;

verus! {

/// A connection of a cell's tile: the edge it crosses and the port set
/// used there.
#[derive(Debug, Clone, Copy, PartialEq, Eq, Structural)]
pub struct Connection {
    pub direction: Direction,
    pub ports: PortSet,
}

/// Cell data for rendering: the tile chosen for the cell, its connections
/// in path order (entry first), and the cell's index within the path.
#[derive(Debug, Clone, PartialEq)]
pub struct CellData {
    pub tile_id: String,
    pub connections: Vec<Connection>,
    pub path_index: usize,
}

/// The mathematical value of a `CellData`.
#[verifier::ext_equal]
pub struct CellDataV {
    pub tile_id: Seq<char>,
    pub connections: Seq<Connection>,
    pub path_index: int,
}

impl View for CellData {
    type V = CellDataV;

    open spec fn view(&self) -> CellDataV {
        CellDataV {
            tile_id: self.tile_id@,
            connections: self.connections@,
            path_index: self.path_index as int,
        }
    }
}

/// Road grid result: a rows-by-cols grid of optional cell assignments and
/// an overall validity flag.
#[derive(Debug, Clone, PartialEq)]
pub struct RoadGridResult {
    pub grid: Vec<Vec<Option<CellData>>>,
    pub valid: bool,
}

/// A malformed path was supplied: two consecutive points that are not
/// unit-distance, axis-aligned neighbours, or a point outside the grid.
#[derive(Debug, Clone, Copy, PartialEq, Eq, Structural)]
pub enum MapError {
    MalformedPath,
}

/// The mathematical value of one grid row.
pub open spec fn row_view(row: Vec<Option<CellData>>) -> Seq<Option<CellDataV>> {
    row@.map_values(|c: Option<CellData>| cell_opt_view(c))
}

/// The mathematical value of an optional cell.
pub open spec fn cell_opt_view(c: Option<CellData>) -> Option<CellDataV> {
    match c {
        Some(cd) => Some(cd@),
        None => None,
    }
}

/// The mathematical value of the whole output grid.
pub open spec fn grid_view(g: Seq<Vec<Option<CellData>>>) -> Seq<Seq<Option<CellDataV>>> {
    g.map_values(|row: Vec<Option<CellData>>| row_view(row))
}

/// A rows-by-cols grid with no cell assigned.
pub open spec fn empty_grid(g: GridSize) -> Seq<Seq<Option<CellDataV>>> {
    Seq::new(g.rows as nat, |r: int| Seq::new(g.cols as nat, |c: int| None::<CellDataV>))
}

/// Whether tile `t` serves an interior cell entered over edge
/// `entry_from` and left towards `exit`: it must connect on both edges
/// with one and the same port set, and that port set must satisfy the
/// propagated requirement, if any.
pub open spec fn tile_ok(
    t: TileDefinition,
    entry_from: Direction,
    exit: Direction,
    req: Option<PortSet>,
) -> bool {
    match (spec_get_connection(t, entry_from), spec_get_connection(t, exit)) {
        (Some(ep), Some(xp)) => ep == xp && (req is None || req == Some(ep)),
        _ => false,
    }
}

/// The first catalog position at or after `j` whose tile satisfies the
/// interior-cell constraints, if any.
pub open spec fn first_tile_from(
    entry_from: Direction,
    exit: Direction,
    req: Option<PortSet>,
    j: int,
) -> Option<int>
    decreases catalog_len() - j,
{
    if j < 0 || j >= catalog_len() {
        None
    } else if tile_ok(catalog_entry(j), entry_from, exit, req) {
        Some(j)
    } else {
        first_tile_from(entry_from, exit, req, j + 1)
    }
}

/// The catalog position of the tile chosen for an interior cell with
/// entry direction `entry` and exit direction `exit`: the first catalog
/// entry, in definition order, satisfying the constraints.
pub open spec fn spec_find_tile(entry: Direction, exit: Direction, req: Option<PortSet>) -> Option<
    int,
> {
    first_tile_from(spec_opposite(entry), exit, req, 0)
}

/// The port set tile `j` offers on edge `edge` (the chosen tile always
/// offers one there).
pub open spec fn tile_port(j: int, edge: Direction) -> PortSet {
    match spec_get_connection(catalog_entry(j), edge) {
        Some(p) => p,
        None => PortSet::P23,
    }
}

/// The cell value assigned at path position `i` under the propagated
/// entry-port requirement `req`, together with the requirement propagated
/// to position `i + 1`. `None` means no tile satisfies the constraints
/// and the mapping is infeasible.
pub open spec fn cell_for(path: Seq<Point>, i: int, req: Option<PortSet>) -> Option<
    (CellDataV, Option<PortSet>),
> {
    let len = path.len() as int;
    if 0 < i && i < len - 1 {
        match (spec_direction(path[i - 1], path[i]), spec_direction(path[i], path[i + 1])) {
            (Some(en), Some(ex)) => match spec_find_tile(en, ex, req) {
                Some(j) => {
                    let p = tile_port(j, spec_opposite(en));
                    Some(
                        (
                            CellDataV {
                                tile_id: catalog_entry(j).id@,
                                connections: seq![
                                    Connection { direction: spec_opposite(en), ports: p },
                                    Connection { direction: ex, ports: p },
                                ],
                                path_index: i,
                            },
                            Some(p),
                        ),
                    )
                },
                None => None,
            },
            _ => None,
        }
    } else if i == 0 && len > 1 {
        match spec_direction(path[0], path[1]) {
            Some(ex) => Some(
                (
                    CellDataV {
                        tile_id: "start"@,
                        connections: seq![
                            Connection { direction: ex, ports: PortSet::P23 },
                        ],
                        path_index: 0,
                    },
                    Some(PortSet::P23),
                ),
            ),
            None => None,
        }
    } else if i == len - 1 && i > 0 {
        match spec_direction(path[i - 1], path[i]) {
            Some(en) => {
                let p = match req {
                    Some(pp) => pp,
                    None => PortSet::P23,
                };
                Some(
                    (
                        CellDataV {
                            tile_id: "goal"@,
                            connections: seq![
                                Connection { direction: spec_opposite(en), ports: p },
                            ],
                            path_index: i,
                        },
                        None::<PortSet>,
                    ),
                )
            },
            None => None,
        }
    } else {
        None
    }
}

/// The mapping continued from path position `i` with propagated
/// requirement `req` and the grid filled so far. `None` stands for the
/// malformed-path error; otherwise the result is the final grid and the
/// validity flag.
pub open spec fn map_from(
    path: Seq<Point>,
    g: GridSize,
    i: int,
    req: Option<PortSet>,
    acc: Seq<Seq<Option<CellDataV>>>,
) -> Option<(Seq<Seq<Option<CellDataV>>>, bool)>
    decreases path.len() - i,
{
    if i < 0 || i >= path.len() {
        Some((acc, true))
    } else if i < path.len() - 1 && spec_direction(path[i], path[i + 1]) is None {
        None
    } else {
        match cell_for(path, i, req) {
            None => Some((acc, false)),
            Some((cd, next_req)) => {
                if !in_bounds(path[i], g) {
                    None
                } else {
                    let r = path[i].row as int;
                    let c = path[i].col as int;
                    map_from(path, g, i + 1, next_req, acc.update(r, acc[r].update(c, Some(cd))))
                }
            },
        }
    }
}

/// What mapping `path` onto a grid of size `g` yields: `None` for the
/// malformed-path error, otherwise the output grid and validity flag. A
/// path shorter than two points yields an empty, invalid grid.
pub open spec fn spec_map_path(path: Seq<Point>, g: GridSize) -> Option<
    (Seq<Seq<Option<CellDataV>>>, bool),
> {
    if path.len() < 2 {
        Some((empty_grid(g), false))
    } else {
        map_from(path, g, 0, None, empty_grid(g))
    }
}

/// The direction from `from` to `to`, if they are axis-aligned,
/// unit-distance neighbours.
pub fn get_direction(from: Point, to: Point) -> (r: Option<Direction>)
    ensures
        r == spec_direction(from, to),
{
    let dr = (to.row as i64) - (from.row as i64);
    let dc = (to.col as i64) - (from.col as i64);
    if dr == -1 && dc == 0 {
        Some(Direction::Up)
    } else if dr == 1 && dc == 0 {
        Some(Direction::Down)
    } else if dr == 0 && dc == -1 {
        Some(Direction::Left)
    } else if dr == 0 && dc == 1 {
        Some(Direction::Right)
    } else {
        None
    }
}

/// Find the first catalog tile, in definition order, that connects the
/// entry edge to the exit edge on a single shared port set compatible
/// with the propagated requirement. Returns the tile id and the entry and
/// exit port sets (always equal).
pub fn find_tile_with_port_constraint(
    tiles: &Vec<TileDefinition>,
    entry: Direction,
    exit: Direction,
    required_entry_port: Option<PortSet>,
) -> (r: Option<(String, PortSet, PortSet)>)
    requires
        tiles@ == catalog(),
    ensures
        match (r, spec_find_tile(entry, exit, required_entry_port)) {
            (Some(t), Some(j)) => {
                &&& t.0@ == catalog_entry(j).id@
                &&& t.1 == tile_port(j, spec_opposite(entry))
                &&& t.2 == t.1
            },
            (None, None) => true,
            _ => false,
        },
{
    let entry_from = entry.opposite();
    #[verifier::loop_isolation(false)]
    for i in 0..tiles.len()
        invariant
            first_tile_from(spec_opposite(entry), exit, required_entry_port, 0) == first_tile_from(
                spec_opposite(entry),
                exit,
                required_entry_port,
                i as int,
            ),
    {
        let tile = &tiles[i];
        proof {
            assert(tiles@[i as int] == catalog_entry(i as int));
        }
        if tile.has_direction(entry_from) && tile.has_direction(exit) {
            let ep_opt = tile.get_connection(entry_from);
            let xp_opt = tile.get_connection(exit);
            if let (Some(ep), Some(xp)) = (ep_opt, xp_opt) {
                let req_ok = match required_entry_port {
                    Some(rp) => ep == rp,
                    None => true,
                };
                if ep == xp && req_ok {
                    return Some((String::from_str(tile.id), ep, xp));
                }
            }
        }
        proof {
            assert(!tile_ok(catalog_entry(i as int), spec_opposite(entry), exit,
                required_entry_port));
        }
    }
    None
}

/// Build a rows-by-cols grid with every cell unassigned.
fn make_empty_grid(grid_size: GridSize) -> (g: Vec<Vec<Option<CellData>>>)
    requires
        grid_size.rows >= 1,
        grid_size.cols >= 1,
    ensures
        g@.len() == grid_size.rows,
        forall|r: int| 0 <= r < grid_size.rows ==> (#[trigger] g@[r])@.len() == grid_size.cols,
        grid_view(g@) == empty_grid(grid_size),
{
    let rows = grid_size.rows as usize;
    let cols = grid_size.cols as usize;
    let mut g: Vec<Vec<Option<CellData>>> = Vec::new();
    for r in 0..rows
        invariant
            g@.len() == r,
            forall|i: int| 0 <= i < r ==> (#[trigger] g@[i])@.len() == cols,
            forall|i: int, c: int|
                0 <= i < r && 0 <= c < cols ==> (#[trigger] g@[i]@[c]) is None,
    {
        let mut row: Vec<Option<CellData>> = Vec::new();
        for c in 0..cols
            invariant
                row@.len() == c,
                forall|k: int| 0 <= k < c ==> (#[trigger] row@[k]) is None,
        {
            row.push(None);
        }
        g.push(row);
    }
    proof {
        assert forall|r: int| 0 <= r < grid_size.rows implies grid_view(g@)[r] =~= empty_grid(
            grid_size,
        )[r] by {
            assert(grid_view(g@)[r] == row_view(g@[r]));
            assert forall|c: int| 0 <= c < grid_size.cols implies row_view(g@[r])[c] == empty_grid(
                grid_size,
            )[r][c] by {
                assert(g@[r]@[c] is None);
            }
        }
        assert(grid_view(g@) =~~= empty_grid(grid_size));
    }
    g
}

/// Writing one cell of the output grid updates its mathematical value
/// pointwise.
proof fn lemma_grid_view_update(
    pre: Seq<Vec<Option<CellData>>>,
    post: Seq<Vec<Option<CellData>>>,
    r: int,
    c: int,
    cd: CellData,
)
    requires
        0 <= r < pre.len(),
        0 <= c < pre[r]@.len(),
        post.len() == pre.len(),
        post[r]@ == pre[r]@.update(c, Some(cd)),
        forall|rr: int| 0 <= rr < pre.len() && rr != r ==> post[rr] == pre[rr],
    ensures
        grid_view(post) == grid_view(pre).update(r, grid_view(pre)[r].update(c, Some(cd@))),
{
    let rhs = grid_view(pre).update(r, grid_view(pre)[r].update(c, Some(cd@)));
    assert forall|rr: int| 0 <= rr < post.len() implies grid_view(post)[rr] =~= rhs[rr] by {
        assert(grid_view(post)[rr] == row_view(post[rr]));
        if rr == r {
            assert forall|cc: int|
                0 <= cc < post[r]@.len() implies row_view(post[r])[cc] == rhs[r][cc] by {
                assert(row_view(post[r])[cc] == cell_opt_view(post[r]@[cc]));
                if cc == c {
                    assert(post[r]@[cc] == Some(cd));
                } else {
                    assert(post[r]@[cc] == pre[r]@[cc]);
                    assert(rhs[r][cc] == row_view(pre[r])[cc]);
                }
            }
        } else {
            assert(post[rr] == pre[rr]);
        }
    }
    assert(grid_view(post) =~~= rhs);
}

/// Convert a path to a grid with tile assignments.
///
/// Port propagation keeps the lane connections between consecutive tiles
/// continuous. A path shorter than two points yields an empty grid marked
/// invalid; a cell for which no tile satisfies the constraints stops the
/// mapping with the partial grid marked invalid; a malformed path (two
/// consecutive points that are not unit-distance, axis-aligned
/// neighbours, or a point outside the grid) is reported as an error.
pub fn path_to_tiles(path: &Vec<Point>, grid_size: GridSize) -> (res: Result<
    RoadGridResult,
    MapError,
>)
    requires
        grid_size.rows >= 1,
        grid_size.cols >= 1,
    ensures
        match res {
            Ok(rg) => {
                &&& spec_map_path(path@, grid_size) == Some((grid_view(rg.grid@), rg.valid))
                &&& rg.grid@.len() == grid_size.rows
                &&& forall|r: int|
                    0 <= r < grid_size.rows ==> (#[trigger] rg.grid@[r])@.len() == grid_size.cols
            },
            Err(e) => {
                &&& spec_map_path(path@, grid_size) is None
                &&& e == MapError::MalformedPath
            },
        },
{
    let mut grid = make_empty_grid(grid_size);

    if path.len() < 2 {
        return Ok(RoadGridResult { grid, valid: false });
    }

    let tiles = get_all_tiles();
    let mut required_entry_port: Option<PortSet> = None;

    let n = path.len();
    #[verifier::loop_isolation(false)]
    for i in 0..n
        invariant
            grid@.len() == grid_size.rows,
            forall|r: int| 0 <= r < grid_size.rows ==> (#[trigger] grid@[r])@.len() == grid_size.cols,
            map_from(path@, grid_size, i as int, required_entry_port, grid_view(grid@))
                == spec_map_path(path@, grid_size),
            0 < i < n ==> spec_direction(path@[i - 1], path@[i as int]) is Some,
    {
        let current = path[i];
        let ghost req0 = required_entry_port;
        let ghost gv0 = grid_view(grid@);

        // Entry direction: the pair (i - 1, i) was already checked when
        // cell i - 1 resolved its exit.
        let entry_dir: Option<Direction> = if i > 0 {
            get_direction(path[i - 1], current)
        } else {
            None
        };

        // Exit direction: a non-adjacent pair makes the path malformed.
        let exit_dir: Option<Direction> = if i + 1 < n {
            match get_direction(current, path[i + 1]) {
                Some(d) => Some(d),
                None => {
                    return Err(MapError::MalformedPath);
                },
            }
        } else {
            None
        };

        // Resolve the cell's tile and its propagated exit port.
        let (cell, next_required): (CellData, Option<PortSet>) = match (entry_dir, exit_dir) {
            (Some(entry), Some(exit)) => {
                match find_tile_with_port_constraint(&tiles, entry, exit, required_entry_port) {
                    Some((id, ep, xp)) => {
                        let mut connections: Vec<Connection> = Vec::new();
                        connections.push(
                            Connection { direction: entry.opposite(), ports: ep },
                        );
                        connections.push(Connection { direction: exit, ports: xp });
                        let cd = CellData { tile_id: id, connections, path_index: i };
                        proof {
                            assert(cell_for(path@, i as int, req0) == Some(
                                (cd@, Some(xp)),
                            )) by {
                                assert(cd@.connections =~= cell_for_connections_interior(
                                    path@,
                                    i as int,
                                    req0,
                                ));
                            };
                        }
                        (cd, Some(xp))
                    },
                    None => {
                        proof {
                            assert(cell_for(path@, i as int, req0) is None);
                        }
                        return Ok(RoadGridResult { grid, valid: false });
                    },
                }
            },
            (None, Some(exit)) => {
                // Start cell: marker tile, outer-lane port set.
                let mut connections: Vec<Connection> = Vec::new();
                connections.push(Connection { direction: exit, ports: PortSet::P23 });
                let cd = CellData {
                    tile_id: String::from_str("start"),
                    connections,
                    path_index: i,
                };
                proof {
                    assert(cell_for(path@, i as int, req0) == Some((cd@, Some(PortSet::P23))))
                        by {
                        assert(cd@.connections =~= seq![
                            Connection { direction: spec_direction(path@[0], path@[1]).unwrap(), ports: PortSet::P23 },
                        ]);
                    };
                }
                (cd, Some(PortSet::P23))
            },
            (Some(entry), None) => {
                // End cell: marker tile, propagated port set.
                let p = match required_entry_port {
                    Some(pp) => pp,
                    None => PortSet::P23,
                };
                let mut connections: Vec<Connection> = Vec::new();
                connections.push(Connection { direction: entry.opposite(), ports: p });
                let cd = CellData {
                    tile_id: String::from_str("goal"),
                    connections,
                    path_index: i,
                };
                proof {
                    assert(cell_for(path@, i as int, req0) == Some((cd@, None::<PortSet>))) by {
                        assert(cd@.connections =~= seq![
                            Connection { direction: spec_opposite(spec_direction(path@[i - 1], path@[i as int]).unwrap()), ports: p },
                        ]);
                    };
                }
                (cd, None)
            },
            (None, None) => {
                proof {
                    assert(false);
                }
                return Err(MapError::MalformedPath);
            },
        };

        // The grid write checks the point's bounds; an out-of-bounds
        // point makes the path malformed.
        if !(current.row >= 0 && current.row < grid_size.rows && current.col >= 0 && current.col
            < grid_size.cols) {
            return Err(MapError::MalformedPath);
        }

        let r = current.row as usize;
        let c = current.col as usize;
        let ghost pre_grid = grid@;
        grid[r][c] = Some(cell);
        proof {
            lemma_grid_view_update(pre_grid, grid@, r as int, c as int, cell);
            assert(map_from(path@, grid_size, i as int, req0, gv0) == map_from(
                path@,
                grid_size,
                i + 1,
                next_required,
                grid_view(grid@),
            ));
        }

        required_entry_port = next_required;
    }

    Ok(RoadGridResult { grid, valid: true })
}

/// The connection pair the specification assigns to interior cell `i`.
pub open spec fn cell_for_connections_interior(
    path: Seq<Point>,
    i: int,
    req: Option<PortSet>,
) -> Seq<Connection> {
    let en = spec_direction(path[i - 1], path[i]).unwrap();
    let ex = spec_direction(path[i], path[i + 1]).unwrap();
    let j = spec_find_tile(en, ex, req).unwrap();
    let p = tile_port(j, spec_opposite(en));
    seq![
        Connection { direction: spec_opposite(en), ports: p },
        Connection { direction: ex, ports: p },
    ]
}

/// Convert a path to a road grid with tile assignments.
pub fn path_to_road_grid(path: &Vec<Point>, grid_rows: i32, grid_cols: i32) -> (res: Result<
    RoadGridResult,
    MapError,
>)
    requires
        grid_rows >= 1,
        grid_cols >= 1,
    ensures
        match res {
            Ok(rg) => {
                &&& spec_map_path(path@, (GridSize { rows: grid_rows, cols: grid_cols })) == Some(
                    (grid_view(rg.grid@), rg.valid),
                )
                &&& rg.grid@.len() == grid_rows
                &&& forall|r: int|
                    0 <= r < grid_rows ==> (#[trigger] rg.grid@[r])@.len() == grid_cols
            },
            Err(e) => {
                &&& spec_map_path(path@, (GridSize { rows: grid_rows, cols: grid_cols })) is None
                &&& e == MapError::MalformedPath
            },
        },
{
    path_to_tiles(path, GridSize { rows: grid_rows, cols: grid_cols })
}

} // verus!
