//! Proved laws of the mapper: port continuity and purity.
use crate::geometry::{in_bounds, Direction, GridSize, Point};
use crate::mapper::{
    cell_for, empty_grid, first_tile_from, map_from, spec_map_path, tile_ok, CellDataV,
};
use crate::tiles::{catalog_entry, catalog_len, PortSet};
use vstd::prelude::*;

verus! {

/// The cell behind an optional assignment (a placeholder for none).
pub open spec fn cd_of(o: Option<CellDataV>) -> CellDataV {
    match o {
        Some(c) => c,
        None => CellDataV { tile_id: Seq::empty(), connections: Seq::empty(), path_index: -1 },
    }
}

/// The assignment a result grid holds at point `p`.
pub open spec fn cell_at(grid: Seq<Seq<Option<CellDataV>>>, p: Point) -> Option<CellDataV> {
    grid[p.row as int][p.col as int]
}

/// The grid holds, at the position of path index `k`, a cell recorded for
/// path index `k`.
pub open spec fn has_index_cell(
    path: Seq<Point>,
    g: GridSize,
    grid: Seq<Seq<Option<CellDataV>>>,
    k: int,
) -> bool {
    &&& in_bounds(path[k], g)
    &&& cell_at(grid, path[k]) is Some
    &&& cd_of(cell_at(grid, path[k])).path_index == k
}

/// The port set of a cell's entry connection (its first).
pub open spec fn entry_ports(cd: CellDataV) -> PortSet {
    cd.connections.first().ports
}

/// The port set of a cell's exit connection (its last).
pub open spec fn exit_ports(cd: CellDataV) -> PortSet {
    cd.connections.last().ports
}

/// Lane continuity between path indices `k` and `k + 1`: wherever the
/// result grid holds cells recorded for both indices, the exit port
/// recorded at `k` equals the entry port recorded at `k + 1`.
pub open spec fn continuity_pair(
    path: Seq<Point>,
    g: GridSize,
    grid: Seq<Seq<Option<CellDataV>>>,
    k: int,
) -> bool {
    (has_index_cell(path, g, grid, k) && has_index_cell(path, g, grid, k + 1)) ==> exit_ports(
        cd_of(cell_at(grid, path[k])),
    ) == entry_ports(cd_of(cell_at(grid, path[k + 1])))
}

/// Invariant of the mapping fold: every placed cell sits at the position
/// of its recorded path index, indices placed so far are below `i`, pairs
/// fully placed are port-continuous, and the propagated requirement is
/// the exit port of the cell placed for index `i - 1`.
pub open spec fn placed_inv(
    path: Seq<Point>,
    g: GridSize,
    acc: Seq<Seq<Option<CellDataV>>>,
    i: int,
    req: Option<PortSet>,
) -> bool {
    &&& acc.len() == g.rows
    &&& forall|r: int| 0 <= r < g.rows ==> (#[trigger] acc[r]).len() == g.cols
    &&& forall|r: int, c: int|
        0 <= r < g.rows && 0 <= c < g.cols && (#[trigger] acc[r][c]) is Some ==> {
            let cd = cd_of(acc[r][c]);
            &&& 0 <= cd.path_index < i
            &&& cd.path_index < path.len()
            &&& path[cd.path_index].row as int == r
            &&& path[cd.path_index].col as int == c
            &&& cd.connections.len() >= 1
        }
    &&& forall|k: int| 0 <= k < i - 1 ==> #[trigger] continuity_pair(path, g, acc, k)
    &&& (1 <= i < path.len() ==> req is Some)
    &&& (1 <= i < path.len() && has_index_cell(path, g, acc, i - 1) ==> Some(
        exit_ports(cd_of(cell_at(acc, path[i - 1]))),
    ) == req)
}

/// The tile position that `first_tile_from` finds satisfies the
/// interior-cell constraints.
proof fn lemma_first_tile_ok(entry_from: Direction, exit: Direction, req: Option<PortSet>, j0: int)
    requires
        first_tile_from(entry_from, exit, req, j0) is Some,
    ensures
        j0 <= first_tile_from(entry_from, exit, req, j0).unwrap() < catalog_len(),
        tile_ok(
            catalog_entry(first_tile_from(entry_from, exit, req, j0).unwrap()),
            entry_from,
            exit,
            req,
        ),
    decreases catalog_len() - j0,
{
    if j0 < 0 || j0 >= catalog_len() {
    } else if tile_ok(catalog_entry(j0), entry_from, exit, req) {
    } else {
        lemma_first_tile_ok(entry_from, exit, req, j0 + 1);
    }
}

/// The mapping fold preserves `placed_inv` and, when it ends valid,
/// yields a grid in which every fully placed consecutive pair is
/// port-continuous.
proof fn lemma_map_from_continuity(
    path: Seq<Point>,
    g: GridSize,
    i: int,
    req: Option<PortSet>,
    acc: Seq<Seq<Option<CellDataV>>>,
    grid: Seq<Seq<Option<CellDataV>>>,
)
    requires
        path.len() >= 2,
        0 <= i,
        g.rows >= 1,
        g.cols >= 1,
        placed_inv(path, g, acc, i, req),
        map_from(path, g, i, req, acc) == Some((grid, true)),
    ensures
        forall|k: int| 0 <= k < path.len() - 1 ==> #[trigger] continuity_pair(path, g, grid, k),
    decreases path.len() - i,
{
    if i >= path.len() {
        assert(grid == acc);
        assert forall|k: int| 0 <= k < path.len() - 1 implies #[trigger] continuity_pair(
            path,
            g,
            grid,
            k,
        ) by {
            assert(continuity_pair(path, g, acc, k));
        }
    } else {
        let co = cell_for(path, i, req);
        match co {
            None => {
                assert(map_from(path, g, i, req, acc) == Some((acc, false)));
                assert(false);
            },
            Some((cd, nr)) => {
                assert(in_bounds(path[i], g));
                let pr = path[i].row as int;
                let pc = path[i].col as int;
                let acc2 = acc.update(pr, acc[pr].update(pc, Some(cd)));
                assert(map_from(path, g, i + 1, nr, acc2) == Some((grid, true)));

                // Facts about the cell the specification places at step i.
                assert(cd.path_index == i);
                assert(cd.connections.len() >= 1);
                if 0 < i && i < path.len() - 1 {
                    let en = spec_direction_of(path, i - 1);
                    let ex = spec_direction_of(path, i);
                    let j = crate::mapper::spec_find_tile(en, ex, req).unwrap();
                    lemma_first_tile_ok(crate::geometry::spec_opposite(en), ex, req, 0);
                    assert(tile_ok(catalog_entry(j), crate::geometry::spec_opposite(en), ex, req));
                    assert(req is Some);
                    assert(Some(entry_ports(cd)) == req);
                    assert(nr == Some(exit_ports(cd)));
                } else if i == 0 {
                    assert(exit_ports(cd) == PortSet::P23);
                    assert(nr == Some(PortSet::P23));
                } else {
                    // goal cell: i == path.len() - 1
                    assert(req is Some);
                    assert(Some(entry_ports(cd)) == req);
                    assert(nr is None);
                }

                // Cells at other positions are untouched.
                assert forall|q: Point|
                    in_bounds(q, g) && q != path[i] implies cell_at(acc2, q) == cell_at(
                    acc,
                    q,
                ) by {
                    if q.row as int != pr {
                        assert(acc2[q.row as int] == acc[q.row as int]);
                    } else {
                        assert(q.col as int != pc);
                        assert(acc2[pr][q.col as int] == acc[pr][q.col as int]);
                    }
                }
                assert(cell_at(acc2, path[i]) == Some(cd));

                // placed_inv carries to the next step.
                assert forall|r: int, c: int|
                    0 <= r < g.rows && 0 <= c < g.cols && (#[trigger] acc2[r][c]) is Some implies {
                    let cd2 = cd_of(acc2[r][c]);
                    &&& 0 <= cd2.path_index < i + 1
                    &&& cd2.path_index < path.len()
                    &&& path[cd2.path_index].row as int == r
                    &&& path[cd2.path_index].col as int == c
                    &&& cd2.connections.len() >= 1
                } by {
                    if r == pr && c == pc {
                        assert(acc2[r][c] == Some(cd));
                    } else {
                        assert(acc2[r][c] == acc[r][c]);
                    }
                }
                assert forall|k: int| 0 <= k < i implies #[trigger] continuity_pair(
                    path,
                    g,
                    acc2,
                    k,
                ) by {
                    if has_index_cell(path, g, acc2, k) && has_index_cell(path, g, acc2, k + 1) {
                        if k < i - 1 {
                            if path[k] == path[i] {
                                assert(cd_of(cell_at(acc2, path[k])).path_index == i);
                                assert(false);
                            }
                            if path[k + 1] == path[i] {
                                assert(cd_of(cell_at(acc2, path[k + 1])).path_index == i);
                                assert(false);
                            }
                            assert(cell_at(acc2, path[k]) == cell_at(acc, path[k]));
                            assert(cell_at(acc2, path[k + 1]) == cell_at(acc, path[k + 1]));
                            assert(continuity_pair(path, g, acc, k));
                        } else {
                            // k == i - 1: the new cell closes the pair.
                            if path[k] == path[i] {
                                assert(cd_of(cell_at(acc2, path[k])).path_index == i);
                                assert(false);
                            }
                            assert(cell_at(acc2, path[k]) == cell_at(acc, path[k]));
                            assert(has_index_cell(path, g, acc, i - 1));
                            assert(Some(exit_ports(cd_of(cell_at(acc, path[i - 1])))) == req);
                            assert(cell_at(acc2, path[i]) == Some(cd));
                            assert(Some(entry_ports(cd)) == req);
                        }
                    }
                }
                assert(placed_inv(path, g, acc2, i + 1, nr)) by {
                    if 1 <= i + 1 < path.len() && has_index_cell(path, g, acc2, i) {
                        assert(cell_at(acc2, path[i]) == Some(cd));
                    }
                }
                lemma_map_from_continuity(path, g, i + 1, nr, acc2, grid);
            },
        }
    }
}

/// The direction between path points `k` and `k + 1` (defined when they
/// are adjacent).
pub open spec fn spec_direction_of(path: Seq<Point>, k: int) -> Direction {
    crate::geometry::spec_direction(path[k], path[k + 1]).unwrap()
}

/// Port-continuity invariant: in a mapping result marked valid, for every
/// consecutive pair of path indices whose cells are both present in the
/// grid, the exit port recorded at the first equals the entry port
/// recorded at the second.
pub proof fn lemma_port_continuity(
    path: Seq<Point>,
    g: GridSize,
    grid: Seq<Seq<Option<CellDataV>>>,
)
    requires
        g.rows >= 1,
        g.cols >= 1,
        spec_map_path(path, g) == Some((grid, true)),
    ensures
        forall|k: int| 0 <= k < path.len() - 1 ==> #[trigger] continuity_pair(path, g, grid, k),
{
    assert(path.len() >= 2);
    assert(placed_inv(path, g, empty_grid(g), 0, None)) by {
        assert forall|r: int, c: int|
            0 <= r < g.rows && 0 <= c < g.cols implies !((#[trigger] empty_grid(g)[r][c])
            is Some) by {
            assert(empty_grid(g)[r][c] is None);
        }
    }
    lemma_map_from_continuity(path, g, 0, None, empty_grid(g), grid);
}

/// The mapping fold keeps every already placed cell in place when the
/// path never repeats a point, and places one cell per remaining step.
proof fn lemma_map_from_cells_present(
    path: Seq<Point>,
    g: GridSize,
    i: int,
    req: Option<PortSet>,
    acc: Seq<Seq<Option<CellDataV>>>,
    grid: Seq<Seq<Option<CellDataV>>>,
)
    requires
        path.len() >= 2,
        0 <= i,
        g.rows >= 1,
        g.cols >= 1,
        forall|a: int, b: int| 0 <= a < b < path.len() ==> path[a] != path[b],
        acc.len() == g.rows,
        forall|r: int| 0 <= r < g.rows ==> (#[trigger] acc[r]).len() == g.cols,
        forall|k: int| 0 <= k < i ==> #[trigger] has_index_cell(path, g, acc, k),
        map_from(path, g, i, req, acc) == Some((grid, true)),
    ensures
        forall|k: int| 0 <= k < path.len() ==> #[trigger] has_index_cell(path, g, grid, k),
    decreases path.len() - i,
{
    if i >= path.len() {
        assert(grid == acc);
    } else {
        let co = cell_for(path, i, req);
        match co {
            None => {
                assert(map_from(path, g, i, req, acc) == Some((acc, false)));
                assert(false);
            },
            Some((cd, nr)) => {
                assert(in_bounds(path[i], g));
                let pr = path[i].row as int;
                let pc = path[i].col as int;
                let acc2 = acc.update(pr, acc[pr].update(pc, Some(cd)));
                assert(cd.path_index == i);
                assert(cell_at(acc2, path[i]) == Some(cd));
                assert forall|q: Point|
                    in_bounds(q, g) && q != path[i] implies cell_at(acc2, q) == cell_at(
                    acc,
                    q,
                ) by {
                    if q.row as int != pr {
                        assert(acc2[q.row as int] == acc[q.row as int]);
                    } else {
                        assert(q.col as int != pc);
                        assert(acc2[pr][q.col as int] == acc[pr][q.col as int]);
                    }
                }
                assert forall|k: int| 0 <= k < i + 1 implies #[trigger] has_index_cell(
                    path,
                    g,
                    acc2,
                    k,
                ) by {
                    if k < i {
                        assert(has_index_cell(path, g, acc, k));
                        assert(in_bounds(path[k], g));
                        assert(path[k] != path[i]);
                        assert(cell_at(acc2, path[k]) == cell_at(acc, path[k]));
                    }
                }
                lemma_map_from_cells_present(path, g, i + 1, nr, acc2, grid);
            },
        }
    }
}

/// Combining full coverage with pairwise continuity gives the port
/// equality at every consecutive pair.
proof fn lemma_covers_combine(path: Seq<Point>, g: GridSize, grid: Seq<Seq<Option<CellDataV>>>)
    requires
        forall|k: int| 0 <= k < path.len() ==> #[trigger] has_index_cell(path, g, grid, k),
        forall|k: int| 0 <= k < path.len() - 1 ==> #[trigger] continuity_pair(path, g, grid, k),
    ensures
        forall|k: int|
            0 <= k < path.len() - 1 ==> exit_ports(cd_of(cell_at(grid, #[trigger] path[k])))
                == entry_ports(cd_of(cell_at(grid, path[k + 1]))),
{
    assert forall|k: int|
        0 <= k < path.len() - 1 implies exit_ports(cd_of(cell_at(grid, #[trigger] path[k])))
        == entry_ports(cd_of(cell_at(grid, path[k + 1]))) by {
        assert(continuity_pair(path, g, grid, k));
        assert(has_index_cell(path, g, grid, k));
        assert(has_index_cell(path, g, grid, k + 1));
    }
}

/// In a valid mapping of a duplicate-free path, every path index has its
/// cell present at its point, and the exit port recorded at each index
/// equals the entry port recorded at the next: the lanes are continuous
/// along the whole route.
pub proof fn lemma_valid_mapping_covers_path(
    path: Seq<Point>,
    g: GridSize,
    grid: Seq<Seq<Option<CellDataV>>>,
)
    requires
        g.rows >= 1,
        g.cols >= 1,
        forall|a: int, b: int| 0 <= a < b < path.len() ==> path[a] != path[b],
        spec_map_path(path, g) == Some((grid, true)),
    ensures
        forall|k: int| 0 <= k < path.len() ==> #[trigger] has_index_cell(path, g, grid, k),
        forall|k: int|
            0 <= k < path.len() - 1 ==> exit_ports(cd_of(cell_at(grid, #[trigger] path[k])))
                == entry_ports(cd_of(cell_at(grid, path[k + 1]))),
{
    assert(path.len() >= 2);
    lemma_map_from_cells_present(path, g, 0, None, empty_grid(g), grid);
    lemma_port_continuity(path, g, grid);
    lemma_covers_combine(path, g, grid);
}

/// A well-formed path: at least two points, all inside the grid, none
/// repeated, and every consecutive pair grid-adjacent.
pub open spec fn well_formed_path(path: Seq<Point>, g: GridSize) -> bool {
    &&& path.len() >= 2
    &&& forall|k: int| 0 <= k < path.len() ==> in_bounds(#[trigger] path[k], g)
    &&& forall|a: int, b: int| 0 <= a < b < path.len() ==> path[a] != path[b]
    &&& forall|k: int|
        0 <= k < path.len() - 1 ==> crate::geometry::spec_direction(
            #[trigger] path[k],
            path[k + 1],
        ) is Some
}

/// A direction leads from a point to exactly one neighbour.
proof fn lemma_direction_injective(c: Point, a: Point, b: Point, d: Direction)
    requires
        crate::geometry::spec_direction(c, a) == Some(d),
        crate::geometry::spec_direction(c, b) == Some(d),
    ensures
        a == b,
{
}

/// Walking an edge backwards crosses it in the opposite direction.
proof fn lemma_direction_reverse(a: Point, b: Point, d: Direction)
    requires
        crate::geometry::spec_direction(a, b) == Some(d),
    ensures
        crate::geometry::spec_direction(b, a) == Some(crate::geometry::spec_opposite(d)),
{
}

/// A catalog position whose tile connects the two given distinct edges
/// with the given port set on both.
pub open spec fn equal_port_tile(a: Direction, b: Direction, p: PortSet) -> int {
    match (a, b) {
        (Direction::Up, Direction::Right) | (Direction::Right, Direction::Up) => if p
            == PortSet::P12 {
            0
        } else {
            3
        },
        (Direction::Right, Direction::Down) | (Direction::Down, Direction::Right) => if p
            == PortSet::P12 {
            4
        } else {
            7
        },
        (Direction::Up, Direction::Left) | (Direction::Left, Direction::Up) => if p
            == PortSet::P12 {
            8
        } else {
            13
        },
        (Direction::Down, Direction::Left) | (Direction::Left, Direction::Down) => if p
            == PortSet::P12 {
            10
        } else {
            15
        },
        (Direction::Up, Direction::Down) | (Direction::Down, Direction::Up) => if p
            == PortSet::P12 {
            32
        } else {
            35
        },
        (Direction::Left, Direction::Right) | (Direction::Right, Direction::Left) => if p
            == PortSet::P12 {
            36
        } else {
            39
        },
        _ => 0,
    }
}

/// For every pair of distinct edges and every port set the catalog holds
/// a tile connecting exactly those edges with that port set on both.
pub proof fn lemma_tile_exists(a: Direction, b: Direction, p: PortSet)
    requires
        a != b,
    ensures
        0 <= equal_port_tile(a, b, p) < catalog_len(),
        tile_ok(catalog_entry(equal_port_tile(a, b, p)), a, b, Some(p)),
{
}

/// Wherever some tile at or after `j0` satisfies the constraints, the
/// first-match search finds one.
proof fn lemma_first_tile_finds(
    entry_from: Direction,
    exit: Direction,
    req: Option<PortSet>,
    j0: int,
    j: int,
)
    requires
        0 <= j0 <= j < catalog_len(),
        tile_ok(catalog_entry(j), entry_from, exit, req),
    ensures
        first_tile_from(entry_from, exit, req, j0) is Some,
    decreases catalog_len() - j0,
{
    if tile_ok(catalog_entry(j0), entry_from, exit, req) {
    } else {
        lemma_first_tile_finds(entry_from, exit, req, j0 + 1, j);
    }
}

/// The mapping fold never fails on the remainder of a well-formed path.
proof fn lemma_map_from_succeeds(
    path: Seq<Point>,
    g: GridSize,
    i: int,
    req: Option<PortSet>,
    acc: Seq<Seq<Option<CellDataV>>>,
)
    requires
        well_formed_path(path, g),
        0 <= i <= path.len(),
        1 <= i < path.len() ==> req is Some,
    ensures
        map_from(path, g, i, req, acc) is Some,
        map_from(path, g, i, req, acc).unwrap().1 == true,
    decreases path.len() - i,
{
    if i >= path.len() {
    } else {
        assert(i < path.len() - 1 ==> crate::geometry::spec_direction(path[i], path[i + 1])
            is Some);
        if 0 < i && i < path.len() - 1 {
            let en = crate::geometry::spec_direction(path[i - 1], path[i]).unwrap();
            let ex = crate::geometry::spec_direction(path[i], path[i + 1]).unwrap();
            let ef = crate::geometry::spec_opposite(en);
            lemma_direction_reverse(path[i - 1], path[i], en);
            if ef == ex {
                lemma_direction_injective(path[i], path[i - 1], path[i + 1], ex);
                assert(path[i - 1] == path[i + 1]);
                assert(false);
            }
            let p = req.unwrap();
            lemma_tile_exists(ef, ex, p);
            lemma_first_tile_finds(ef, ex, req, 0, equal_port_tile(ef, ex, p));
            assert(cell_for(path, i, req) is Some);
        }
        let co = cell_for(path, i, req);
        assert(co is Some);
        let (cd, nr) = co.unwrap();
        assert(in_bounds(path[i], g));
        let pr = path[i].row as int;
        let pc = path[i].col as int;
        let acc2 = acc.update(pr, acc[pr].update(pc, Some(cd)));
        assert(1 <= i + 1 < path.len() ==> nr is Some);
        lemma_map_from_succeeds(path, g, i + 1, nr, acc2);
    }
}

/// Success is owed: mapping a well-formed path never reports an error and
/// always yields a result marked valid.
pub proof fn lemma_map_path_succeeds(path: Seq<Point>, g: GridSize)
    requires
        well_formed_path(path, g),
    ensures
        spec_map_path(path, g) is Some,
        spec_map_path(path, g).unwrap().1 == true,
{
    lemma_map_from_succeeds(path, g, 0, None, empty_grid(g));
}

/// A Hamiltonian path across a grid of at least two cells is a
/// well-formed path, so the mapper is owed success on every route the
/// path finder reports.
pub proof fn lemma_hamiltonian_path_maps(path: Seq<Point>, g: GridSize, start: Point, end: Point)
    requires
        crate::pathfind::is_hamiltonian(path, g, start, end),
        crate::geometry::grid_total(g) >= 2,
    ensures
        well_formed_path(path, g),
        spec_map_path(path, g) is Some,
        spec_map_path(path, g).unwrap().1 == true,
{
    lemma_map_path_succeeds(path, g);
}

/// The mapping is a pure function of the path and the grid size: its
/// specification pins one result, so two results of mapping the same path
/// onto the same grid are identical.
pub proof fn lemma_map_path_deterministic(
    path: Seq<Point>,
    g: GridSize,
    r1: Option<(Seq<Seq<Option<CellDataV>>>, bool)>,
    r2: Option<(Seq<Seq<Option<CellDataV>>>, bool)>,
)
    requires
        r1 == spec_map_path(path, g),
        r2 == spec_map_path(path, g),
    ensures
        r1 == r2,
{
}

} // verus!
