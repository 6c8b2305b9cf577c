//! Grid geometry: points, grid bounds, movement directions, and cell parity.
use vstd::prelude::*;

verus! {

/// A point on the grid.
#[derive(Debug, Clone, Copy, PartialEq, Eq, Structural, Hash)]
pub struct Point {
    pub row: i32,
    pub col: i32,
}

impl Point {
    pub fn new(row: i32, col: i32) -> (p: Self)
        ensures
            p.row == row,
            p.col == col,
    {
        Self { row, col }
    }
}

/// Grid size specification: both dimensions are positive.
#[derive(Debug, Clone, Copy, PartialEq, Eq, Structural)]
pub struct GridSize {
    pub rows: i32,
    pub cols: i32,
}

/// A usable grid: positive dimensions whose cell count fits in `i32`.
pub open spec fn grid_ok(g: GridSize) -> bool {
    &&& g.rows >= 1
    &&& g.cols >= 1
    &&& g.rows * g.cols <= i32::MAX
}

/// The total number of cells in the grid.
pub open spec fn grid_total(g: GridSize) -> int {
    g.rows * g.cols
}

/// Whether a point lies inside the grid bounds.
pub open spec fn in_bounds(p: Point, g: GridSize) -> bool {
    &&& 0 <= p.row < g.rows
    &&& 0 <= p.col < g.cols
}

/// Direction of movement/connection.
#[derive(Debug, Clone, Copy, PartialEq, Eq, Structural, Hash)]
pub enum Direction {
    Up,
    Down,
    Left,
    Right,
}

/// The direction pointing the opposite way.
pub open spec fn spec_opposite(d: Direction) -> Direction {
    match d {
        Direction::Up => Direction::Down,
        Direction::Down => Direction::Up,
        Direction::Left => Direction::Right,
        Direction::Right => Direction::Left,
    }
}

/// The (row, col) displacement of one step in direction `d`.
pub open spec fn spec_delta(d: Direction) -> (int, int) {
    match d {
        Direction::Up => (-1, 0),
        Direction::Down => (1, 0),
        Direction::Left => (0, -1),
        Direction::Right => (0, 1),
    }
}

/// The direction from `from` to `to` when they are axis-aligned,
/// unit-distance neighbours, and nothing otherwise.
pub open spec fn spec_direction(from: Point, to: Point) -> Option<Direction> {
    let dr = to.row - from.row;
    let dc = to.col - from.col;
    if dr == -1 && dc == 0 {
        Some(Direction::Up)
    } else if dr == 1 && dc == 0 {
        Some(Direction::Down)
    } else if dr == 0 && dc == -1 {
        Some(Direction::Left)
    } else if dr == 0 && dc == 1 {
        Some(Direction::Right)
    } else {
        None
    }
}

/// Whether `from` and `to` are grid-adjacent (Manhattan distance exactly 1).
pub open spec fn adjacent(from: Point, to: Point) -> bool {
    spec_direction(from, to) is Some
}

impl Direction {
    pub fn opposite(&self) -> (r: Direction)
        ensures
            r == spec_opposite(*self),
    {
        match self {
            Direction::Up => Direction::Down,
            Direction::Down => Direction::Up,
            Direction::Left => Direction::Right,
            Direction::Right => Direction::Left,
        }
    }

    pub fn delta(&self) -> (r: (i32, i32))
        ensures
            (r.0 as int, r.1 as int) == spec_delta(*self),
    {
        match self {
            Direction::Up => (-1, 0),
            Direction::Down => (1, 0),
            Direction::Left => (0, -1),
            Direction::Right => (0, 1),
        }
    }

    pub fn to_string(&self) -> (r: &'static str)
        ensures
            *self == Direction::Up ==> r@ == "up"@,
            *self == Direction::Down ==> r@ == "down"@,
            *self == Direction::Left ==> r@ == "left"@,
            *self == Direction::Right ==> r@ == "right"@,
    {
        match self {
            Direction::Up => "up",
            Direction::Down => "down",
            Direction::Left => "left",
            Direction::Right => "right",
        }
    }

    /// The canonical enumeration order: Up, Right, Down, Left.
    pub fn all() -> (r: [Direction; 4])
        ensures
            r@ == dir_order(),
    {
        [Direction::Up, Direction::Right, Direction::Down, Direction::Left]
    }
}

/// The canonical direction enumeration order used for neighbour iteration.
pub open spec fn dir_order() -> Seq<Direction> {
    seq![Direction::Up, Direction::Right, Direction::Down, Direction::Left]
}

/// The checkerboard parity of a cell.
pub open spec fn spec_parity(row: int, col: int) -> int {
    (row + col) % 2
}

/// Get parity of a cell (0 or 1 based on row+col).
pub fn cell_parity(row: i32, col: i32) -> (r: i32)
    requires
        row >= 0,
        col >= 0,
        row + col <= i32::MAX,
    ensures
        r == spec_parity(row as int, col as int),
        r == 0 || r == 1,
{
    (row + col) % 2
}

/// Check if two cells have different parity.
pub fn has_different_parity(r1: i32, c1: i32, r2: i32, c2: i32) -> (r: bool)
    requires
        r1 >= 0,
        c1 >= 0,
        r2 >= 0,
        c2 >= 0,
        r1 + c1 <= i32::MAX,
        r2 + c2 <= i32::MAX,
    ensures
        r == (spec_parity(r1 as int, c1 as int) != spec_parity(r2 as int, c2 as int)),
        r == ((spec_parity(r1 as int, c1 as int) + spec_parity(r2 as int, c2 as int)) % 2 == 1),
{
    cell_parity(r1, c1) != cell_parity(r2, c2)
}

} // verus!
