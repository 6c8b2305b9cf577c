//! The fixed catalog of two-lane road tile shapes.
//!
//! Every tile connects exactly two of its four edges, each with one of the
//! two port sets, so the catalog holds 16 curve, 16 sharp and 8 straight
//! definitions: one for every combination of edges and port sets per shape.
use crate::geometry::Direction;
use vstd::prelude::*;

verus! {

/// Port set for 2-lane roads: which two of the three lane-port positions
/// are active on a tile edge.
#[derive(Debug, Clone, Copy, PartialEq, Eq, Structural, Hash)]
pub enum PortSet {
    P12,
    P23,
}

impl PortSet {
    pub fn to_string(&self) -> (r: &'static str)
        ensures
            *self == PortSet::P12 ==> r@ == "12"@,
            *self == PortSet::P23 ==> r@ == "23"@,
    {
        match self {
            PortSet::P12 => "12",
            PortSet::P23 => "23",
        }
    }
}

/// Tile variant type: the shape class of a tile.
#[derive(Debug, Clone, Copy, PartialEq, Eq, Structural)]
pub enum TileVariant {
    Curve,
    Sharp,
    Straight,
}

/// A catalog entry: an identifier, a shape variant, an 8-bit provenance
/// mask, and exactly two (edge, port set) connections.
#[derive(Debug, Clone, Copy)]
pub struct TileDefinition {
    pub id: &'static str,
    pub variant: TileVariant,
    pub mask: u8,
    pub conn1: (Direction, PortSet),
    pub conn2: (Direction, PortSet),
}

/// The port set a tile offers on edge `dir`, if it connects there.
pub open spec fn spec_get_connection(t: TileDefinition, dir: Direction) -> Option<PortSet> {
    if t.conn1.0 == dir {
        Some(t.conn1.1)
    } else if t.conn2.0 == dir {
        Some(t.conn2.1)
    } else {
        None
    }
}

impl TileDefinition {
    pub fn get_connection(&self, dir: Direction) -> (r: Option<PortSet>)
        ensures
            r == spec_get_connection(*self, dir),
    {
        if self.conn1.0 == dir {
            Some(self.conn1.1)
        } else if self.conn2.0 == dir {
            Some(self.conn2.1)
        } else {
            None
        }
    }

    pub fn has_direction(&self, dir: Direction) -> (r: bool)
        ensures
            r == (spec_get_connection(*self, dir) is Some),
    {
        self.conn1.0 == dir || self.conn2.0 == dir
    }
}

/// The number of entries in the tile catalog.
pub open spec fn catalog_len() -> int {
    40
}

/// The catalog entry at position `j`, in definition order: 16 curve tiles,
/// then 16 sharp tiles, then 8 straight tiles.
pub open spec fn catalog_entry(j: int) -> TileDefinition {
    if j == 0 {
        TileDefinition { id: "curve-05", variant: TileVariant::Curve, mask: 0x05, conn1: (Direction::Up, PortSet::P12), conn2: (Direction::Right, PortSet::P12) }
    } else if j == 1 {
        TileDefinition { id: "curve-06", variant: TileVariant::Curve, mask: 0x06, conn1: (Direction::Up, PortSet::P23), conn2: (Direction::Right, PortSet::P12) }
    } else if j == 2 {
        TileDefinition { id: "curve-09", variant: TileVariant::Curve, mask: 0x09, conn1: (Direction::Up, PortSet::P12), conn2: (Direction::Right, PortSet::P23) }
    } else if j == 3 {
        TileDefinition { id: "curve-0A", variant: TileVariant::Curve, mask: 0x0A, conn1: (Direction::Up, PortSet::P23), conn2: (Direction::Right, PortSet::P23) }
    } else if j == 4 {
        TileDefinition { id: "curve-14", variant: TileVariant::Curve, mask: 0x14, conn1: (Direction::Right, PortSet::P12), conn2: (Direction::Down, PortSet::P12) }
    } else if j == 5 {
        TileDefinition { id: "curve-18", variant: TileVariant::Curve, mask: 0x18, conn1: (Direction::Right, PortSet::P23), conn2: (Direction::Down, PortSet::P12) }
    } else if j == 6 {
        TileDefinition { id: "curve-24", variant: TileVariant::Curve, mask: 0x24, conn1: (Direction::Right, PortSet::P12), conn2: (Direction::Down, PortSet::P23) }
    } else if j == 7 {
        TileDefinition { id: "curve-28", variant: TileVariant::Curve, mask: 0x28, conn1: (Direction::Right, PortSet::P23), conn2: (Direction::Down, PortSet::P23) }
    } else if j == 8 {
        TileDefinition { id: "curve-41", variant: TileVariant::Curve, mask: 0x41, conn1: (Direction::Up, PortSet::P12), conn2: (Direction::Left, PortSet::P12) }
    } else if j == 9 {
        TileDefinition { id: "curve-42", variant: TileVariant::Curve, mask: 0x42, conn1: (Direction::Up, PortSet::P23), conn2: (Direction::Left, PortSet::P12) }
    } else if j == 10 {
        TileDefinition { id: "curve-50", variant: TileVariant::Curve, mask: 0x50, conn1: (Direction::Down, PortSet::P12), conn2: (Direction::Left, PortSet::P12) }
    } else if j == 11 {
        TileDefinition { id: "curve-60", variant: TileVariant::Curve, mask: 0x60, conn1: (Direction::Down, PortSet::P23), conn2: (Direction::Left, PortSet::P12) }
    } else if j == 12 {
        TileDefinition { id: "curve-81", variant: TileVariant::Curve, mask: 0x81, conn1: (Direction::Up, PortSet::P12), conn2: (Direction::Left, PortSet::P23) }
    } else if j == 13 {
        TileDefinition { id: "curve-82", variant: TileVariant::Curve, mask: 0x82, conn1: (Direction::Up, PortSet::P23), conn2: (Direction::Left, PortSet::P23) }
    } else if j == 14 {
        TileDefinition { id: "curve-90", variant: TileVariant::Curve, mask: 0x90, conn1: (Direction::Down, PortSet::P12), conn2: (Direction::Left, PortSet::P23) }
    } else if j == 15 {
        TileDefinition { id: "curve-A0", variant: TileVariant::Curve, mask: 0xA0, conn1: (Direction::Down, PortSet::P23), conn2: (Direction::Left, PortSet::P23) }
    } else if j == 16 {
        TileDefinition { id: "sharp-05", variant: TileVariant::Sharp, mask: 0x05, conn1: (Direction::Up, PortSet::P12), conn2: (Direction::Right, PortSet::P12) }
    } else if j == 17 {
        TileDefinition { id: "sharp-06", variant: TileVariant::Sharp, mask: 0x06, conn1: (Direction::Up, PortSet::P23), conn2: (Direction::Right, PortSet::P12) }
    } else if j == 18 {
        TileDefinition { id: "sharp-09", variant: TileVariant::Sharp, mask: 0x09, conn1: (Direction::Up, PortSet::P12), conn2: (Direction::Right, PortSet::P23) }
    } else if j == 19 {
        TileDefinition { id: "sharp-0A", variant: TileVariant::Sharp, mask: 0x0A, conn1: (Direction::Up, PortSet::P23), conn2: (Direction::Right, PortSet::P23) }
    } else if j == 20 {
        TileDefinition { id: "sharp-14", variant: TileVariant::Sharp, mask: 0x14, conn1: (Direction::Right, PortSet::P12), conn2: (Direction::Down, PortSet::P12) }
    } else if j == 21 {
        TileDefinition { id: "sharp-18", variant: TileVariant::Sharp, mask: 0x18, conn1: (Direction::Right, PortSet::P23), conn2: (Direction::Down, PortSet::P12) }
    } else if j == 22 {
        TileDefinition { id: "sharp-24", variant: TileVariant::Sharp, mask: 0x24, conn1: (Direction::Right, PortSet::P12), conn2: (Direction::Down, PortSet::P23) }
    } else if j == 23 {
        TileDefinition { id: "sharp-28", variant: TileVariant::Sharp, mask: 0x28, conn1: (Direction::Right, PortSet::P23), conn2: (Direction::Down, PortSet::P23) }
    } else if j == 24 {
        TileDefinition { id: "sharp-41", variant: TileVariant::Sharp, mask: 0x41, conn1: (Direction::Up, PortSet::P12), conn2: (Direction::Left, PortSet::P12) }
    } else if j == 25 {
        TileDefinition { id: "sharp-42", variant: TileVariant::Sharp, mask: 0x42, conn1: (Direction::Up, PortSet::P23), conn2: (Direction::Left, PortSet::P12) }
    } else if j == 26 {
        TileDefinition { id: "sharp-50", variant: TileVariant::Sharp, mask: 0x50, conn1: (Direction::Down, PortSet::P12), conn2: (Direction::Left, PortSet::P12) }
    } else if j == 27 {
        TileDefinition { id: "sharp-60", variant: TileVariant::Sharp, mask: 0x60, conn1: (Direction::Down, PortSet::P23), conn2: (Direction::Left, PortSet::P12) }
    } else if j == 28 {
        TileDefinition { id: "sharp-81", variant: TileVariant::Sharp, mask: 0x81, conn1: (Direction::Up, PortSet::P12), conn2: (Direction::Left, PortSet::P23) }
    } else if j == 29 {
        TileDefinition { id: "sharp-82", variant: TileVariant::Sharp, mask: 0x82, conn1: (Direction::Up, PortSet::P23), conn2: (Direction::Left, PortSet::P23) }
    } else if j == 30 {
        TileDefinition { id: "sharp-90", variant: TileVariant::Sharp, mask: 0x90, conn1: (Direction::Down, PortSet::P12), conn2: (Direction::Left, PortSet::P23) }
    } else if j == 31 {
        TileDefinition { id: "sharp-A0", variant: TileVariant::Sharp, mask: 0xA0, conn1: (Direction::Down, PortSet::P23), conn2: (Direction::Left, PortSet::P23) }
    } else if j == 32 {
        TileDefinition { id: "straight-v-11", variant: TileVariant::Straight, mask: 0x11, conn1: (Direction::Up, PortSet::P12), conn2: (Direction::Down, PortSet::P12) }
    } else if j == 33 {
        TileDefinition { id: "straight-v-12", variant: TileVariant::Straight, mask: 0x12, conn1: (Direction::Up, PortSet::P12), conn2: (Direction::Down, PortSet::P23) }
    } else if j == 34 {
        TileDefinition { id: "straight-v-21", variant: TileVariant::Straight, mask: 0x21, conn1: (Direction::Up, PortSet::P23), conn2: (Direction::Down, PortSet::P12) }
    } else if j == 35 {
        TileDefinition { id: "straight-v-22", variant: TileVariant::Straight, mask: 0x22, conn1: (Direction::Up, PortSet::P23), conn2: (Direction::Down, PortSet::P23) }
    } else if j == 36 {
        TileDefinition { id: "straight-h-44", variant: TileVariant::Straight, mask: 0x44, conn1: (Direction::Left, PortSet::P12), conn2: (Direction::Right, PortSet::P12) }
    } else if j == 37 {
        TileDefinition { id: "straight-h-48", variant: TileVariant::Straight, mask: 0x48, conn1: (Direction::Left, PortSet::P12), conn2: (Direction::Right, PortSet::P23) }
    } else if j == 38 {
        TileDefinition { id: "straight-h-84", variant: TileVariant::Straight, mask: 0x84, conn1: (Direction::Left, PortSet::P23), conn2: (Direction::Right, PortSet::P12) }
    } else if j == 39 {
        TileDefinition { id: "straight-h-88", variant: TileVariant::Straight, mask: 0x88, conn1: (Direction::Left, PortSet::P23), conn2: (Direction::Right, PortSet::P23) }
    } else {
        TileDefinition { id: "straight-h-88", variant: TileVariant::Straight, mask: 0x88, conn1: (Direction::Left, PortSet::P23), conn2: (Direction::Right, PortSet::P23) }
    }
}

/// The full tile catalog in definition order.
pub open spec fn catalog() -> Seq<TileDefinition> {
    Seq::new(catalog_len() as nat, |j: int| catalog_entry(j))
}

fn tile_at(j: usize) -> (t: TileDefinition)
    requires
        j < catalog_len(),
    ensures
        t == catalog_entry(j as int),
{
    if j == 0 {
        TileDefinition { id: "curve-05", variant: TileVariant::Curve, mask: 0x05, conn1: (Direction::Up, PortSet::P12), conn2: (Direction::Right, PortSet::P12) }
    } else if j == 1 {
        TileDefinition { id: "curve-06", variant: TileVariant::Curve, mask: 0x06, conn1: (Direction::Up, PortSet::P23), conn2: (Direction::Right, PortSet::P12) }
    } else if j == 2 {
        TileDefinition { id: "curve-09", variant: TileVariant::Curve, mask: 0x09, conn1: (Direction::Up, PortSet::P12), conn2: (Direction::Right, PortSet::P23) }
    } else if j == 3 {
        TileDefinition { id: "curve-0A", variant: TileVariant::Curve, mask: 0x0A, conn1: (Direction::Up, PortSet::P23), conn2: (Direction::Right, PortSet::P23) }
    } else if j == 4 {
        TileDefinition { id: "curve-14", variant: TileVariant::Curve, mask: 0x14, conn1: (Direction::Right, PortSet::P12), conn2: (Direction::Down, PortSet::P12) }
    } else if j == 5 {
        TileDefinition { id: "curve-18", variant: TileVariant::Curve, mask: 0x18, conn1: (Direction::Right, PortSet::P23), conn2: (Direction::Down, PortSet::P12) }
    } else if j == 6 {
        TileDefinition { id: "curve-24", variant: TileVariant::Curve, mask: 0x24, conn1: (Direction::Right, PortSet::P12), conn2: (Direction::Down, PortSet::P23) }
    } else if j == 7 {
        TileDefinition { id: "curve-28", variant: TileVariant::Curve, mask: 0x28, conn1: (Direction::Right, PortSet::P23), conn2: (Direction::Down, PortSet::P23) }
    } else if j == 8 {
        TileDefinition { id: "curve-41", variant: TileVariant::Curve, mask: 0x41, conn1: (Direction::Up, PortSet::P12), conn2: (Direction::Left, PortSet::P12) }
    } else if j == 9 {
        TileDefinition { id: "curve-42", variant: TileVariant::Curve, mask: 0x42, conn1: (Direction::Up, PortSet::P23), conn2: (Direction::Left, PortSet::P12) }
    } else if j == 10 {
        TileDefinition { id: "curve-50", variant: TileVariant::Curve, mask: 0x50, conn1: (Direction::Down, PortSet::P12), conn2: (Direction::Left, PortSet::P12) }
    } else if j == 11 {
        TileDefinition { id: "curve-60", variant: TileVariant::Curve, mask: 0x60, conn1: (Direction::Down, PortSet::P23), conn2: (Direction::Left, PortSet::P12) }
    } else if j == 12 {
        TileDefinition { id: "curve-81", variant: TileVariant::Curve, mask: 0x81, conn1: (Direction::Up, PortSet::P12), conn2: (Direction::Left, PortSet::P23) }
    } else if j == 13 {
        TileDefinition { id: "curve-82", variant: TileVariant::Curve, mask: 0x82, conn1: (Direction::Up, PortSet::P23), conn2: (Direction::Left, PortSet::P23) }
    } else if j == 14 {
        TileDefinition { id: "curve-90", variant: TileVariant::Curve, mask: 0x90, conn1: (Direction::Down, PortSet::P12), conn2: (Direction::Left, PortSet::P23) }
    } else if j == 15 {
        TileDefinition { id: "curve-A0", variant: TileVariant::Curve, mask: 0xA0, conn1: (Direction::Down, PortSet::P23), conn2: (Direction::Left, PortSet::P23) }
    } else if j == 16 {
        TileDefinition { id: "sharp-05", variant: TileVariant::Sharp, mask: 0x05, conn1: (Direction::Up, PortSet::P12), conn2: (Direction::Right, PortSet::P12) }
    } else if j == 17 {
        TileDefinition { id: "sharp-06", variant: TileVariant::Sharp, mask: 0x06, conn1: (Direction::Up, PortSet::P23), conn2: (Direction::Right, PortSet::P12) }
    } else if j == 18 {
        TileDefinition { id: "sharp-09", variant: TileVariant::Sharp, mask: 0x09, conn1: (Direction::Up, PortSet::P12), conn2: (Direction::Right, PortSet::P23) }
    } else if j == 19 {
        TileDefinition { id: "sharp-0A", variant: TileVariant::Sharp, mask: 0x0A, conn1: (Direction::Up, PortSet::P23), conn2: (Direction::Right, PortSet::P23) }
    } else if j == 20 {
        TileDefinition { id: "sharp-14", variant: TileVariant::Sharp, mask: 0x14, conn1: (Direction::Right, PortSet::P12), conn2: (Direction::Down, PortSet::P12) }
    } else if j == 21 {
        TileDefinition { id: "sharp-18", variant: TileVariant::Sharp, mask: 0x18, conn1: (Direction::Right, PortSet::P23), conn2: (Direction::Down, PortSet::P12) }
    } else if j == 22 {
        TileDefinition { id: "sharp-24", variant: TileVariant::Sharp, mask: 0x24, conn1: (Direction::Right, PortSet::P12), conn2: (Direction::Down, PortSet::P23) }
    } else if j == 23 {
        TileDefinition { id: "sharp-28", variant: TileVariant::Sharp, mask: 0x28, conn1: (Direction::Right, PortSet::P23), conn2: (Direction::Down, PortSet::P23) }
    } else if j == 24 {
        TileDefinition { id: "sharp-41", variant: TileVariant::Sharp, mask: 0x41, conn1: (Direction::Up, PortSet::P12), conn2: (Direction::Left, PortSet::P12) }
    } else if j == 25 {
        TileDefinition { id: "sharp-42", variant: TileVariant::Sharp, mask: 0x42, conn1: (Direction::Up, PortSet::P23), conn2: (Direction::Left, PortSet::P12) }
    } else if j == 26 {
        TileDefinition { id: "sharp-50", variant: TileVariant::Sharp, mask: 0x50, conn1: (Direction::Down, PortSet::P12), conn2: (Direction::Left, PortSet::P12) }
    } else if j == 27 {
        TileDefinition { id: "sharp-60", variant: TileVariant::Sharp, mask: 0x60, conn1: (Direction::Down, PortSet::P23), conn2: (Direction::Left, PortSet::P12) }
    } else if j == 28 {
        TileDefinition { id: "sharp-81", variant: TileVariant::Sharp, mask: 0x81, conn1: (Direction::Up, PortSet::P12), conn2: (Direction::Left, PortSet::P23) }
    } else if j == 29 {
        TileDefinition { id: "sharp-82", variant: TileVariant::Sharp, mask: 0x82, conn1: (Direction::Up, PortSet::P23), conn2: (Direction::Left, PortSet::P23) }
    } else if j == 30 {
        TileDefinition { id: "sharp-90", variant: TileVariant::Sharp, mask: 0x90, conn1: (Direction::Down, PortSet::P12), conn2: (Direction::Left, PortSet::P23) }
    } else if j == 31 {
        TileDefinition { id: "sharp-A0", variant: TileVariant::Sharp, mask: 0xA0, conn1: (Direction::Down, PortSet::P23), conn2: (Direction::Left, PortSet::P23) }
    } else if j == 32 {
        TileDefinition { id: "straight-v-11", variant: TileVariant::Straight, mask: 0x11, conn1: (Direction::Up, PortSet::P12), conn2: (Direction::Down, PortSet::P12) }
    } else if j == 33 {
        TileDefinition { id: "straight-v-12", variant: TileVariant::Straight, mask: 0x12, conn1: (Direction::Up, PortSet::P12), conn2: (Direction::Down, PortSet::P23) }
    } else if j == 34 {
        TileDefinition { id: "straight-v-21", variant: TileVariant::Straight, mask: 0x21, conn1: (Direction::Up, PortSet::P23), conn2: (Direction::Down, PortSet::P12) }
    } else if j == 35 {
        TileDefinition { id: "straight-v-22", variant: TileVariant::Straight, mask: 0x22, conn1: (Direction::Up, PortSet::P23), conn2: (Direction::Down, PortSet::P23) }
    } else if j == 36 {
        TileDefinition { id: "straight-h-44", variant: TileVariant::Straight, mask: 0x44, conn1: (Direction::Left, PortSet::P12), conn2: (Direction::Right, PortSet::P12) }
    } else if j == 37 {
        TileDefinition { id: "straight-h-48", variant: TileVariant::Straight, mask: 0x48, conn1: (Direction::Left, PortSet::P12), conn2: (Direction::Right, PortSet::P23) }
    } else if j == 38 {
        TileDefinition { id: "straight-h-84", variant: TileVariant::Straight, mask: 0x84, conn1: (Direction::Left, PortSet::P23), conn2: (Direction::Right, PortSet::P12) }
    } else if j == 39 {
        TileDefinition { id: "straight-h-88", variant: TileVariant::Straight, mask: 0x88, conn1: (Direction::Left, PortSet::P23), conn2: (Direction::Right, PortSet::P23) }
    } else {
        TileDefinition { id: "straight-h-88", variant: TileVariant::Straight, mask: 0x88, conn1: (Direction::Left, PortSet::P23), conn2: (Direction::Right, PortSet::P23) }
    }
}

/// Get all tile definitions, in catalog definition order.
pub fn get_all_tiles() -> (r: Vec<TileDefinition>)
    ensures
        r@ == catalog(),
        r@.len() == catalog_len(),
{
    let mut v: Vec<TileDefinition> = Vec::new();
    for j in 0..40usize
        invariant
            v@.len() == j,
            forall|k: int| 0 <= k < j ==> v@[k] == catalog_entry(k),
    {
        v.push(tile_at(j));
    }
    proof {
        assert(v@ =~= catalog());
    }
    v
}

/// The tile catalog holds exactly 40 definitions: the 16 curve shapes
/// first, then the 16 sharp shapes, then the 8 straight shapes, and every
/// definition connects exactly two distinct edges.
pub proof fn lemma_catalog_shape()
    ensures
        catalog().len() == 40,
        forall|j: int| 0 <= j < 16 ==> catalog()[j].variant == TileVariant::Curve,
        forall|j: int| 16 <= j < 32 ==> catalog()[j].variant == TileVariant::Sharp,
        forall|j: int| 32 <= j < 40 ==> catalog()[j].variant == TileVariant::Straight,
        forall|j: int| 0 <= j < 40 ==> catalog()[j].conn1.0 != catalog()[j].conn2.0,
{
}

/// Whether a tile connects on both given edges with the given port sets.
pub open spec fn tile_matches(
    t: TileDefinition,
    from_dir: Direction,
    from_ports: PortSet,
    to_dir: Direction,
    to_ports: PortSet,
) -> bool {
    &&& spec_get_connection(t, crate::geometry::spec_opposite(from_dir)) == Some(from_ports)
    &&& spec_get_connection(t, to_dir) == Some(to_ports)
}

/// The subsequence of `tiles[i..]` whose entries match, in order.
pub open spec fn matching_from(
    tiles: Seq<TileDefinition>,
    from_dir: Direction,
    from_ports: PortSet,
    to_dir: Direction,
    to_ports: PortSet,
    i: int,
) -> Seq<TileDefinition>
    decreases tiles.len() - i,
{
    if i < 0 || i >= tiles.len() {
        Seq::empty()
    } else {
        let rest = matching_from(tiles, from_dir, from_ports, to_dir, to_ports, i + 1);
        if tile_matches(tiles[i], from_dir, from_ports, to_dir, to_ports) {
            seq![tiles[i]] + rest
        } else {
            rest
        }
    }
}

/// Find all tiles that connect in the given directions with the given
/// ports, in catalog order.
pub fn find_matching_tiles<'a>(
    from_dir: Direction,
    from_ports: PortSet,
    to_dir: Direction,
    to_ports: PortSet,
    tiles: &'a [TileDefinition],
) -> (r: Vec<&'a TileDefinition>)
    ensures
        seq_of_refs(r@) == matching_from(tiles@, from_dir, from_ports, to_dir, to_ports, 0),
{
    let ghost full = matching_from(tiles@, from_dir, from_ports, to_dir, to_ports, 0);
    let mut r: Vec<&'a TileDefinition> = Vec::new();
    let from_edge = from_dir.opposite();
    for i in 0..tiles.len()
        invariant
            from_edge == crate::geometry::spec_opposite(from_dir),
            full =~= seq_of_refs(r@) + matching_from(
                tiles@,
                from_dir,
                from_ports,
                to_dir,
                to_ports,
                i as int,
            ),
    {
        let tile = &tiles[i];
        let ep = tile.get_connection(from_edge);
        let xp = tile.get_connection(to_dir);
        let ep_ok = match ep {
            Some(p) => p == from_ports,
            None => false,
        };
        let xp_ok = match xp {
            Some(p) => p == to_ports,
            None => false,
        };
        let ghost prev = r@;
        if ep_ok && xp_ok {
            r.push(tile);
            proof {
                assert(seq_of_refs(r@) =~= seq_of_refs(prev).push(tiles@[i as int]));
            }
        }
        proof {
            assert(full =~= seq_of_refs(r@) + matching_from(
                tiles@,
                from_dir,
                from_ports,
                to_dir,
                to_ports,
                i + 1,
            ));
        }
    }
    r
}

/// The sequence of values behind a sequence of references.
pub open spec fn seq_of_refs(s: Seq<&TileDefinition>) -> Seq<TileDefinition> {
    s.map_values(|t: &TileDefinition| *t)
}

} // verus!
