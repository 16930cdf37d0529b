//! One level of a container, kept as the raw bytes of its lumps. Records
//! are decoded from them on demand.

use crate::buffer::{bytes_as_slice, bytes_len, bytes_new, bytes_of};
use crate::map_items::{
    node_of, seg_at, seg_decodable, sector_of, sidedef_of, linedef_decodable, linedef_of,
    vertex_at, BspNode, BspNodeView, LineDef, Sector, Seg, SideDef, Vertex, LINEDEF_SIZE,
    NODE_SIZE, SECTOR_SIZE, SEG_SIZE, SIDEDEF_SIZE, SSECTOR_SIZE, THING_SIZE, VERTEX_SIZE,
};
use crate::names::str_eq;
use crate::things::{thing_of, Thing};
use crate::utils::{checked_slice, has_record, record, u16_at, u16_field};
use bytes::Bytes;
use vstd::prelude::*;

verus! {

/// The lumps that make up a level.
#[derive(Debug, Clone, Copy, PartialEq, Eq, Structural)]
pub enum MapLump {
    Things,
    LineDefs,
    SideDefs,
    Vertexes,
    Segs,
    SSectors,
    Nodes,
    Sectors,
    Reject,
    Blockmap,
}

/// The level lump that a name announces, if it is one.
pub open spec fn map_lump_of(name: Seq<char>) -> Option<MapLump> {
    if name == "VERTEXES"@ {
        Some(MapLump::Vertexes)
    } else if name == "LINEDEFS"@ {
        Some(MapLump::LineDefs)
    } else if name == "THINGS"@ {
        Some(MapLump::Things)
    } else if name == "SIDEDEFS"@ {
        Some(MapLump::SideDefs)
    } else if name == "SEGS"@ {
        Some(MapLump::Segs)
    } else if name == "SSECTORS"@ {
        Some(MapLump::SSectors)
    } else if name == "NODES"@ {
        Some(MapLump::Nodes)
    } else if name == "SECTORS"@ {
        Some(MapLump::Sectors)
    } else if name == "REJECT"@ {
        Some(MapLump::Reject)
    } else if name == "BLOCKMAP"@ {
        Some(MapLump::Blockmap)
    } else {
        None
    }
}

impl MapLump {
    /// Recognises the name of a level lump.
    pub fn from_name(name: &str) -> (r: Option<MapLump>)
        ensures
            r == map_lump_of(name@),
    {
        if str_eq(name, "VERTEXES") {
            Some(MapLump::Vertexes)
        } else if str_eq(name, "LINEDEFS") {
            Some(MapLump::LineDefs)
        } else if str_eq(name, "THINGS") {
            Some(MapLump::Things)
        } else if str_eq(name, "SIDEDEFS") {
            Some(MapLump::SideDefs)
        } else if str_eq(name, "SEGS") {
            Some(MapLump::Segs)
        } else if str_eq(name, "SSECTORS") {
            Some(MapLump::SSectors)
        } else if str_eq(name, "NODES") {
            Some(MapLump::Nodes)
        } else if str_eq(name, "SECTORS") {
            Some(MapLump::Sectors)
        } else if str_eq(name, "REJECT") {
            Some(MapLump::Reject)
        } else if str_eq(name, "BLOCKMAP") {
            Some(MapLump::Blockmap)
        } else {
            None
        }
    }
}

/// One coordinate of the `idx`-th vertex of a vertex lump.
pub open spec fn coord(lump: Seq<u8>, idx: int, y: bool) -> int {
    if y {
        vertex_at(lump, idx).y as int
    } else {
        vertex_at(lump, idx).x as int
    }
}

/// The least (or, with `max`, the greatest) of one coordinate over the
/// first `n` vertices of a vertex lump.
pub open spec fn extreme(lump: Seq<u8>, n: int, y: bool, max: bool) -> int
    decreases n,
{
    if n <= 1 {
        coord(lump, 0, y)
    } else {
        let rest = extreme(lump, n - 1, y, max);
        let last = coord(lump, n - 1, y);
        if max {
            if last > rest {
                last
            } else {
                rest
            }
        } else {
            if last < rest {
                last
            } else {
                rest
            }
        }
    }
}

/// The corners of the smallest axis-aligned box around all vertices of a
/// vertex lump: lower left, then upper right.
pub open spec fn bounds_of(lump: Seq<u8>) -> (Vertex, Vertex) {
    let n = lump.len() as int / VERTEX_SIZE as int;
    (
        Vertex { x: extreme(lump, n, false, false) as i32, y: extreme(lump, n, true, false) as i32 },
        Vertex { x: extreme(lump, n, false, true) as i32, y: extreme(lump, n, true, true) as i32 },
    )
}

/// The extreme of a coordinate bounds every vertex counted and is the
/// coordinate of one of them.
pub proof fn lemma_extreme(lump: Seq<u8>, n: int, y: bool, max: bool)
    requires
        n >= 1,
    ensures
        forall|i: int|
            0 <= i < n ==> if max {
                #[trigger] coord(lump, i, y) <= extreme(lump, n, y, max)
            } else {
                coord(lump, i, y) >= extreme(lump, n, y, max)
            },
        exists|i: int| 0 <= i < n && #[trigger] coord(lump, i, y) == extreme(lump, n, y, max),
    decreases n,
{
    if n > 1 {
        lemma_extreme(lump, n - 1, y, max);
        let w = choose|i: int|
            0 <= i < n - 1 && #[trigger] coord(lump, i, y) == extreme(lump, n - 1, y, max);
        if extreme(lump, n, y, max) == extreme(lump, n - 1, y, max) {
            assert(coord(lump, w, y) == extreme(lump, n, y, max));
        } else {
            assert(coord(lump, n - 1, y) == extreme(lump, n, y, max));
        }
    } else {
        assert(coord(lump, 0, y) == extreme(lump, n, y, max));
    }
}

/// The contents of a level store.
pub ghost struct MapDataView {
    pub name: Seq<char>,
    pub things: Seq<u8>,
    pub linedefs: Seq<u8>,
    pub sidedefs: Seq<u8>,
    pub vertexes: Seq<u8>,
    pub segs: Seq<u8>,
    pub ssectors: Seq<u8>,
    pub nodes: Seq<u8>,
    pub sectors: Seq<u8>,
    pub reject: Seq<u8>,
    pub blockmap: Seq<u8>,
    pub bound_min: Vertex,
    pub bound_max: Vertex,
}

/// Whether bit `bit` of a bit-packed table is set; bit 0 is the lowest
/// bit of the first byte.
pub open spec fn table_bit(table: Seq<u8>, bit: int) -> bool {
    (table[bit / 8] & (1u8 << ((bit % 8) as u8))) != 0
}

impl MapDataView {
    /// A level of the given name with no lump yet.
    pub open spec fn empty(name: Seq<char>) -> MapDataView {
        MapDataView {
            name,
            things: Seq::empty(),
            linedefs: Seq::empty(),
            sidedefs: Seq::empty(),
            vertexes: Seq::empty(),
            segs: Seq::empty(),
            ssectors: Seq::empty(),
            nodes: Seq::empty(),
            sectors: Seq::empty(),
            reject: Seq::empty(),
            blockmap: Seq::empty(),
            bound_min: Vertex { x: 0, y: 0 },
            bound_max: Vertex { x: 0, y: 0 },
        }
    }

    /// The bytes of one of the level's lumps.
    pub open spec fn lump(self, which: MapLump) -> Seq<u8> {
        match which {
            MapLump::Things => self.things,
            MapLump::LineDefs => self.linedefs,
            MapLump::SideDefs => self.sidedefs,
            MapLump::Vertexes => self.vertexes,
            MapLump::Segs => self.segs,
            MapLump::SSectors => self.ssectors,
            MapLump::Nodes => self.nodes,
            MapLump::Sectors => self.sectors,
            MapLump::Reject => self.reject,
            MapLump::Blockmap => self.blockmap,
        }
    }

    /// Every lump of the level holds at least one byte.
    pub open spec fn is_complete(self) -> bool {
        &&& self.things.len() > 0
        &&& self.linedefs.len() > 0
        &&& self.sidedefs.len() > 0
        &&& self.vertexes.len() > 0
        &&& self.segs.len() > 0
        &&& self.ssectors.len() > 0
        &&& self.nodes.len() > 0
        &&& self.sectors.len() > 0
        &&& self.reject.len() > 0
        &&& self.blockmap.len() > 0
    }

    /// The level after `bytes` became its lump `which`. A new vertex lump
    /// brings a new bounding box.
    pub open spec fn with_lump(self, which: MapLump, bytes: Seq<u8>) -> MapDataView {
        match which {
            MapLump::Things => MapDataView { things: bytes, ..self },
            MapLump::LineDefs => MapDataView { linedefs: bytes, ..self },
            MapLump::SideDefs => MapDataView { sidedefs: bytes, ..self },
            MapLump::Vertexes => MapDataView {
                vertexes: bytes,
                bound_min: bounds_of(bytes).0,
                bound_max: bounds_of(bytes).1,
                ..self
            },
            MapLump::Segs => MapDataView { segs: bytes, ..self },
            MapLump::SSectors => MapDataView { ssectors: bytes, ..self },
            MapLump::Nodes => MapDataView { nodes: bytes, ..self },
            MapLump::Sectors => MapDataView { sectors: bytes, ..self },
            MapLump::Reject => MapDataView { reject: bytes, ..self },
            MapLump::Blockmap => MapDataView { blockmap: bytes, ..self },
        }
    }

    /// The level after a lump of the given name was offered to it: taken
    /// when the name is that of a level lump, else left as it was.
    pub open spec fn offer(self, name: Seq<char>, bytes: Seq<u8>) -> MapDataView {
        match map_lump_of(name) {
            Some(which) => self.with_lump(which, bytes),
            None => self,
        }
    }

    /// There is no vertex lump yet, or it holds a vertex and the bounding
    /// box is its own.
    pub open spec fn bounds_agree(self) -> bool {
        self.vertexes.len() == 0 || (self.vertexes.len() >= VERTEX_SIZE && (
            self.bound_min,
            self.bound_max,
        ) == bounds_of(self.vertexes))
    }

    pub open spec fn vertex_count(self) -> int {
        self.vertexes.len() as int / VERTEX_SIZE as int
    }

    pub open spec fn thing_count(self) -> int {
        self.things.len() as int / THING_SIZE as int
    }

    pub open spec fn linedef_count(self) -> int {
        self.linedefs.len() as int / LINEDEF_SIZE as int
    }

    pub open spec fn seg_count(self) -> int {
        self.segs.len() as int / SEG_SIZE as int
    }

    pub open spec fn node_count(self) -> int {
        self.nodes.len() as int / NODE_SIZE as int
    }

    pub open spec fn sector_count(self) -> int {
        self.sectors.len() as int / SECTOR_SIZE as int
    }

    /// The `idx`-th partition node.
    pub open spec fn node(self, idx: int) -> BspNodeView {
        node_of(record(self.nodes, idx, NODE_SIZE as int))
    }

    /// Number of segs of the `idx`-th sub-sector.
    pub open spec fn sub_sector_len(self, idx: int) -> int {
        u16_at(record(self.ssectors, idx, SSECTOR_SIZE as int), 0)
    }

    /// Index of the first seg of the `idx`-th sub-sector.
    pub open spec fn sub_sector_first(self, idx: int) -> int {
        u16_at(record(self.ssectors, idx, SSECTOR_SIZE as int), 2)
    }

    /// Whether the `idx`-th sub-sector exists and each of its segs can be decoded.
    pub open spec fn sub_sector_decodable(self, idx: int) -> bool {
        &&& has_record(self.ssectors, idx, SSECTOR_SIZE as int)
        &&& forall|i: int|
            0 <= i < self.sub_sector_len(idx) ==> #[trigger] seg_decodable(
                self.segs,
                self.sub_sector_first(idx) + i,
                self.vertexes,
            )
    }

    /// The segs of the `idx`-th sub-sector, in the order of the seg lump.
    pub open spec fn sub_sector(self, idx: int) -> Seq<Seg> {
        Seq::new(
            self.sub_sector_len(idx) as nat,
            |i: int| seg_at(self.segs, self.sub_sector_first(idx) + i, self.vertexes),
        )
    }

    /// Index of the bit of the reject table for a monster's and a player's sector.
    pub open spec fn reject_bit(self, player_sect_idx: u16, monster_sect_idx: u16) -> int {
        monster_sect_idx * self.sector_count() + player_sect_idx
    }

    /// The reject table does not rule out sight between the two sectors:
    /// their bit is clear.
    pub open spec fn line_of_sight(self, player_sect_idx: u16, monster_sect_idx: u16) -> bool {
        !table_bit(self.reject, self.reject_bit(player_sect_idx, monster_sect_idx))
    }
}

/// A level that lacks any one of its lumps is not complete, whatever
/// the others hold.
pub proof fn lemma_missing_lump_is_incomplete(map: MapDataView, which: MapLump)
    requires
        map.lump(which).len() == 0,
    ensures
        !map.is_complete(),
{
}

/// A level is complete exactly when each of its lumps holds a byte.
pub proof fn lemma_complete_iff_every_lump(map: MapDataView)
    ensures
        map.is_complete() <==> forall|which: MapLump| #[trigger] map.lump(which).len() > 0,
{
    if forall|which: MapLump| #[trigger] map.lump(which).len() > 0 {
        assert(map.lump(MapLump::Things).len() > 0);
        assert(map.lump(MapLump::LineDefs).len() > 0);
        assert(map.lump(MapLump::SideDefs).len() > 0);
        assert(map.lump(MapLump::Vertexes).len() > 0);
        assert(map.lump(MapLump::Segs).len() > 0);
        assert(map.lump(MapLump::SSectors).len() > 0);
        assert(map.lump(MapLump::Nodes).len() > 0);
        assert(map.lump(MapLump::Sectors).len() > 0);
        assert(map.lump(MapLump::Reject).len() > 0);
        assert(map.lump(MapLump::Blockmap).len() > 0);
    }
}

/// A lump that was taken is the lump that the level holds under that
/// name, and no other lump changed.
pub proof fn lemma_with_lump(map: MapDataView, which: MapLump, bytes: Seq<u8>, other: MapLump)
    ensures
        map.with_lump(which, bytes).lump(which) == bytes,
        other != which ==> map.with_lump(which, bytes).lump(other) == map.lump(other),
        map.with_lump(which, bytes).name == map.name,
{
}

/// The bounding box of a vertex lump contains every vertex of the lump,
/// and each of its four sides touches one.
pub proof fn lemma_bounds_are_tight(lump: Seq<u8>, i: int)
    requires
        lump.len() >= VERTEX_SIZE,
        0 <= i < lump.len() as int / VERTEX_SIZE as int,
    ensures
        bounds_of(lump).0.x <= vertex_at(lump, i).x <= bounds_of(lump).1.x,
        bounds_of(lump).0.y <= vertex_at(lump, i).y <= bounds_of(lump).1.y,
        exists|k: int|
            0 <= k < lump.len() as int / VERTEX_SIZE as int && #[trigger] coord(lump, k, false)
                == bounds_of(lump).0.x,
        exists|k: int|
            0 <= k < lump.len() as int / VERTEX_SIZE as int && #[trigger] coord(lump, k, true)
                == bounds_of(lump).0.y,
        exists|k: int|
            0 <= k < lump.len() as int / VERTEX_SIZE as int && #[trigger] coord(lump, k, false)
                == bounds_of(lump).1.x,
        exists|k: int|
            0 <= k < lump.len() as int / VERTEX_SIZE as int && #[trigger] coord(lump, k, true)
                == bounds_of(lump).1.y,
{
    let n = lump.len() as int / VERTEX_SIZE as int;
    lemma_extreme(lump, n, false, false);
    lemma_extreme(lump, n, true, false);
    lemma_extreme(lump, n, false, true);
    lemma_extreme(lump, n, true, true);
    assert(coord(lump, i, false) == vertex_at(lump, i).x);
    assert(coord(lump, i, true) == vertex_at(lump, i).y);
    let k0 = choose|k: int| 0 <= k < n && #[trigger] coord(lump, k, false) == extreme(lump, n, false, false);
    let k1 = choose|k: int| 0 <= k < n && #[trigger] coord(lump, k, true) == extreme(lump, n, true, false);
    let k2 = choose|k: int| 0 <= k < n && #[trigger] coord(lump, k, false) == extreme(lump, n, false, true);
    let k3 = choose|k: int| 0 <= k < n && #[trigger] coord(lump, k, true) == extreme(lump, n, true, true);
    assert(-32768 <= coord(lump, k0, false) <= 32767);
    assert(-32768 <= coord(lump, k1, true) <= 32767);
    assert(-32768 <= coord(lump, k2, false) <= 32767);
    assert(-32768 <= coord(lump, k3, true) <= 32767);
}

/// Setting the bit of a pair of sectors in the reject table rules sight
/// out for that pair, and a table with that bit clear allows it.
pub proof fn lemma_reject_bit_decides(map: MapDataView, player: u16, monster: u16)
    requires
        map.reject_bit(player, monster) / 8 < map.reject.len(),
    ensures
        ({
            let bit = map.reject_bit(player, monster);
            let mask = 1u8 << ((bit % 8) as u8);
            let set = MapDataView { reject: map.reject.update(bit / 8, map.reject[bit / 8] | mask), ..map };
            let clear = MapDataView {
                reject: map.reject.update(bit / 8, map.reject[bit / 8] & !mask),
                ..map
            };
            &&& !set.line_of_sight(player, monster)
            &&& clear.line_of_sight(player, monster)
            &&& set.reject_bit(player, monster) == bit
            &&& clear.reject_bit(player, monster) == bit
        }),
{
    let bit = map.reject_bit(player, monster);
    let shift = (bit % 8) as u8;
    let byte = map.reject[bit / 8];
    assert((byte | (1u8 << shift)) & (1u8 << shift) != 0 && (byte & !(1u8 << shift)) & (1u8
        << shift) == 0) by (bit_vector)
        requires
            shift < 8,
    ;
}

/// The raw lumps of one level and its bounding box.
pub struct MapData {
    name: String,
    things: Bytes,
    linedefs: Bytes,
    sidedefs: Bytes,
    vertexes: Bytes,
    segs: Bytes,
    ssectors: Bytes,
    nodes: Bytes,
    sectors: Bytes,
    reject: Bytes,
    blockmap: Bytes,
    bound_min: Vertex,
    bound_max: Vertex,
}

impl View for MapData {
    type V = MapDataView;

    closed spec fn view(&self) -> MapDataView {
        MapDataView {
            name: self.name@,
            things: bytes_of(self.things),
            linedefs: bytes_of(self.linedefs),
            sidedefs: bytes_of(self.sidedefs),
            vertexes: bytes_of(self.vertexes),
            segs: bytes_of(self.segs),
            ssectors: bytes_of(self.ssectors),
            nodes: bytes_of(self.nodes),
            sectors: bytes_of(self.sectors),
            reject: bytes_of(self.reject),
            blockmap: bytes_of(self.blockmap),
            bound_min: self.bound_min,
            bound_max: self.bound_max,
        }
    }
}

impl Clone for MapData {
    /// A copy that shares the lump bytes and nothing that can change.
    fn clone(&self) -> (r: Self)
        ensures
            r@ == self@,
    {
        MapData {
            name: self.name.clone(),
            things: self.things.clone(),
            linedefs: self.linedefs.clone(),
            sidedefs: self.sidedefs.clone(),
            vertexes: self.vertexes.clone(),
            segs: self.segs.clone(),
            ssectors: self.ssectors.clone(),
            nodes: self.nodes.clone(),
            sectors: self.sectors.clone(),
            reject: self.reject.clone(),
            blockmap: self.blockmap.clone(),
            bound_min: self.bound_min,
            bound_max: self.bound_max,
        }
    }
}

impl MapData {
    /// A level of the given name with no lump yet.
    pub fn new(name: &str) -> (r: MapData)
        ensures
            r@ == MapDataView::empty(name@),
            r@.bounds_agree(),
    {
        MapData {
            name: name.to_owned(),
            things: bytes_new(),
            linedefs: bytes_new(),
            sidedefs: bytes_new(),
            vertexes: bytes_new(),
            segs: bytes_new(),
            ssectors: bytes_new(),
            nodes: bytes_new(),
            sectors: bytes_new(),
            reject: bytes_new(),
            blockmap: bytes_new(),
            bound_min: Vertex { x: 0, y: 0 },
            bound_max: Vertex { x: 0, y: 0 },
        }
    }

    /// Whether every lump of the level holds at least one byte.
    pub fn is_complete(&self) -> (r: bool)
        ensures
            r == self@.is_complete(),
    {
        bytes_len(&self.things) > 0 && bytes_len(&self.linedefs) > 0 && bytes_len(&self.sidedefs)
            > 0 && bytes_len(&self.vertexes) > 0 && bytes_len(&self.segs) > 0 && bytes_len(
            &self.ssectors,
        ) > 0 && bytes_len(&self.nodes) > 0 && bytes_len(&self.sectors) > 0 && bytes_len(
            &self.reject,
        ) > 0 && bytes_len(&self.blockmap) > 0
    }

    pub fn name(&self) -> (r: &str)
        ensures
            r@ == self@.name,
    {
        self.name.as_str()
    }

    pub fn vertex_count(&self) -> (r: usize)
        ensures
            r == self@.vertex_count(),
    {
        bytes_len(&self.vertexes) / VERTEX_SIZE
    }

    pub fn vertex(&self, idx: usize) -> (r: Vertex)
        requires
            has_record(self@.vertexes, idx as int, VERTEX_SIZE as int),
        ensures
            r == vertex_at(self@.vertexes, idx as int),
    {
        Vertex::from_lump(bytes_as_slice(&self.vertexes), idx)
    }

    pub fn thing_count(&self) -> (r: usize)
        ensures
            r == self@.thing_count(),
    {
        bytes_len(&self.things) / THING_SIZE
    }

    pub fn thing(&self, idx: usize) -> (r: Thing)
        requires
            has_record(self@.things, idx as int, THING_SIZE as int),
        ensures
            r == thing_of(record(self@.things, idx as int, THING_SIZE as int)),
    {
        let bytes = checked_slice(bytes_as_slice(&self.things), idx, THING_SIZE);
        Thing::from(bytes)
    }

    pub fn linedef_count(&self) -> (r: usize)
        ensures
            r == self@.linedef_count(),
            self@.linedefs.len() <= usize::MAX,
    {
        bytes_len(&self.linedefs) / LINEDEF_SIZE
    }

    pub fn linedef(&self, idx: usize) -> (r: LineDef)
        requires
            linedef_decodable(self@.linedefs, idx as int, self@.vertexes),
        ensures
            r == linedef_of(record(self@.linedefs, idx as int, LINEDEF_SIZE as int), self@.vertexes),
    {
        LineDef::from_lump(bytes_as_slice(&self.linedefs), idx, bytes_as_slice(&self.vertexes))
    }

    pub fn sidedef(&self, idx: usize) -> (r: SideDef)
        requires
            has_record(self@.sidedefs, idx as int, SIDEDEF_SIZE as int),
        ensures
            r == sidedef_of(record(self@.sidedefs, idx as int, SIDEDEF_SIZE as int)),
    {
        SideDef::from_lump(bytes_as_slice(&self.sidedefs), idx)
    }

    pub fn sector(&self, idx: usize) -> (r: Sector)
        requires
            has_record(self@.sectors, idx as int, SECTOR_SIZE as int),
        ensures
            r == sector_of(record(self@.sectors, idx as int, SECTOR_SIZE as int)),
    {
        Sector::from_lump(bytes_as_slice(&self.sectors), idx)
    }

    /// Index of the root of the partition tree: the last node of the node
    /// lump, kept to sixteen bits.
    pub fn root_bsp_node_idx(&self) -> (r: u16)
        requires
            self@.node_count() >= 1,
        ensures
            r == (((self@.node_count() - 1) % 0x10000) as u16),
    {
        let last: usize = bytes_len(&self.nodes) / NODE_SIZE - 1;
        (last % 0x10000) as u16
    }

    pub fn bsp_node(&self, idx: usize) -> (r: BspNode)
        requires
            has_record(self@.nodes, idx as int, NODE_SIZE as int),
        ensures
            r@ == self@.node(idx as int),
    {
        BspNode::from_lump(bytes_as_slice(&self.nodes), idx)
    }

    pub fn seg_count(&self) -> (r: usize)
        ensures
            r == self@.seg_count(),
    {
        bytes_len(&self.segs) / SEG_SIZE
    }

    /// Decodes the segs of the `idx`-th sub-sector.
    pub fn sub_sector(&self, idx: usize) -> (r: Vec<Seg>)
        requires
            self@.sub_sector_decodable(idx as int),
        ensures
            r@ == self@.sub_sector(idx as int),
    {
        let bytes = checked_slice(bytes_as_slice(&self.ssectors), idx, SSECTOR_SIZE);
        let seg_count: usize = u16_field(bytes, 0) as usize;
        let first_seg_idx: usize = u16_field(bytes, 2) as usize;
        let segs = bytes_as_slice(&self.segs);
        let vertexes = bytes_as_slice(&self.vertexes);
        let mut seg_collector: Vec<Seg> = Vec::with_capacity(seg_count);
        let mut i: usize = 0;
        while i < seg_count
            invariant
                i <= seg_count <= 0xffff,
                first_seg_idx <= 0xffff,
                seg_count == self@.sub_sector_len(idx as int),
                first_seg_idx == self@.sub_sector_first(idx as int),
                segs@ == self@.segs,
                vertexes@ == self@.vertexes,
                self@.sub_sector_decodable(idx as int),
                seg_collector@.len() == i,
                forall|k: int|
                    0 <= k < i ==> seg_collector@[k] == seg_at(
                        self@.segs,
                        first_seg_idx + k,
                        self@.vertexes,
                    ),
            decreases seg_count - i,
        {
            assert(seg_decodable(self@.segs, self@.sub_sector_first(idx as int) + i, self@.vertexes));
            let seg = Seg::from_lump(segs, first_seg_idx + i, vertexes);
            seg_collector.push(seg);
            i += 1;
        }
        assert(seg_collector@ =~= self@.sub_sector(idx as int));
        seg_collector
    }

    /// Whether the `idx`-th wall exists and both of its vertices do.
    pub fn linedef_is_decodable(&self, idx: usize) -> (r: bool)
        ensures
            r == linedef_decodable(self@.linedefs, idx as int, self@.vertexes),
    {
        if idx >= bytes_len(&self.linedefs) / LINEDEF_SIZE {
            return false;
        }
        let bytes = checked_slice(bytes_as_slice(&self.linedefs), idx, LINEDEF_SIZE);
        let count: usize = bytes_len(&self.vertexes) / VERTEX_SIZE;
        (u16_field(bytes, 0) as usize) < count && (u16_field(bytes, 2) as usize) < count
    }

    /// Number of wall sides.
    pub fn sidedef_count(&self) -> (r: usize)
        ensures
            r == self@.sidedefs.len() as int / SIDEDEF_SIZE as int,
    {
        bytes_len(&self.sidedefs) / SIDEDEF_SIZE
    }

    /// Number of sectors.
    pub fn sector_count(&self) -> (r: usize)
        ensures
            r == self@.sector_count(),
    {
        bytes_len(&self.sectors) / SECTOR_SIZE
    }

    /// Number of sub-sectors.
    pub fn sub_sector_count(&self) -> (r: usize)
        ensures
            r == self@.ssectors.len() as int / SSECTOR_SIZE as int,
    {
        bytes_len(&self.ssectors) / SSECTOR_SIZE
    }

    /// Number of bytes of the reject table.
    pub fn reject_len(&self) -> (r: usize)
        ensures
            r == self@.reject.len(),
    {
        bytes_len(&self.reject)
    }

    /// Decodes the `idx`-th seg.
    pub fn seg(&self, idx: usize) -> (r: Seg)
        requires
            seg_decodable(self@.segs, idx as int, self@.vertexes),
        ensures
            r == seg_at(self@.segs, idx as int, self@.vertexes),
    {
        Seg::from_lump(bytes_as_slice(&self.segs), idx, bytes_as_slice(&self.vertexes))
    }

    /// Number of partition nodes.
    pub fn node_count(&self) -> (r: usize)
        ensures
            r == self@.node_count(),
    {
        bytes_len(&self.nodes) / NODE_SIZE
    }

    /// Whether the `idx`-th seg exists and both of its vertices do.
    pub fn seg_is_decodable(&self, idx: usize) -> (r: bool)
        ensures
            r == seg_decodable(self@.segs, idx as int, self@.vertexes),
    {
        if idx >= bytes_len(&self.segs) / SEG_SIZE {
            return false;
        }
        let bytes = checked_slice(bytes_as_slice(&self.segs), idx, SEG_SIZE);
        let count: usize = bytes_len(&self.vertexes) / VERTEX_SIZE;
        (u16_field(bytes, 0) as usize) < count && (u16_field(bytes, 2) as usize) < count
    }

    /// Whether the `idx`-th sub-sector exists and each of its segs can be decoded.
    pub fn sub_sector_is_decodable(&self, idx: usize) -> (r: bool)
        ensures
            r == self@.sub_sector_decodable(idx as int),
    {
        if idx >= bytes_len(&self.ssectors) / SSECTOR_SIZE {
            return false;
        }
        let bytes = checked_slice(bytes_as_slice(&self.ssectors), idx, SSECTOR_SIZE);
        let seg_count: usize = u16_field(bytes, 0) as usize;
        let first_seg_idx: usize = u16_field(bytes, 2) as usize;
        let mut i: usize = 0;
        while i < seg_count
            invariant
                i <= seg_count <= 0xffff,
                first_seg_idx <= 0xffff,
                has_record(self@.ssectors, idx as int, SSECTOR_SIZE as int),
                seg_count == self@.sub_sector_len(idx as int),
                first_seg_idx == self@.sub_sector_first(idx as int),
                forall|k: int|
                    0 <= k < i ==> #[trigger] seg_decodable(
                        self@.segs,
                        first_seg_idx + k,
                        self@.vertexes,
                    ),
            decreases seg_count - i,
        {
            if !self.seg_is_decodable(first_seg_idx + i) {
                return false;
            }
            i += 1;
        }
        true
    }

    /// Index of the first seg of the `idx`-th sub-sector.
    pub fn sub_sector_first(&self, idx: usize) -> (r: usize)
        requires
            has_record(self@.ssectors, idx as int, SSECTOR_SIZE as int),
        ensures
            r == self@.sub_sector_first(idx as int),
    {
        let bytes = checked_slice(bytes_as_slice(&self.ssectors), idx, SSECTOR_SIZE);
        u16_field(bytes, 2) as usize
    }

    pub fn min_x(&self) -> (r: i32)
        ensures
            r == self@.bound_min.x,
    {
        self.bound_min.x
    }

    pub fn min_y(&self) -> (r: i32)
        ensures
            r == self@.bound_min.y,
    {
        self.bound_min.y
    }

    pub fn max_x(&self) -> (r: i32)
        ensures
            r == self@.bound_max.x,
    {
        self.bound_max.x
    }

    pub fn max_y(&self) -> (r: i32)
        ensures
            r == self@.bound_max.y,
    {
        self.bound_max.y
    }

    /// Looks up the reject table: `true` when it does not rule out sight
    /// from the monster's sector to the player's.
    pub fn check_line_of_sight(&self, player_sect_idx: u16, monster_sect_idx: u16) -> (r: bool)
        requires
            self@.reject_bit(player_sect_idx, monster_sect_idx) / 8 < self@.reject.len(),
        ensures
            r == self@.line_of_sight(player_sect_idx, monster_sect_idx),
    {
        let sector_count: u128 = (bytes_len(&self.sectors) / SECTOR_SIZE) as u128;
        let pli: u128 = player_sect_idx as u128;
        let moi: u128 = monster_sect_idx as u128;
        assert(moi * sector_count <= 0xffff * 0xffff_ffff_ffff_ffff) by (nonlinear_arith)
            requires
                0 <= moi <= 0xffff,
                0 <= sector_count <= 0xffff_ffff_ffff_ffff,
        ;
        let bit_idx: u128 = moi * sector_count + pli;
        let byte_idx: u128 = bit_idx >> 3;
        let shift: u128 = bit_idx & 0x07;
        assert(byte_idx == bit_idx / 8 && shift == bit_idx % 8 && shift < 8) by (bit_vector)
            requires
                byte_idx == bit_idx >> 3,
                shift == bit_idx & 0x07,
        ;
        let bit_mask: u8 = 1u8 << (shift as u8);
        let reject = bytes_as_slice(&self.reject);
        (reject[byte_idx as usize] & bit_mask) == 0
    }

    /// Offers a lump to the level. A lump whose name is that of a level
    /// lump is taken, replacing an earlier one of that name, and `true`
    /// is returned; any other name leaves the level as it was and returns
    /// `false`, which marks the end of the level's lumps.
    ///
    /// A vertex lump must hold at least one vertex: the bounding box is
    /// computed from it at once.
    pub fn add_lump(&mut self, lump: &str, bytes: &Bytes) -> (taken: bool)
        requires
            map_lump_of(lump@) == Some(MapLump::Vertexes) ==> bytes_of(*bytes).len()
                >= VERTEX_SIZE,
        ensures
            taken == map_lump_of(lump@).is_some(),
            final(self)@ == old(self)@.offer(lump@, bytes_of(*bytes)),
            old(self)@.bounds_agree() ==> final(self)@.bounds_agree(),
    {
        match MapLump::from_name(lump) {
            Some(which) => {
                match which {
                    MapLump::Things => {
                        self.things = bytes.clone();
                    },
                    MapLump::LineDefs => {
                        self.linedefs = bytes.clone();
                    },
                    MapLump::SideDefs => {
                        self.sidedefs = bytes.clone();
                    },
                    MapLump::Vertexes => {
                        self.vertexes = bytes.clone();
                        self.compute_map_bounds();
                    },
                    MapLump::Segs => {
                        self.segs = bytes.clone();
                    },
                    MapLump::SSectors => {
                        self.ssectors = bytes.clone();
                    },
                    MapLump::Nodes => {
                        self.nodes = bytes.clone();
                    },
                    MapLump::Sectors => {
                        self.sectors = bytes.clone();
                    },
                    MapLump::Reject => {
                        self.reject = bytes.clone();
                    },
                    MapLump::Blockmap => {
                        self.blockmap = bytes.clone();
                    },
                }
                true
            },
            None => false,
        }
    }

    /// Recomputes the bounding box with one scan over the vertex lump.
    fn compute_map_bounds(&mut self)
        requires
            old(self)@.vertexes.len() >= VERTEX_SIZE,
        ensures
            final(self)@ == (MapDataView {
                bound_min: bounds_of(old(self)@.vertexes).0,
                bound_max: bounds_of(old(self)@.vertexes).1,
                ..old(self)@
            }),
    {
        let mut bl: Vertex = self.vertex(0);
        let mut tr: Vertex = bl;
        let count: usize = self.vertex_count();
        let mut i: usize = 1;
        while i < count
            invariant
                1 <= i <= count,
                count == self@.vertex_count(),
                self@.vertexes.len() >= VERTEX_SIZE,
                bl.x == extreme(self@.vertexes, i as int, false, false),
                bl.y == extreme(self@.vertexes, i as int, true, false),
                tr.x == extreme(self@.vertexes, i as int, false, true),
                tr.y == extreme(self@.vertexes, i as int, true, true),
            decreases count - i,
        {
            let v: Vertex = self.vertex(i);
            if v.x < bl.x {
                bl.x = v.x;
            }
            if v.y < bl.y {
                bl.y = v.y;
            }
            if v.x > tr.x {
                tr.x = v.x;
            }
            if v.y > tr.y {
                tr.y = v.y;
            }
            i += 1;
        }
        self.bound_min = bl;
        self.bound_max = tr;
    }
}

} // verus!
