//! The typed records of a level, each decoded on demand from its lump.

use crate::utils::{
    buf_to_i16_vect, checked_slice, has_record, i16_at, i16_field, lump_key, name_field, record,
    u16_at, u16_field,
};
use vstd::prelude::*;
use vstd::slice::slice_subrange;

verus! {

pub const THING_SIZE: usize = 10;

pub const LINEDEF_SIZE: usize = 14;

pub const SIDEDEF_SIZE: usize = 30;

pub const VERTEX_SIZE: usize = 4;

pub const SEG_SIZE: usize = 12;

pub const SSECTOR_SIZE: usize = 4;

pub const NODE_SIZE: usize = 28;

pub const SECTOR_SIZE: usize = 26;

/// Set in a child index of a partition node that names a sub-sector, not a node.
pub const SSECTOR_FLAG: u16 = 0x8000;

/// A point in the 2D top view of a level. The Y axis points north, the
/// opposite of raster Y.
#[derive(Debug, Clone, Copy, Default, PartialEq, Eq, Hash, Structural)]
pub struct Vertex {
    pub x: i32,
    pub y: i32,
}

/// The vertex that a 4-byte record encodes: `i16 x, i16 y`.
pub open spec fn vertex_of(rec: Seq<u8>) -> Vertex {
    Vertex { x: i16_at(rec, 0) as i32, y: i16_at(rec, 2) as i32 }
}

/// The `idx`-th vertex of a vertex lump.
pub open spec fn vertex_at(lump: Seq<u8>, idx: int) -> Vertex {
    vertex_of(record(lump, idx, VERTEX_SIZE as int))
}

/// Integer division that rounds toward zero, as the machine divides.
pub open spec fn div_toward_zero(a: int, b: int) -> int {
    if a >= 0 && b > 0 {
        a / b
    } else if a < 0 && b > 0 {
        -((-a) / b)
    } else if a >= 0 {
        -(a / (-b))
    } else {
        (-a) / (-b)
    }
}

/// Whether `v * mul / div` can be computed in 32 bits.
pub open spec fn scalable(v: i32, mul: i32, div: i32) -> bool {
    &&& div != 0
    &&& i32::MIN <= v * mul <= i32::MAX
    &&& !(v * mul == i32::MIN && div == -1)
}

/// Divides two 32-bit integers, rounding toward zero.
fn divide(a: i32, b: i32) -> (q: i32)
    requires
        b != 0,
        !(a == i32::MIN && b == -1),
    ensures
        q == div_toward_zero(a as int, b as int),
{
    let wa: i64 = a as i64;
    let wb: i64 = b as i64;
    let q: i64 = if wa >= 0 && wb > 0 {
        wa / wb
    } else if wa < 0 && wb > 0 {
        -((-wa) / wb)
    } else if wa >= 0 {
        -(wa / (-wb))
    } else {
        (-wa) / (-wb)
    };
    assert(i32::MIN <= q <= i32::MAX) by (nonlinear_arith)
        requires
            q == div_toward_zero(wa as int, wb as int),
            i32::MIN <= wa <= i32::MAX,
            i32::MIN <= wb <= i32::MAX,
            wb != 0,
            !(wa == i32::MIN && wb == -1),
    ;
    q as i32
}

impl Vertex {
    /// Decodes the `idx`-th vertex of a vertex lump.
    pub fn from_lump(lump: &[u8], idx: usize) -> (v: Vertex)
        requires
            has_record(lump@, idx as int, VERTEX_SIZE as int),
        ensures
            v == vertex_at(lump@, idx as int),
    {
        let bytes = checked_slice(lump, idx, VERTEX_SIZE);
        Vertex { x: i16_field(bytes, 0) as i32, y: i16_field(bytes, 2) as i32 }
    }

    /// Scales both coordinates by the fraction `mul / div`, multiplying first.
    pub fn scale(&self, mul: i32, div: i32) -> (r: Vertex)
        requires
            scalable(self.x, mul, div),
            scalable(self.y, mul, div),
        ensures
            r.x == div_toward_zero(self.x * mul, div as int),
            r.y == div_toward_zero(self.y * mul, div as int),
    {
        Vertex { x: divide(self.x * mul, div), y: divide(self.y * mul, div) }
    }
}

impl core::ops::Add for Vertex {
    type Output = Vertex;

    /// Translates a point by another taken as a vector.
    fn add(self, other: Vertex) -> (r: Vertex) {
        Vertex { x: self.x + other.x, y: self.y + other.y }
    }
}

impl vstd::std_specs::ops::AddSpecImpl for Vertex {
    open spec fn obeys_add_spec() -> bool {
        true
    }

    open spec fn add_req(self, other: Vertex) -> bool {
        &&& i32::MIN <= self.x + other.x <= i32::MAX
        &&& i32::MIN <= self.y + other.y <= i32::MAX
    }

    open spec fn add_spec(self, other: Vertex) -> Vertex {
        Vertex { x: (self.x + other.x) as i32, y: (self.y + other.y) as i32 }
    }
}

impl core::ops::Sub for Vertex {
    type Output = Vertex;

    /// The vector from another point to this one.
    fn sub(self, other: Vertex) -> (r: Vertex) {
        Vertex { x: self.x - other.x, y: self.y - other.y }
    }
}

impl vstd::std_specs::ops::SubSpecImpl for Vertex {
    open spec fn obeys_sub_spec() -> bool {
        true
    }

    open spec fn sub_req(self, other: Vertex) -> bool {
        &&& i32::MIN <= self.x - other.x <= i32::MAX
        &&& i32::MIN <= self.y - other.y <= i32::MAX
    }

    open spec fn sub_spec(self, other: Vertex) -> Vertex {
        Vertex { x: (self.x - other.x) as i32, y: (self.y - other.y) as i32 }
    }
}

/// A wall: a directed edge between two vertices with up to two sides.
#[derive(Debug, Clone, Copy)]
pub struct LineDef {
    pub v1: Vertex,
    pub v2: Vertex,
    pub flags: u16,
    pub special_type: u16,
    pub sector_tag: u16,
    pub right_side_idx: u16,
    pub left_side_idx: u16,
}

/// The wall that a 14-byte record encodes, its two vertices looked up in
/// the vertex lump.
pub open spec fn linedef_of(rec: Seq<u8>, vertex_lump: Seq<u8>) -> LineDef {
    LineDef {
        v1: vertex_at(vertex_lump, u16_at(rec, 0)),
        v2: vertex_at(vertex_lump, u16_at(rec, 2)),
        flags: u16_at(rec, 4) as u16,
        special_type: u16_at(rec, 6) as u16,
        sector_tag: u16_at(rec, 8) as u16,
        right_side_idx: u16_at(rec, 10) as u16,
        left_side_idx: u16_at(rec, 12) as u16,
    }
}

/// Whether the `idx`-th wall exists and both of its vertices do.
pub open spec fn linedef_decodable(lump: Seq<u8>, idx: int, vertex_lump: Seq<u8>) -> bool {
    &&& has_record(lump, idx, LINEDEF_SIZE as int)
    &&& has_record(vertex_lump, u16_at(record(lump, idx, LINEDEF_SIZE as int), 0), VERTEX_SIZE as int)
    &&& has_record(vertex_lump, u16_at(record(lump, idx, LINEDEF_SIZE as int), 2), VERTEX_SIZE as int)
}

impl LineDef {
    /// Decodes the `idx`-th wall of a linedef lump.
    pub fn from_lump(lump: &[u8], idx: usize, vertex_lump: &[u8]) -> (r: LineDef)
        requires
            linedef_decodable(lump@, idx as int, vertex_lump@),
        ensures
            r == linedef_of(record(lump@, idx as int, LINEDEF_SIZE as int), vertex_lump@),
    {
        let bytes = checked_slice(lump, idx, LINEDEF_SIZE);
        let v1_idx: usize = u16_field(bytes, 0) as usize;
        let v2_idx: usize = u16_field(bytes, 2) as usize;
        LineDef {
            v1: Vertex::from_lump(vertex_lump, v1_idx),
            v2: Vertex::from_lump(vertex_lump, v2_idx),
            flags: u16_field(bytes, 4),
            special_type: u16_field(bytes, 6),
            sector_tag: u16_field(bytes, 8),
            right_side_idx: u16_field(bytes, 10),
            left_side_idx: u16_field(bytes, 12),
        }
    }
}

/// One side of a wall: texture placement and the sector it faces.
#[derive(Debug, Clone, Copy)]
pub struct SideDef {
    pub x_offset: i16,
    pub y_offset: i16,
    pub upper_texture_key: u64,
    pub lower_texture_key: u64,
    pub middle_texture_key: u64,
    pub sector_idx: u16,
}

/// The wall side that a 30-byte record encodes.
pub open spec fn sidedef_of(rec: Seq<u8>) -> SideDef {
    SideDef {
        x_offset: i16_at(rec, 0) as i16,
        y_offset: i16_at(rec, 2) as i16,
        upper_texture_key: lump_key(rec.subrange(4, 12)) as u64,
        lower_texture_key: lump_key(rec.subrange(12, 20)) as u64,
        middle_texture_key: lump_key(rec.subrange(20, 28)) as u64,
        sector_idx: u16_at(rec, 28) as u16,
    }
}

impl SideDef {
    /// Decodes the `idx`-th side of a sidedef lump.
    pub fn from_lump(lump: &[u8], idx: usize) -> (r: SideDef)
        requires
            has_record(lump@, idx as int, SIDEDEF_SIZE as int),
        ensures
            r == sidedef_of(record(lump@, idx as int, SIDEDEF_SIZE as int)),
    {
        let bytes = checked_slice(lump, idx, SIDEDEF_SIZE);
        SideDef {
            x_offset: i16_field(bytes, 0),
            y_offset: i16_field(bytes, 2),
            upper_texture_key: name_field(bytes, 4),
            lower_texture_key: name_field(bytes, 12),
            middle_texture_key: name_field(bytes, 20),
            sector_idx: u16_field(bytes, 28),
        }
    }
}

/// A floor/ceiling region of uniform height and light.
#[derive(Debug, Clone, Copy)]
pub struct Sector {
    pub floor_height: i16,
    pub ceiling_height: i16,
    pub floor_flat_key: u64,
    pub ceiling_flat_key: u64,
    pub light_level: u16,
    pub special_type: u16,
    pub tag_nr: u16,
}

/// The sector that a 26-byte record encodes.
pub open spec fn sector_of(rec: Seq<u8>) -> Sector {
    Sector {
        floor_height: i16_at(rec, 0) as i16,
        ceiling_height: i16_at(rec, 2) as i16,
        floor_flat_key: lump_key(rec.subrange(4, 12)) as u64,
        ceiling_flat_key: lump_key(rec.subrange(12, 20)) as u64,
        light_level: u16_at(rec, 20) as u16,
        special_type: u16_at(rec, 22) as u16,
        tag_nr: u16_at(rec, 24) as u16,
    }
}

impl Sector {
    /// Decodes the `idx`-th sector of a sector lump.
    pub fn from_lump(lump: &[u8], idx: usize) -> (r: Sector)
        requires
            has_record(lump@, idx as int, SECTOR_SIZE as int),
        ensures
            r == sector_of(record(lump@, idx as int, SECTOR_SIZE as int)),
    {
        let bytes = checked_slice(lump, idx, SECTOR_SIZE);
        Sector {
            floor_height: i16_field(bytes, 0),
            ceiling_height: i16_field(bytes, 2),
            floor_flat_key: name_field(bytes, 4),
            ceiling_flat_key: name_field(bytes, 12),
            light_level: u16_field(bytes, 20),
            special_type: u16_field(bytes, 22),
            tag_nr: u16_field(bytes, 24),
        }
    }
}

/// What a child index of a partition node names.
#[derive(Debug, Clone, Copy, PartialEq, Eq, Structural)]
pub enum NodeRef {
    /// Another partition node, by its index.
    Internal(u16),
    /// A sub-sector, by its index: the raw value with the top bit cleared.
    Leaf(u16),
}

/// The meaning of a raw child index: values from `0x8000` up are leaves.
pub open spec fn node_ref_of(raw: u16) -> NodeRef {
    if raw >= 0x8000 {
        NodeRef::Leaf((raw - 0x8000) as u16)
    } else {
        NodeRef::Internal(raw)
    }
}

impl NodeRef {
    /// Splits a raw child index into its kind and index.
    pub fn from_raw(raw: u16) -> (r: NodeRef)
        ensures
            r == node_ref_of(raw),
    {
        if (raw & SSECTOR_FLAG) == 0 {
            assert(raw < 0x8000) by (bit_vector)
                requires
                    (raw & 0x8000) == 0,
            ;
            NodeRef::Internal(raw)
        } else {
            let idx: u16 = raw & !SSECTOR_FLAG;
            assert(raw >= 0x8000 && idx == raw - 0x8000) by (bit_vector)
                requires
                    (raw & 0x8000) != 0,
                    idx == raw & !0x8000u16,
            ;
            NodeRef::Leaf(idx)
        }
    }
}

/// A node of the partition tree: a splitting line and two children.
pub struct BspNode {
    vect_orig: Vertex,
    vect_dir: Vertex,
    right_child: u16,
    left_child: u16,
}

/// The contents of a partition node.
pub ghost struct BspNodeView {
    pub vect_orig: Vertex,
    pub vect_dir: Vertex,
    pub right_child: u16,
    pub left_child: u16,
}

impl View for BspNode {
    type V = BspNodeView;

    closed spec fn view(&self) -> BspNodeView {
        BspNodeView {
            vect_orig: self.vect_orig,
            vect_dir: self.vect_dir,
            right_child: self.right_child,
            left_child: self.left_child,
        }
    }
}

/// The node that a 28-byte record encodes: origin, direction, two bounding
/// boxes (not kept), right child, left child.
pub open spec fn node_of(rec: Seq<u8>) -> BspNodeView {
    BspNodeView {
        vect_orig: Vertex { x: i16_at(rec, 0) as i32, y: i16_at(rec, 2) as i32 },
        vect_dir: Vertex { x: i16_at(rec, 4) as i32, y: i16_at(rec, 6) as i32 },
        right_child: u16_at(rec, 24) as u16,
        left_child: u16_at(rec, 26) as u16,
    }
}

/// The 2D cross product of `point - orig` with `dir`. It is positive on the
/// right of the line through `orig` along `dir`, zero on it, negative on the left.
pub open spec fn cross_product(point: Vertex, orig: Vertex, dir: Vertex) -> int {
    (point.x - orig.x) * dir.y - (point.y - orig.y) * dir.x
}

/// The two children of a node, the one on the point's side first.
pub open spec fn children_near_first(node: BspNodeView, point: Vertex) -> (u16, u16) {
    if cross_product(point, node.vect_orig, node.vect_dir) <= 0 {
        (node.left_child, node.right_child)
    } else {
        (node.right_child, node.left_child)
    }
}

impl BspNode {
    /// Decodes the `idx`-th node of a node lump.
    pub fn from_lump(lump: &[u8], idx: usize) -> (r: BspNode)
        requires
            has_record(lump@, idx as int, NODE_SIZE as int),
        ensures
            r@ == node_of(record(lump@, idx as int, NODE_SIZE as int)),
    {
        let bytes = checked_slice(lump, idx, NODE_SIZE);
        let head = slice_subrange(bytes, 0, 24);
        let vect = buf_to_i16_vect(head);
        assert(i16_at(head@, 0) == i16_at(bytes@, 0));
        assert(i16_at(head@, 2) == i16_at(bytes@, 2));
        assert(i16_at(head@, 4) == i16_at(bytes@, 4));
        assert(i16_at(head@, 6) == i16_at(bytes@, 6));
        BspNode {
            vect_orig: Vertex { x: vect[0] as i32, y: vect[1] as i32 },
            vect_dir: Vertex { x: vect[2] as i32, y: vect[3] as i32 },
            right_child: u16_field(bytes, 24),
            left_child: u16_field(bytes, 26),
        }
    }

    /// The indices of the two children, ordered by the side of the
    /// splitting line that `point` is on: on the line or left of it the
    /// left child comes first, right of it the right child.
    pub fn child_indices_based_on_point_pos(&self, point: Vertex) -> (r: (u16, u16))
        ensures
            r == children_near_first(self@, point),
    {
        let px: i64 = point.x as i64 - self.vect_orig.x as i64;
        let py: i64 = point.y as i64 - self.vect_orig.y as i64;
        let dx: i64 = self.vect_dir.x as i64;
        let dy: i64 = self.vect_dir.y as i64;
        assert(-0x7fff_ffff_8000_0000 <= px * dy <= 0x7fff_ffff_8000_0000) by (nonlinear_arith)
            requires
                -0xffff_ffff <= px <= 0xffff_ffff,
                -0x8000_0000 <= dy <= 0x7fff_ffff,
        ;
        assert(-0x7fff_ffff_8000_0000 <= py * dx <= 0x7fff_ffff_8000_0000) by (nonlinear_arith)
            requires
                -0xffff_ffff <= py <= 0xffff_ffff,
                -0x8000_0000 <= dx <= 0x7fff_ffff,
        ;
        if px * dy <= py * dx {
            (self.left_child, self.right_child)
        } else {
            (self.right_child, self.left_child)
        }
    }
}

/// A piece of a wall, the unit that a viewer sees or does not.
#[derive(Debug, Clone, Copy)]
pub struct Seg {
    pub start: Vertex,
    pub end: Vertex,
    /// Direction in segment-angle units: 65536 to the full circle, 0 east,
    /// counterclockwise.
    pub angle: u16,
    pub linedef_idx: u16,
    pub direction_same: bool,
    pub offset: i16,
}

/// The seg that a 12-byte record encodes, its two vertices looked up in
/// the vertex lump.
pub open spec fn seg_of(rec: Seq<u8>, vertex_lump: Seq<u8>) -> Seg {
    Seg {
        start: vertex_at(vertex_lump, u16_at(rec, 0)),
        end: vertex_at(vertex_lump, u16_at(rec, 2)),
        angle: u16_at(rec, 4) as u16,
        linedef_idx: u16_at(rec, 6) as u16,
        direction_same: u16_at(rec, 8) == 0,
        offset: i16_at(rec, 10) as i16,
    }
}

/// The `idx`-th seg of a seg lump.
pub open spec fn seg_at(lump: Seq<u8>, idx: int, vertex_lump: Seq<u8>) -> Seg {
    seg_of(record(lump, idx, SEG_SIZE as int), vertex_lump)
}

/// Whether the `idx`-th seg exists and both of its vertices do.
pub open spec fn seg_decodable(lump: Seq<u8>, idx: int, vertex_lump: Seq<u8>) -> bool {
    &&& has_record(lump, idx, SEG_SIZE as int)
    &&& has_record(vertex_lump, u16_at(record(lump, idx, SEG_SIZE as int), 0), VERTEX_SIZE as int)
    &&& has_record(vertex_lump, u16_at(record(lump, idx, SEG_SIZE as int), 2), VERTEX_SIZE as int)
}

impl Seg {
    /// Decodes the `idx`-th seg of a seg lump.
    pub fn from_lump(lump: &[u8], idx: usize, vertex_lump: &[u8]) -> (r: Seg)
        requires
            seg_decodable(lump@, idx as int, vertex_lump@),
        ensures
            r == seg_at(lump@, idx as int, vertex_lump@),
    {
        let bytes = checked_slice(lump, idx, SEG_SIZE);
        let start_idx: usize = u16_field(bytes, 0) as usize;
        let end_idx: usize = u16_field(bytes, 2) as usize;
        Seg {
            start: Vertex::from_lump(vertex_lump, start_idx),
            end: Vertex::from_lump(vertex_lump, end_idx),
            angle: u16_field(bytes, 4),
            linedef_idx: u16_field(bytes, 6),
            direction_same: 0 == u16_field(bytes, 8),
            offset: i16_field(bytes, 10),
        }
    }
}

} // verus!
