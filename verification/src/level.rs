//! A level in play: the level's data, where the player stands, which
//! walls were seen, and the near-to-far walk of the partition tree.

use crate::map::{table_bit, MapData, MapDataView};
use crate::map_items::{
    children_near_first, cross_product, node_ref_of, sector_of, seg_at, sidedef_of, LineDef, NodeRef, Sector,
    Seg, SideDef, Vertex, NODE_SIZE, SECTOR_SIZE, SIDEDEF_SIZE, THING_SIZE,
};
use crate::painter::{black, blue, choco, cyan, green, pink, red, yellow, RGB};
use crate::things::{thing_of, Thing};
use crate::utils::{has_record, record};
use vstd::prelude::*;

verus! {

/// Wall flag: blocks players and monsters.
pub const LINE_BLOCKS: u16 = 0x0001;

/// Wall flag: has a sector on both sides.
pub const LINE_TWO_SIDED: u16 = 0x0004;

/// Wall flag: drawn as a plain wall although it hides a secret.
pub const LINE_SECRET: u16 = 0x0020;

/// Wall flag: never drawn on the map.
pub const LINE_NEVER_ON_AMAP: u16 = 0x0080;

/// Wall flag: drawn on the map even before it was seen.
pub const LINE_ALWAYS_ON_AMAP: u16 = 0x0100;

/// Side index of a wall that has no side there.
pub const NO_SIDE: u16 = 0xFFFF;

/// Level flag: the map is shown in place of the 3D view.
pub const FLAG_AUTOMAP_ON: u32 = 0x01;

/// Level flag: the player holds the computer map.
pub const FLAG_HAS_COMPUTER_MAP: u32 = 0x02;

/// Level flag: secrets and acting walls are told apart on the map.
pub const FLAG_AUTOMAP_EXTRA_COLORS: u32 = 0x04;

/// The type code of the player start.
pub const PLAYER_TYPE_CODE: u16 = 1;

/// The first thing at or after index `from` that is a player start.
pub open spec fn player_from(things: Seq<u8>, from: int) -> Option<Thing>
    decreases things.len() - from,
{
    if from < 0 || !has_record(things, from, THING_SIZE as int) {
        None
    } else if thing_of(record(things, from, THING_SIZE as int)).type_code == PLAYER_TYPE_CODE {
        Some(thing_of(record(things, from, THING_SIZE as int)))
    } else {
        player_from(things, from + 1)
    }
}

/// The player start of a level: its first thing of type code 1.
pub fn find_player_thing(map_data: &MapData) -> (r: Option<Thing>)
    ensures
        r == player_from(map_data@.things, 0),
{
    let count: usize = map_data.thing_count();
    let mut idx: usize = 0;
    while idx < count
        invariant
            idx <= count,
            count == map_data@.thing_count(),
            player_from(map_data@.things, 0) == player_from(map_data@.things, idx as int),
        decreases count - idx,
    {
        let th: Thing = map_data.thing(idx);
        if th.type_code() == PLAYER_TYPE_CODE {
            return Some(th);
        }
        idx += 1;
    }
    None
}

/// Clamps a value into `[min, max]` and tells whether it had to move.
pub fn clamp_value(val: i32, min: i32, max: i32) -> (r: (i32, bool))
    ensures
        r == if val < min {
            (min, true)
        } else if val > max {
            (max, true)
        } else {
            (val, false)
        },
{
    if val < min {
        (min, true)
    } else if val > max {
        (max, true)
    } else {
        (val, false)
    }
}

/// What the comparisons of angles say of a seg and a viewer. The angles
/// themselves are measured where they can be: these are their outcomes.
#[derive(Debug, Clone, Copy, PartialEq, Eq, Structural)]
pub struct FovFacts {
    /// Both ends of the seg lie in the same direction from the viewer.
    pub edge_on: bool,
    /// The angle from the seg's end round to its start is half a turn or more.
    pub faces_away: bool,
    /// The direction of the seg's start lies in the field of view.
    pub start_in_view: bool,
    /// The direction of the seg's end lies in the field of view.
    pub end_in_view: bool,
    /// The direction of the seg's start lies less than the seg's own
    /// span beyond the field of view.
    pub start_within_span: bool,
}

/// Whether a seg may be seen: it is not seen edge-on, it does not face
/// away, and one of its ends is in the field of view or the field of
/// view lies between them. A seg only partly in view is kept whole.
pub open spec fn fov_accepts(facts: FovFacts) -> bool {
    &&& !facts.edge_on
    &&& !facts.faces_away
    &&& (facts.start_in_view || facts.end_in_view || facts.start_within_span)
}

/// Decides the field-of-view test of a seg from the comparisons of its angles.
pub fn is_seg_in_player_fov(facts: &FovFacts) -> (r: bool)
    ensures
        r == fov_accepts(*facts),
{
    if facts.edge_on {
        return false;
    }
    if facts.faces_away {
        return false;
    }
    facts.start_in_view || facts.end_in_view || facts.start_within_span
}

/// A seg whose two ends lie in the same direction from the viewer is
/// rejected, wherever the viewer looks and however wide the field of view.
pub proof fn lemma_edge_on_is_rejected(facts: FovFacts)
    requires
        facts.edge_on,
    ensures
        !fov_accepts(facts),
{
}

/// A seg that faces away from the viewer is rejected, wherever the
/// viewer looks and however wide the field of view.
pub proof fn lemma_facing_away_is_rejected(facts: FovFacts)
    requires
        facts.faces_away,
    ensures
        !fov_accepts(facts),
{
}

/// The sides of a wall and the sectors they face.
#[derive(Debug, Clone, Copy)]
pub struct LineDefDetails {
    pub right_sidedef: Option<SideDef>,
    pub right_sector: Option<Sector>,
    pub left_sidedef: Option<SideDef>,
    pub left_sector: Option<Sector>,
}

impl MapDataView {
    /// The side of the given index.
    pub open spec fn side(self, idx: u16) -> SideDef {
        sidedef_of(record(self.sidedefs, idx as int, SIDEDEF_SIZE as int))
    }

    /// The sector that the side of the given index faces.
    pub open spec fn side_sector(self, idx: u16) -> Sector {
        sector_of(record(self.sectors, self.side(idx).sector_idx as int, SECTOR_SIZE as int))
    }

    /// Whether the side of the given index and the sector it faces exist.
    pub open spec fn side_decodable(self, idx: u16) -> bool {
        &&& has_record(self.sidedefs, idx as int, SIDEDEF_SIZE as int)
        &&& has_record(self.sectors, self.side(idx).sector_idx as int, SECTOR_SIZE as int)
    }

    /// The invariant of a wall: it has a right side; it has a left side
    /// exactly when it is two-sided; and the sides it has can be decoded.
    pub open spec fn line_sides_valid(self, line: LineDef) -> bool {
        &&& line.right_side_idx != NO_SIDE
        &&& self.side_decodable(line.right_side_idx)
        &&& ((line.flags & LINE_TWO_SIDED) != 0) == (line.left_side_idx != NO_SIDE)
        &&& line.left_side_idx != NO_SIDE ==> self.side_decodable(line.left_side_idx)
    }

    /// The sides of a wall and their sectors.
    pub open spec fn line_details(self, line: LineDef) -> LineDefDetails {
        LineDefDetails {
            right_sidedef: Some(self.side(line.right_side_idx)),
            right_sector: Some(self.side_sector(line.right_side_idx)),
            left_sidedef: if line.left_side_idx != NO_SIDE {
                Some(self.side(line.left_side_idx))
            } else {
                None
            },
            left_sector: if line.left_side_idx != NO_SIDE {
                Some(self.side_sector(line.left_side_idx))
            } else {
                None
            },
        }
    }

    /// The segs of the `idx`-th sub-sector that are among its first `n`
    /// and marked in `in_fov` (indexed by seg), in the order of the seg lump.
    pub open spec fn leaf_segs(self, idx: int, in_fov: Seq<bool>, n: int) -> Seq<Seg>
        decreases n,
    {
        if n <= 0 {
            Seq::empty()
        } else {
            let rest = self.leaf_segs(idx, in_fov, n - 1);
            let seg_idx = self.sub_sector_first(idx) + n - 1;
            if in_fov[seg_idx] {
                rest.push(seg_at(self.segs, seg_idx, self.vertexes))
            } else {
                rest
            }
        }
    }

    /// Whether the tree below the child index `raw` can be walked within
    /// `depth` levels of nodes: every node and sub-sector met exists and
    /// every seg of a sub-sector can be decoded.
    pub open spec fn tree_wf(self, raw: u16, depth: nat) -> bool
        decreases depth,
    {
        match node_ref_of(raw) {
            NodeRef::Leaf(idx) => self.sub_sector_decodable(idx as int),
            NodeRef::Internal(idx) => {
                &&& depth > 0
                &&& has_record(self.nodes, idx as int, NODE_SIZE as int)
                &&& self.tree_wf(self.node(idx as int).left_child, (depth - 1) as nat)
                &&& self.tree_wf(self.node(idx as int).right_child, (depth - 1) as nat)
            },
        }
    }

    /// The marked segs met by a walk from the child index `raw`. At each
    /// node the child on the side of `pos` is walked first, so sub-sectors
    /// come near to far; within a sub-sector the segs keep their order.
    pub open spec fn walk(self, pos: Vertex, in_fov: Seq<bool>, raw: u16, depth: nat) -> Seq<Seg>
        decreases depth,
    {
        match node_ref_of(raw) {
            NodeRef::Leaf(idx) => self.leaf_segs(
                idx as int,
                in_fov,
                self.sub_sector_len(idx as int),
            ),
            NodeRef::Internal(idx) => if depth == 0 {
                Seq::empty()
            } else {
                let kids = children_near_first(self.node(idx as int), pos);
                self.walk(pos, in_fov, kids.0, (depth - 1) as nat) + self.walk(
                    pos,
                    in_fov,
                    kids.1,
                    (depth - 1) as nat,
                )
            },
        }
    }

    /// Levels of nodes on the longest way down from the child index
    /// `raw`, looked for within `depth` levels.
    pub open spec fn height(self, raw: u16, depth: nat) -> nat
        decreases depth,
    {
        match node_ref_of(raw) {
            NodeRef::Leaf(_) => 0,
            NodeRef::Internal(idx) => if depth == 0 {
                0
            } else {
                let left = self.height(self.node(idx as int).left_child, (depth - 1) as nat);
                let right = self.height(self.node(idx as int).right_child, (depth - 1) as nat);
                if left >= right {
                    left + 1
                } else {
                    right + 1
                }
            },
        }
    }

    /// The nodes on a longest way down from the child index `raw`.
    pub open spec fn spine(self, raw: u16, depth: nat) -> Set<int>
        decreases depth,
    {
        match node_ref_of(raw) {
            NodeRef::Leaf(_) => Set::empty(),
            NodeRef::Internal(idx) => if depth == 0 {
                Set::empty()
            } else {
                let left = self.height(self.node(idx as int).left_child, (depth - 1) as nat);
                let right = self.height(self.node(idx as int).right_child, (depth - 1) as nat);
                if left >= right {
                    self.spine(self.node(idx as int).left_child, (depth - 1) as nat).insert(
                        idx as int,
                    )
                } else {
                    self.spine(self.node(idx as int).right_child, (depth - 1) as nat).insert(
                        idx as int,
                    )
                }
            },
        }
    }

    /// The child index of the root: the last node of the node lump.
    pub open spec fn root(self) -> u16 {
        ((self.node_count() - 1) % 0x10000) as u16
    }

    /// Whether the whole tree can be walked from the root.
    pub open spec fn walkable(self) -> bool {
        &&& self.node_count() >= 1
        &&& exists|depth: nat| #[trigger] self.tree_wf(self.root(), depth)
    }
}

/// The `k`-th seg of the `idx`-th sub-sector.
pub open spec fn leaf_seg(map: MapDataView, idx: int, k: int) -> Seg {
    seg_at(map.segs, map.sub_sector_first(idx) + k, map.vertexes)
}

/// Whether the `k`-th seg of the `idx`-th sub-sector is marked.
pub open spec fn leaf_marked(map: MapDataView, idx: int, in_fov: Seq<bool>, k: int) -> bool {
    in_fov[map.sub_sector_first(idx) + k]
}

/// Whether the `j`-th seg kept among the first `n` of a sub-sector is a
/// marked seg of that sub-sector, at place `j` of it or later.
pub open spec fn kept_is_marked(
    map: MapDataView,
    idx: int,
    in_fov: Seq<bool>,
    n: int,
    j: int,
) -> bool {
    exists|k: int|
        j <= k < n && leaf_marked(map, idx, in_fov, k) && #[trigger] leaf_seg(map, idx, k)
            == map.leaf_segs(idx, in_fov, n)[j]
}

/// The segs kept of a sub-sector are segs of that sub-sector that are
/// marked, and none is kept ahead of its place in the seg lump.
pub proof fn lemma_leaf_segs_are_marked(map: MapDataView, idx: int, in_fov: Seq<bool>, n: int)
    requires
        0 <= n,
    ensures
        map.leaf_segs(idx, in_fov, n).len() <= n,
        forall|j: int|
            0 <= j < map.leaf_segs(idx, in_fov, n).len() ==> #[trigger] kept_is_marked(
                map,
                idx,
                in_fov,
                n,
                j,
            ),
    decreases n,
{
    if n > 0 {
        lemma_leaf_segs_are_marked(map, idx, in_fov, n - 1);
        let rest = map.leaf_segs(idx, in_fov, n - 1);
        let all = map.leaf_segs(idx, in_fov, n);
        assert forall|j: int| 0 <= j < all.len() implies #[trigger] kept_is_marked(
            map,
            idx,
            in_fov,
            n,
            j,
        ) by {
            if j < rest.len() {
                assert(all[j] == rest[j]);
                assert(kept_is_marked(map, idx, in_fov, n - 1, j));
                let k = choose|k: int|
                    j <= k < n - 1 && leaf_marked(map, idx, in_fov, k) && #[trigger] leaf_seg(
                        map,
                        idx,
                        k,
                    ) == rest[j];
                assert(leaf_seg(map, idx, k) == all[j]);
            } else {
                assert(leaf_seg(map, idx, n - 1) == all[j]);
            }
        }
    }
}

/// Where every seg of a sub-sector is marked, all of its segs are kept;
/// where none is, none.
pub proof fn lemma_leaf_segs_all_or_none(map: MapDataView, idx: int, in_fov: Seq<bool>, n: int)
    requires
        0 <= n <= map.sub_sector_len(idx),
    ensures
        (forall|k: int| 0 <= k < n ==> #[trigger] leaf_marked(map, idx, in_fov, k))
            ==> map.leaf_segs(idx, in_fov, n) == map.sub_sector(idx).subrange(0, n),
        (forall|k: int| 0 <= k < n ==> !#[trigger] leaf_marked(map, idx, in_fov, k))
            ==> map.leaf_segs(idx, in_fov, n) == Seq::<Seg>::empty(),
    decreases n,
{
    if n > 0 {
        lemma_leaf_segs_all_or_none(map, idx, in_fov, n - 1);
        if forall|k: int| 0 <= k < n ==> #[trigger] leaf_marked(map, idx, in_fov, k) {
            assert(leaf_marked(map, idx, in_fov, n - 1));
            assert(map.leaf_segs(idx, in_fov, n) =~= map.sub_sector(idx).subrange(0, n));
        }
        if forall|k: int| 0 <= k < n ==> !#[trigger] leaf_marked(map, idx, in_fov, k) {
            assert(!leaf_marked(map, idx, in_fov, n - 1));
        }
    } else {
        assert(map.leaf_segs(idx, in_fov, n) =~= map.sub_sector(idx).subrange(0, n));
    }
}

/// Where a seg among the first `n` of a sub-sector is marked, at least
/// one seg is kept.
pub proof fn lemma_leaf_segs_keep_marked(
    map: MapDataView,
    idx: int,
    in_fov: Seq<bool>,
    n: int,
    k: int,
)
    requires
        0 <= k < n,
        leaf_marked(map, idx, in_fov, k),
    ensures
        map.leaf_segs(idx, in_fov, n).len() > 0,
    decreases n,
{
    if k < n - 1 {
        lemma_leaf_segs_keep_marked(map, idx, in_fov, n - 1, k);
    }
}

/// Whether a seg is one of the level's segs and is marked.
pub open spec fn is_marked_seg(map: MapDataView, in_fov: Seq<bool>, seg: Seg) -> bool {
    exists|i: int|
        0 <= i < map.seg_count() && in_fov[i] && #[trigger] seg_at(map.segs, i, map.vertexes)
            == seg
}

/// Every seg that a walk returns is a seg of the level that is marked:
/// the walk makes up no seg and keeps none that failed the test.
pub proof fn lemma_walk_members(
    map: MapDataView,
    pos: Vertex,
    in_fov: Seq<bool>,
    raw: u16,
    depth: nat,
)
    requires
        map.tree_wf(raw, depth),
    ensures
        forall|j: int|
            0 <= j < map.walk(pos, in_fov, raw, depth).len() ==> is_marked_seg(
                map,
                in_fov,
                #[trigger] map.walk(pos, in_fov, raw, depth)[j],
            ),
    decreases depth,
{
    let all = map.walk(pos, in_fov, raw, depth);
    match node_ref_of(raw) {
        NodeRef::Leaf(idx) => {
            let n = map.sub_sector_len(idx as int);
            lemma_leaf_segs_are_marked(map, idx as int, in_fov, n);
            assert forall|j: int| 0 <= j < all.len() implies is_marked_seg(
                map,
                in_fov,
                #[trigger] all[j],
            ) by {
                assert(kept_is_marked(map, idx as int, in_fov, n, j));
                let k = choose|k: int|
                    j <= k < n && leaf_marked(map, idx as int, in_fov, k) && #[trigger] leaf_seg(
                        map,
                        idx as int,
                        k,
                    ) == all[j];
                let i = map.sub_sector_first(idx as int) + k;
                assert(crate::map_items::seg_decodable(map.segs, i, map.vertexes));
                assert(seg_at(map.segs, i, map.vertexes) == all[j]);
            }
        },
        NodeRef::Internal(idx) => {
            let kids = children_near_first(map.node(idx as int), pos);
            let below = (depth - 1) as nat;
            lemma_walk_members(map, pos, in_fov, kids.0, below);
            lemma_walk_members(map, pos, in_fov, kids.1, below);
            let near = map.walk(pos, in_fov, kids.0, below);
            let far = map.walk(pos, in_fov, kids.1, below);
            assert forall|j: int| 0 <= j < all.len() implies is_marked_seg(
                map,
                in_fov,
                #[trigger] all[j],
            ) by {
                if j < near.len() {
                    assert(all[j] == near[j]);
                } else {
                    assert(all[j] == far[j - near.len()]);
                }
            }
        },
    }
}

/// The walk of a node over two sub-sectors: no longer than the two
/// sub-sectors together, and not empty where a seg of either is marked.
pub proof fn lemma_walk_of_two_leaves(
    map: MapDataView,
    pos: Vertex,
    in_fov: Seq<bool>,
    raw: u16,
    depth: nat,
)
    requires
        raw < 0x8000,
        depth > 0,
        map.node(raw as int).left_child >= 0x8000,
        map.node(raw as int).right_child >= 0x8000,
    ensures
        ({
            let left = map.node(raw as int).left_child - 0x8000;
            let right = map.node(raw as int).right_child - 0x8000;
            let all = map.walk(pos, in_fov, raw, depth);
            &&& all.len() <= map.sub_sector_len(left) + map.sub_sector_len(right)
            &&& forall|k: int|
                0 <= k < map.sub_sector_len(left) && #[trigger] leaf_marked(map, left, in_fov, k)
                    ==> all.len() > 0
            &&& forall|k: int|
                0 <= k < map.sub_sector_len(right) && #[trigger] leaf_marked(map, right, in_fov, k)
                    ==> all.len() > 0
        }),
{
    let node = map.node(raw as int);
    let left = node.left_child - 0x8000;
    let right = node.right_child - 0x8000;
    let below = (depth - 1) as nat;
    let from_left = map.walk(pos, in_fov, node.left_child, below);
    let from_right = map.walk(pos, in_fov, node.right_child, below);
    let all = map.walk(pos, in_fov, raw, depth);
    lemma_walk_near_then_far(map, pos, in_fov, raw, depth);
    assert(all.len() == from_left.len() + from_right.len());
    assert(from_left == map.leaf_segs(left, in_fov, map.sub_sector_len(left)));
    assert(from_right == map.leaf_segs(right, in_fov, map.sub_sector_len(right)));
    lemma_leaf_segs_are_marked(map, left, in_fov, map.sub_sector_len(left));
    lemma_leaf_segs_are_marked(map, right, in_fov, map.sub_sector_len(right));
    assert forall|k: int|
        0 <= k < map.sub_sector_len(left) && #[trigger] leaf_marked(
            map,
            left,
            in_fov,
            k,
        ) implies all.len() > 0 by {
        lemma_leaf_segs_keep_marked(map, left, in_fov, map.sub_sector_len(left), k);
    }
    assert forall|k: int|
        0 <= k < map.sub_sector_len(right) && #[trigger] leaf_marked(
            map,
            right,
            in_fov,
            k,
        ) implies all.len() > 0 by {
        lemma_leaf_segs_keep_marked(map, right, in_fov, map.sub_sector_len(right), k);
    }
}

/// A tree that can be walked within some depth can be walked within any
/// greater depth.
pub proof fn lemma_tree_wf_deeper(map: MapDataView, raw: u16, d1: nat, d2: nat)
    requires
        map.tree_wf(raw, d1),
        d1 <= d2,
    ensures
        map.tree_wf(raw, d2),
    decreases d1,
{
    match node_ref_of(raw) {
        NodeRef::Leaf(_) => {},
        NodeRef::Internal(idx) => {
            let node = map.node(idx as int);
            lemma_tree_wf_deeper(map, node.left_child, (d1 - 1) as nat, (d2 - 1) as nat);
            lemma_tree_wf_deeper(map, node.right_child, (d1 - 1) as nat, (d2 - 1) as nat);
        },
    }
}

/// The height of a well-formed tree does not depend on the depth within
/// which it is looked for.
pub proof fn lemma_height_depth(map: MapDataView, raw: u16, d1: nat, d2: nat)
    requires
        map.tree_wf(raw, d1),
        map.tree_wf(raw, d2),
    ensures
        map.height(raw, d1) == map.height(raw, d2),
    decreases d1,
{
    match node_ref_of(raw) {
        NodeRef::Leaf(_) => {},
        NodeRef::Internal(idx) => {
            let node = map.node(idx as int);
            lemma_height_depth(map, node.left_child, (d1 - 1) as nat, (d2 - 1) as nat);
            lemma_height_depth(map, node.right_child, (d1 - 1) as nat, (d2 - 1) as nat);
        },
    }
}

/// A well-formed tree can be walked within its height.
pub proof fn lemma_height_suffices(map: MapDataView, raw: u16, depth: nat)
    requires
        map.tree_wf(raw, depth),
    ensures
        map.height(raw, depth) <= depth,
        map.tree_wf(raw, map.height(raw, depth)),
    decreases depth,
{
    match node_ref_of(raw) {
        NodeRef::Leaf(_) => {},
        NodeRef::Internal(idx) => {
            let node = map.node(idx as int);
            let below = (depth - 1) as nat;
            lemma_height_suffices(map, node.left_child, below);
            lemma_height_suffices(map, node.right_child, below);
            let left = map.height(node.left_child, below);
            let right = map.height(node.right_child, below);
            let most = if left >= right {
                left
            } else {
                right
            };
            lemma_tree_wf_deeper(map, node.left_child, left, most);
            lemma_tree_wf_deeper(map, node.right_child, right, most);
            assert(map.height(raw, depth) == most + 1);
        },
    }
}

/// The nodes on a longest way down are as many as the tree is high, and
/// each is a node of the level whose own tree is no higher.
pub proof fn lemma_spine(map: MapDataView, raw: u16, depth: nat)
    requires
        map.tree_wf(raw, depth),
    ensures
        map.spine(raw, depth).finite(),
        map.spine(raw, depth).len() == map.height(raw, depth),
        forall|x: int| #[trigger]
            map.spine(raw, depth).contains(x) ==> 0 <= x < map.node_count() && x < 0x8000
                && map.tree_wf(x as u16, depth) && 1 <= map.height(x as u16, depth) <= map.height(
                raw,
                depth,
            ),
    decreases depth,
{
    match node_ref_of(raw) {
        NodeRef::Leaf(_) => {},
        NodeRef::Internal(idx) => {
            let node = map.node(idx as int);
            let below = (depth - 1) as nat;
            let left = map.height(node.left_child, below);
            let right = map.height(node.right_child, below);
            let next = if left >= right {
                node.left_child
            } else {
                node.right_child
            };
            lemma_spine(map, next, below);
            let rest = map.spine(next, below);
            assert(map.spine(raw, depth) == rest.insert(idx as int));
            assert(map.height(raw, depth) == map.height(next, below) + 1);
            assert forall|x: int| #[trigger] rest.contains(x) implies map.tree_wf(x as u16, depth)
                && map.height(x as u16, depth) == map.height(x as u16, below) by {
                lemma_tree_wf_deeper(map, x as u16, below, depth);
                lemma_height_depth(map, x as u16, below, depth);
            }
            if rest.contains(idx as int) {
                assert(map.height(idx, depth) <= map.height(next, below));
            }
            assert(!rest.contains(idx as int));
            assert(idx as int * NODE_SIZE as int + NODE_SIZE as int <= map.nodes.len());
        },
    }
}

/// A tree that can be walked at all can be walked within as many levels
/// as the level has nodes: no node is met twice on a way down.
pub proof fn lemma_walkable_within_node_count(map: MapDataView)
    requires
        map.walkable(),
    ensures
        map.tree_wf(map.root(), map.node_count() as nat),
{
    let depth = choose|depth: nat| #[trigger] map.tree_wf(map.root(), depth);
    lemma_height_suffices(map, map.root(), depth);
    lemma_spine(map, map.root(), depth);
    let spine = map.spine(map.root(), depth);
    let all = vstd::set_lib::set_int_range(0, map.node_count());
    vstd::set_lib::lemma_int_range(0, map.node_count());
    assert(spine.subset_of(all));
    vstd::set_lib::lemma_len_subset(spine, all);
    lemma_tree_wf_deeper(map, map.root(), map.height(map.root(), depth), map.node_count() as nat);
}

/// At a node, the walk is the walk of the child on the viewer's side
/// followed by the walk of the other child: what is nearer comes first.
pub proof fn lemma_walk_near_then_far(
    map: MapDataView,
    pos: Vertex,
    in_fov: Seq<bool>,
    raw: u16,
    depth: nat,
)
    requires
        raw < 0x8000,
        depth > 0,
    ensures
        cross_product(pos, map.node(raw as int).vect_orig, map.node(raw as int).vect_dir) <= 0
            ==> map.walk(pos, in_fov, raw, depth) == map.walk(
            pos,
            in_fov,
            map.node(raw as int).left_child,
            (depth - 1) as nat,
        ) + map.walk(pos, in_fov, map.node(raw as int).right_child, (depth - 1) as nat),
        cross_product(pos, map.node(raw as int).vect_orig, map.node(raw as int).vect_dir) > 0
            ==> map.walk(pos, in_fov, raw, depth) == map.walk(
            pos,
            in_fov,
            map.node(raw as int).right_child,
            (depth - 1) as nat,
        ) + map.walk(pos, in_fov, map.node(raw as int).left_child, (depth - 1) as nat),
{
}

/// A walk that stays in a well-formed tree does not depend on the depth
/// allowed for it.
pub proof fn lemma_walk_depth(
    map: MapDataView,
    pos: Vertex,
    in_fov: Seq<bool>,
    raw: u16,
    d1: nat,
    d2: nat,
)
    requires
        map.tree_wf(raw, d1),
        map.tree_wf(raw, d2),
    ensures
        map.walk(pos, in_fov, raw, d1) == map.walk(pos, in_fov, raw, d2),
    decreases d1,
{
    match node_ref_of(raw) {
        NodeRef::Leaf(_) => {},
        NodeRef::Internal(idx) => {
            let node = map.node(idx as int);
            lemma_walk_depth(map, pos, in_fov, node.left_child, (d1 - 1) as nat, (d2 - 1) as nat);
            lemma_walk_depth(map, pos, in_fov, node.right_child, (d1 - 1) as nat, (d2 - 1) as nat);
        },
    }
}

/// Whether the tree below the child index `node_idx` can be walked within
/// `depth` levels of nodes.
pub fn check_tree(map_data: &MapData, node_idx: u16, depth: usize) -> (ok: bool)
    ensures
        ok == map_data@.tree_wf(node_idx, depth as nat),
    decreases depth,
{
    match NodeRef::from_raw(node_idx) {
        NodeRef::Leaf(idx) => map_data.sub_sector_is_decodable(idx as usize),
        NodeRef::Internal(idx) => {
            if depth == 0 || idx as usize >= map_data.node_count() {
                return false;
            }
            let node = map_data.bsp_node(idx as usize);
            let (kid1, kid2) = node.child_indices_based_on_point_pos(Vertex { x: 0, y: 0 });
            check_tree(map_data, kid1, depth - 1) && check_tree(map_data, kid2, depth - 1)
        },
    }
}

/// Whether the partition tree can be walked from its root within `depth`
/// levels of nodes. A tree that passes is walkable, and with a depth of
/// at least the number of nodes every walkable tree passes.
pub fn check_walkable(map_data: &MapData, depth: usize) -> (ok: bool)
    ensures
        ok == (map_data@.node_count() >= 1 && map_data@.tree_wf(map_data@.root(), depth as nat)),
        ok ==> map_data@.walkable(),
        depth >= map_data@.node_count() ==> ok == map_data@.walkable(),
{
    if map_data.node_count() == 0 {
        return false;
    }
    proof {
        if map_data@.walkable() && depth >= map_data@.node_count() {
            lemma_walkable_within_node_count(map_data@);
            lemma_tree_wf_deeper(
                map_data@,
                map_data@.root(),
                map_data@.node_count() as nat,
                depth as nat,
            );
        }
    }
    let ok: bool = check_tree(map_data, map_data.root_bsp_node_idx(), depth);
    proof {
        if ok {
            assert(map_data@.tree_wf(map_data@.root(), depth as nat));
        }
    }
    ok
}

/// The contents of a level in play.
pub ghost struct ActiveLevelView {
    pub map: MapDataView,
    pub player: Thing,
    pub amap_center: Vertex,
    pub flags: u32,
    pub seen_lines: Seq<u8>,
}

impl ActiveLevelView {
    /// Whether the wall of the given index was marked as seen.
    pub open spec fn line_seen(self, line_idx: u16) -> bool {
        table_bit(self.seen_lines, line_idx as int)
    }

    /// Whether a wall counts as seen on the map: flagged as always shown,
    /// or marked as seen.
    pub open spec fn counts_as_seen(self, line_idx: u16, line: LineDef) -> bool {
        (line.flags & LINE_ALWAYS_ON_AMAP) != 0 || self.line_seen(line_idx)
    }

    /// Whether the colour of a wall depends on the sectors on its two sides.
    pub open spec fn color_by_sectors(self, line_idx: u16, line: LineDef) -> bool {
        let extras = (self.flags & FLAG_AUTOMAP_EXTRA_COLORS) != 0;
        let dont_show = (line.flags & LINE_NEVER_ON_AMAP) != 0;
        &&& !(dont_show && !extras)
        &&& self.counts_as_seen(line_idx, line)
        &&& !(extras && ((line.flags & LINE_SECRET) != 0 || line.special_type != 0 || dont_show))
        &&& (line.flags & LINE_TWO_SIDED) != 0
    }

    /// The colour in which the map shows a wall; black walls are not drawn.
    pub open spec fn line_color(self, line_idx: u16, line: LineDef) -> RGB {
        let extras = (self.flags & FLAG_AUTOMAP_EXTRA_COLORS) != 0;
        let dont_show = (line.flags & LINE_NEVER_ON_AMAP) != 0;
        if dont_show && !extras {
            black()
        } else if !self.counts_as_seen(line_idx, line) {
            if (self.flags & FLAG_HAS_COMPUTER_MAP) == 0 {
                black()
            } else {
                cyan()
            }
        } else if extras && (line.flags & LINE_SECRET) != 0 {
            green()
        } else if extras && line.special_type != 0 {
            blue()
        } else if extras && dont_show {
            black()
        } else if (line.flags & LINE_TWO_SIDED) != 0 {
            let left = self.map.side_sector(line.left_side_idx);
            let right = self.map.side_sector(line.right_side_idx);
            if left.floor_height != right.floor_height {
                choco()
            } else if left.ceiling_height != right.ceiling_height {
                yellow()
            } else {
                black()
            }
        } else if (line.flags & LINE_BLOCKS) != 0 {
            red()
        } else {
            pink()
        }
    }

    /// What `line_color` needs of its input: the wall's bit in the table
    /// of seen walls where the table is consulted, and valid sides where
    /// the sectors decide.
    pub open spec fn line_color_defined(self, line_idx: u16, line: LineDef) -> bool {
        let extras = (self.flags & FLAG_AUTOMAP_EXTRA_COLORS) != 0;
        let dont_show = (line.flags & LINE_NEVER_ON_AMAP) != 0;
        &&& (!(dont_show && !extras) && (line.flags & LINE_ALWAYS_ON_AMAP) == 0) ==> line_idx
            / 8 < self.seen_lines.len()
        &&& self.color_by_sectors(line_idx, line) ==> self.map.line_sides_valid(line)
    }
}

/// A level in play.
pub struct ActiveLevel {
    map_data: MapData,
    player: Thing,
    amap_center: Vertex,
    flags: u32,
    seen_lines: Vec<u8>,
}

impl View for ActiveLevel {
    type V = ActiveLevelView;

    closed spec fn view(&self) -> ActiveLevelView {
        ActiveLevelView {
            map: self.map_data@,
            player: self.player,
            amap_center: self.amap_center,
            flags: self.flags,
            seen_lines: self.seen_lines@,
        }
    }
}

impl ActiveLevel {
    /// Starts a level: the player stands at the level's player start, the
    /// map is centred there, no wall was seen, and the low sixteen level
    /// flags are set.
    pub fn new(map_data: MapData) -> (r: ActiveLevel)
        requires
            player_from(map_data@.things, 0).is_some(),
        ensures
            r@.map == map_data@,
            r@.player == player_from(map_data@.things, 0).unwrap(),
            r@.amap_center == r@.player.pos,
            r@.flags == 0xFFFF,
            r@.seen_lines == Seq::new(((map_data@.linedef_count() + 7) / 8) as nat, |i: int| 0u8),
    {
        let player: Thing = find_player_thing(&map_data).unwrap();
        let count: usize = map_data.linedef_count();
        let padded: usize = count + 7;
        let seen_lines_size: usize = padded >> 3;
        assert(seen_lines_size == padded / 8) by (bit_vector)
            requires
                seen_lines_size == padded >> 3,
        ;
        let seen_lines: Vec<u8> = vec![0u8; seen_lines_size];
        assert(seen_lines@ =~= Seq::new(seen_lines_size as nat, |i: int| 0u8));
        ActiveLevel { map_data, player, amap_center: player.pos, flags: 0xFFFF, seen_lines }
    }

    pub fn name(&self) -> (r: &str)
        ensures
            r@ == self@.map.name,
    {
        self.map_data.name()
    }

    /// The level's data.
    pub fn map_data(&self) -> (r: &MapData)
        ensures
            r@ == self@.map,
    {
        &self.map_data
    }

    /// The player as the level holds it.
    pub fn player(&self) -> (r: Thing)
        ensures
            r == self@.player,
    {
        self.player
    }

    /// Moves the player to a new position.
    pub fn set_player_pos(&mut self, pos: Vertex)
        ensures
            final(self)@ == (ActiveLevelView {
                player: Thing { pos, ..old(self)@.player },
                ..old(self)@
            }),
    {
        self.player.pos = pos;
    }

    /// The point of the level at the centre of the map view.
    pub fn automap_center(&self) -> (r: Vertex)
        ensures
            r == self@.amap_center,
    {
        self.amap_center
    }

    /// Moves the centre of the map view to the given `x`, kept within the
    /// level's bounding box; tells whether it had to be clamped.
    pub fn move_automap_x(&mut self, x: i32) -> (was_clamped: bool)
        ensures
            was_clamped == (x < old(self)@.map.bound_min.x || x > old(self)@.map.bound_max.x),
            final(self)@ == (ActiveLevelView {
                amap_center: Vertex {
                    x: if x < old(self)@.map.bound_min.x {
                        old(self)@.map.bound_min.x
                    } else if x > old(self)@.map.bound_max.x {
                        old(self)@.map.bound_max.x
                    } else {
                        x
                    },
                    y: old(self)@.amap_center.y,
                },
                ..old(self)@
            }),
    {
        let (cv, was_clamped) = clamp_value(x, self.map_data.min_x(), self.map_data.max_x());
        self.amap_center.x = cv;
        was_clamped
    }

    /// Moves the centre of the map view to the given `y`, kept within the
    /// level's bounding box; tells whether it had to be clamped.
    pub fn move_automap_y(&mut self, y: i32) -> (was_clamped: bool)
        ensures
            was_clamped == (y < old(self)@.map.bound_min.y || y > old(self)@.map.bound_max.y),
            final(self)@ == (ActiveLevelView {
                amap_center: Vertex {
                    x: old(self)@.amap_center.x,
                    y: if y < old(self)@.map.bound_min.y {
                        old(self)@.map.bound_min.y
                    } else if y > old(self)@.map.bound_max.y {
                        old(self)@.map.bound_max.y
                    } else {
                        y
                    },
                },
                ..old(self)@
            }),
    {
        let (cv, was_clamped) = clamp_value(y, self.map_data.min_y(), self.map_data.max_y());
        self.amap_center.y = cv;
        was_clamped
    }

    /// Switches between the map and the 3D view.
    pub fn toggle_automap(&mut self)
        ensures
            final(self)@ == (ActiveLevelView {
                flags: old(self)@.flags ^ FLAG_AUTOMAP_ON,
                ..old(self)@
            }),
    {
        self.flags = self.flags ^ FLAG_AUTOMAP_ON;
    }

    pub fn is_automap_on(&self) -> (r: bool)
        ensures
            r == ((self@.flags & FLAG_AUTOMAP_ON) != 0),
    {
        (self.flags & FLAG_AUTOMAP_ON) != 0
    }

    /// Marks the wall of the given index as seen.
    pub fn line_was_seen(&mut self, line_idx: u16)
        requires
            line_idx / 8 < old(self)@.seen_lines.len(),
        ensures
            final(self)@ == (ActiveLevelView {
                seen_lines: old(self)@.seen_lines.update(
                    line_idx as int / 8,
                    old(self)@.seen_lines[line_idx as int / 8] | (1u8 << ((line_idx % 8) as u8)),
                ),
                ..old(self)@
            }),
    {
        let byte_idx: usize = (line_idx >> 3) as usize;
        let shift: u16 = line_idx & 0x07;
        assert(byte_idx == line_idx / 8 && shift == line_idx % 8 && shift < 8) by (bit_vector)
            requires
                byte_idx == (line_idx >> 3) as usize,
                shift == line_idx & 0x07,
        ;
        let bit_mask: u8 = 1u8 << (shift as u8);
        let byte: u8 = self.seen_lines[byte_idx];
        self.seen_lines.set(byte_idx, byte | bit_mask);
    }

    /// Whether the wall of the given index was marked as seen.
    pub fn was_line_seen(&self, line_idx: u16) -> (r: bool)
        requires
            line_idx / 8 < self@.seen_lines.len(),
        ensures
            r == self@.line_seen(line_idx),
    {
        let byte_idx: usize = (line_idx >> 3) as usize;
        let shift: u16 = line_idx & 0x07;
        assert(byte_idx == line_idx / 8 && shift == line_idx % 8 && shift < 8) by (bit_vector)
            requires
                byte_idx == (line_idx >> 3) as usize,
                shift == line_idx & 0x07,
        ;
        let bit_mask: u8 = 1u8 << (shift as u8);
        (self.seen_lines[byte_idx] & bit_mask) != 0
    }

    /// Whether the colour of a wall depends on the sectors on its two
    /// sides, so that its sides must be valid.
    pub fn color_needs_sectors(&self, line_idx: u16, line: &LineDef) -> (r: bool)
        requires
            line_idx / 8 < self@.seen_lines.len(),
        ensures
            r == self@.color_by_sectors(line_idx, *line),
    {
        let f: u16 = line.flags;
        let extras: bool = (self.flags & FLAG_AUTOMAP_EXTRA_COLORS) != 0;
        let dont_show: bool = (f & LINE_NEVER_ON_AMAP) != 0;
        if dont_show && !extras {
            return false;
        }
        let was_seen: bool = (f & LINE_ALWAYS_ON_AMAP) != 0 || self.was_line_seen(line_idx);
        let by_extras: bool = extras && ((f & LINE_SECRET) != 0 || line.special_type != 0
            || dont_show);
        was_seen && !by_extras && (f & LINE_TWO_SIDED) != 0
    }

    /// The colour in which the map shows a wall.
    pub fn pick_automap_line_color(&self, line_idx: u16, line: &LineDef) -> (c: RGB)
        requires
            self@.line_color_defined(line_idx, *line),
        ensures
            c == self@.line_color(line_idx, *line),
    {
        let f: u16 = line.flags;
        let extras: bool = (self.flags & FLAG_AUTOMAP_EXTRA_COLORS) != 0;
        let dont_show: bool = (f & LINE_NEVER_ON_AMAP) != 0;
        if dont_show && !extras {
            return black();
        }
        let was_seen: bool = (f & LINE_ALWAYS_ON_AMAP) != 0 || self.was_line_seen(line_idx);
        if !was_seen {
            if (self.flags & FLAG_HAS_COMPUTER_MAP) == 0 {
                return black();
            } else {
                return cyan();
            }
        }
        if extras {
            if (f & LINE_SECRET) != 0 {
                return green();
            }
            if line.special_type != 0 {
                return blue();
            }
            if dont_show {
                return black();
            }
        }
        if (f & LINE_TWO_SIDED) != 0 {
            let details = self.get_line_details(line);
            let s1: Sector = details.left_sector.unwrap();
            let s2: Sector = details.right_sector.unwrap();
            return if s1.floor_height != s2.floor_height {
                choco()
            } else if s1.ceiling_height != s2.ceiling_height {
                yellow()
            } else {
                black()
            };
        }
        if (f & LINE_BLOCKS) != 0 {
            return red();
        }
        pink()
    }

    /// Whether a side of the given index and the sector it faces exist.
    pub fn side_is_decodable(&self, idx: u16) -> (r: bool)
        ensures
            r == self@.map.side_decodable(idx),
    {
        if idx as usize >= self.map_data.sidedef_count() {
            return false;
        }
        let side = self.map_data.sidedef(idx as usize);
        (side.sector_idx as usize) < self.map_data.sector_count()
    }

    /// Whether a wall keeps the invariant of its sides.
    pub fn line_sides_are_valid(&self, linedef: &LineDef) -> (r: bool)
        ensures
            r == self@.map.line_sides_valid(*linedef),
    {
        let two_sided: bool = (linedef.flags & LINE_TWO_SIDED) != 0;
        let has_left: bool = linedef.left_side_idx != NO_SIDE;
        linedef.right_side_idx != NO_SIDE && self.side_is_decodable(linedef.right_side_idx)
            && two_sided == has_left && (!has_left || self.side_is_decodable(
            linedef.left_side_idx,
        ))
    }

    /// Looks up the sides of a wall and the sectors they face.
    pub fn get_line_details(&self, linedef: &LineDef) -> (details: LineDefDetails)
        requires
            self@.map.line_sides_valid(*linedef),
        ensures
            details == self@.map.line_details(*linedef),
    {
        let mut details = LineDefDetails {
            left_sidedef: None,
            left_sector: None,
            right_sidedef: None,
            right_sector: None,
        };
        if linedef.left_side_idx != NO_SIDE {
            let side = self.map_data.sidedef(linedef.left_side_idx as usize);
            let sect = self.map_data.sector(side.sector_idx as usize);
            details.left_sidedef = Some(side);
            details.left_sector = Some(sect);
        }
        if linedef.right_side_idx != NO_SIDE {
            let side = self.map_data.sidedef(linedef.right_side_idx as usize);
            let sect = self.map_data.sector(side.sector_idx as usize);
            details.right_sidedef = Some(side);
            details.right_sector = Some(sect);
        }
        details
    }

    /// The segs that the player may see, near to far: a walk of the whole
    /// partition tree from the player's position that keeps the segs
    /// marked in `in_fov`, which says for each seg of the level whether it
    /// passed the field-of-view test. Every seg returned is a seg of the
    /// level that passed it.
    pub fn player_visible_segments(&self, in_fov: &[bool]) -> (r: Vec<Seg>)
        requires
            self@.map.walkable(),
            in_fov@.len() == self@.map.seg_count(),
        ensures
            forall|depth: nat| #[trigger]
                self@.map.tree_wf(self@.map.root(), depth) ==> r@ == self@.map.walk(
                    self@.player.pos,
                    in_fov@,
                    self@.map.root(),
                    depth,
                ),
            forall|j: int| 0 <= j < r@.len() ==> is_marked_seg(self@.map, in_fov@, #[trigger] r@[j]),
    {
        let mut sect_collector: Vec<Seg> = Vec::with_capacity(self.map_data.seg_count() >> 1);
        let start_idx: u16 = self.map_data.root_bsp_node_idx();
        let ghost depth: nat = choose|depth: nat| self@.map.tree_wf(start_idx, depth);
        self.render_node(in_fov, start_idx, &mut sect_collector, Ghost(depth));
        proof {
            assert forall|d: nat| #[trigger] self@.map.tree_wf(start_idx, d) implies sect_collector@
                == self@.map.walk(self@.player.pos, in_fov@, start_idx, d) by {
                lemma_walk_depth(self@.map, self@.player.pos, in_fov@, start_idx, depth, d);
            }
            lemma_walk_members(self@.map, self@.player.pos, in_fov@, start_idx, depth);
        }
        sect_collector
    }

    /// Walks the tree below a child index, the side of the player first.
    fn render_node(
        &self,
        in_fov: &[bool],
        node_idx: u16,
        seg_collector: &mut Vec<Seg>,
        Ghost(depth): Ghost<nat>,
    )
        requires
            self@.map.tree_wf(node_idx, depth),
            in_fov@.len() == self@.map.seg_count(),
        ensures
            final(seg_collector)@ == old(seg_collector)@ + self@.map.walk(
                self@.player.pos,
                in_fov@,
                node_idx,
                depth,
            ),
        decreases depth,
    {
        match NodeRef::from_raw(node_idx) {
            NodeRef::Internal(idx) => {
                let node = self.map_data.bsp_node(idx as usize);
                let (kid1, kid2) = node.child_indices_based_on_point_pos(self.player.pos);
                let ghost before = seg_collector@;
                self.render_node(in_fov, kid1, seg_collector, Ghost((depth - 1) as nat));
                self.render_node(in_fov, kid2, seg_collector, Ghost((depth - 1) as nat));
                assert(seg_collector@ =~= before + self@.map.walk(
                    self@.player.pos,
                    in_fov@,
                    node_idx,
                    depth,
                ));
            },
            NodeRef::Leaf(idx) => {
                self.render_sub_sector(in_fov, idx, seg_collector);
            },
        }
    }

    /// Appends the marked segs of a sub-sector, in their order.
    pub fn render_sub_sector(&self, in_fov: &[bool], sect_idx: u16, seg_collector: &mut Vec<Seg>)
        requires
            self@.map.sub_sector_decodable(sect_idx as int),
            in_fov@.len() == self@.map.seg_count(),
        ensures
            final(seg_collector)@ == old(seg_collector)@ + self@.map.leaf_segs(
                sect_idx as int,
                in_fov@,
                self@.map.sub_sector_len(sect_idx as int),
            ),
    {
        let first: usize = self.map_data.sub_sector_first(sect_idx as usize);
        let sub_sector_segs: Vec<Seg> = self.map_data.sub_sector(sect_idx as usize);
        let ghost before = seg_collector@;
        let count: usize = sub_sector_segs.len();
        let mut i: usize = 0;
        while i < count
            invariant
                i <= count,
                count == sub_sector_segs@.len(),
                count == self@.map.sub_sector_len(sect_idx as int),
                first == self@.map.sub_sector_first(sect_idx as int),
                sub_sector_segs@ == self@.map.sub_sector(sect_idx as int),
                self@.map.sub_sector_decodable(sect_idx as int),
                in_fov@.len() == self@.map.seg_count(),
                seg_collector@ == before + self@.map.leaf_segs(sect_idx as int, in_fov@, i as int),
            decreases count - i,
        {
            assert(crate::map_items::seg_decodable(
                self@.map.segs,
                self@.map.sub_sector_first(sect_idx as int) + i,
                self@.map.vertexes,
            ));
            if in_fov[first + i] {
                seg_collector.push(sub_sector_segs[i]);
            }
            i += 1;
            assert(seg_collector@ =~= before + self@.map.leaf_segs(
                sect_idx as int,
                in_fov@,
                i as int,
            ));
        }
    }
}

} // verus!
