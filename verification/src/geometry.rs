//! Geometry primitives: disc fans and stroke quads.
//!
//! A tessellated vertex is not a pair of floating-point numbers here but a
//! symbolic [`VertexSlot`] recording which point of which primitive the
//! vertex is.  The rendering layer evaluates each slot to a position with
//! trigonometry; every structural fact — how many vertices a primitive
//! owns, and which vertex each index refers to — is decided and proved in
//! this module.
use vstd::prelude::*;

use crate::coord::Point;

verus! {

/// One vertex of the tessellation, described symbolically.
#[derive(Clone, Copy, Debug, PartialEq, Eq, Structural)]
pub enum VertexSlot {
    /// The center of a disc of the given radius.
    DiscCenter { center: Point, radius: i64 },
    /// Rim point `seg` of a disc approximated by `segment_count` segments:
    /// the point at angle `seg * 2*pi / segment_count`, measured clockwise
    /// from the vertical axis, at distance `radius` from `center`.
    DiscRim { center: Point, radius: i64, seg: usize, segment_count: usize },
    /// Corner `corner` (0 to 3) of the quad stroking the segment from `p1`
    /// to `p2` with half-width `radius`.  Corners 0 and 1 sit on `p1`,
    /// corners 2 and 3 on `p2`; even corners are offset to one side of the
    /// segment, odd corners to the other.
    StrokeCorner { p1: Point, p2: Point, radius: i64, corner: usize },
    /// A path point used verbatim as a vertex of a filled polygon.
    FillPoint { point: Point },
}

/// The rim slots of a disc, for segments `i` up to `n`.
pub open spec fn disc_rim_range(center: Point, radius: i64, n: int, i: int) -> Seq<VertexSlot>
    decreases n - i,
{
    if i >= n {
        Seq::empty()
    } else {
        seq![VertexSlot::DiscRim { center, radius, seg: i as usize, segment_count: n as usize }]
            + disc_rim_range(center, radius, n, i + 1)
    }
}

/// The vertices of a disc fan: the center, then rim points 0 to `n - 1`.
pub open spec fn disc_slot_seq(center: Point, radius: i64, n: int) -> Seq<VertexSlot> {
    seq![VertexSlot::DiscCenter { center, radius }] + disc_rim_range(center, radius, n, 0)
}

/// The three indices of triangle `j` of a disc fan whose center sits at
/// vertex `origin`: the center, rim `j`, and rim `(j + 1) mod n`.
pub open spec fn disc_tri(origin: int, n: int, j: int) -> Seq<u16> {
    seq![
        origin as u16,
        (origin + j + 1) as u16,
        if j + 1 == n { (origin + 1) as u16 } else { (origin + j + 2) as u16 },
    ]
}

/// The indices of triangles `j` up to `n` of a disc fan.
pub open spec fn disc_index_range(origin: int, n: int, j: int) -> Seq<u16>
    decreases n - j,
{
    if j >= n {
        Seq::empty()
    } else {
        disc_tri(origin, n, j) + disc_index_range(origin, n, j + 1)
    }
}

/// The full index list of a disc fan with `n` segments based at `origin`.
pub open spec fn disc_index_seq(origin: int, n: int) -> Seq<u16> {
    disc_index_range(origin, n, 0)
}

/// The four corner slots of a stroke quad.
pub open spec fn stroke_slot_seq(p1: Point, p2: Point, radius: i64) -> Seq<VertexSlot> {
    seq![
        VertexSlot::StrokeCorner { p1, p2, radius, corner: 0 },
        VertexSlot::StrokeCorner { p1, p2, radius, corner: 1 },
        VertexSlot::StrokeCorner { p1, p2, radius, corner: 2 },
        VertexSlot::StrokeCorner { p1, p2, radius, corner: 3 },
    ]
}

/// The six indices of a stroke quad based at `origin`: triangles 0-1-2
/// and 1-2-3.
pub open spec fn stroke_index_seq(origin: int) -> Seq<u16> {
    seq![
        origin as u16,
        (origin + 1) as u16,
        (origin + 2) as u16,
        (origin + 1) as u16,
        (origin + 2) as u16,
        (origin + 3) as u16,
    ]
}

pub proof fn lemma_disc_rim_range_len(center: Point, radius: i64, n: int, i: int)
    requires
        0 <= i <= n,
    ensures
        disc_rim_range(center, radius, n, i).len() == n - i,
    decreases n - i,
{
    if i < n {
        lemma_disc_rim_range_len(center, radius, n, i + 1);
    }
}

pub proof fn lemma_disc_index_range_len(origin: int, n: int, j: int)
    requires
        0 <= j <= n,
    ensures
        disc_index_range(origin, n, j).len() == 3 * (n - j),
    decreases n - j,
{
    if j < n {
        lemma_disc_index_range_len(origin, n, j + 1);
    }
}

proof fn lemma_disc_index_range_bounds(origin: int, n: int, j: int)
    requires
        0 <= origin,
        3 <= n,
        0 <= j <= n,
        origin + n + 1 <= 0x10000,
    ensures
        forall|k: int|
            0 <= k < disc_index_range(origin, n, j).len()
                ==> origin <= #[trigger] disc_index_range(origin, n, j)[k] < origin + n + 1,
    decreases n - j,
{
    if j < n {
        lemma_disc_index_range_bounds(origin, n, j + 1);
        let tri = disc_tri(origin, n, j);
        let rest = disc_index_range(origin, n, j + 1);
        assert(disc_index_range(origin, n, j) == tri + rest);
        assert(origin <= tri[0] < origin + n + 1);
        assert(origin <= tri[1] < origin + n + 1);
        assert(origin <= tri[2] < origin + n + 1);
        assert forall|k: int| 0 <= k < (tri + rest).len()
            implies origin <= #[trigger] (tri + rest)[k] < origin + n + 1 by {
            if k < 3 {
                assert((tri + rest)[k] == tri[k]);
            } else {
                assert((tri + rest)[k] == rest[k - 3]);
            }
        }
    }
}

proof fn lemma_disc_rim_range_index(center: Point, radius: i64, n: int, i: int, k: int)
    requires
        0 <= i,
        0 <= k,
        i + k < n,
    ensures
        disc_rim_range(center, radius, n, i).len() > k,
        disc_rim_range(center, radius, n, i)[k] == (VertexSlot::DiscRim {
            center,
            radius,
            seg: (i + k) as usize,
            segment_count: n as usize,
        }),
    decreases k,
{
    lemma_disc_rim_range_len(center, radius, n, i);
    if k > 0 {
        lemma_disc_rim_range_index(center, radius, n, i + 1, k - 1);
    }
}

/// Which slot sits at each position of a disc fan: the center at 0, rim
/// point `k - 1` at each later position `k`.
pub proof fn lemma_disc_slot_seq_index(center: Point, radius: i64, n: int, k: int)
    requires
        0 <= k <= n,
    ensures
        disc_slot_seq(center, radius, n).len() == n + 1,
        k == 0 ==> disc_slot_seq(center, radius, n)[k] == (VertexSlot::DiscCenter {
            center,
            radius,
        }),
        k >= 1 ==> disc_slot_seq(center, radius, n)[k] == (VertexSlot::DiscRim {
            center,
            radius,
            seg: (k - 1) as usize,
            segment_count: n as usize,
        }),
{
    lemma_disc_rim_range_len(center, radius, n, 0);
    if k >= 1 {
        lemma_disc_rim_range_index(center, radius, n, 0, k - 1);
    }
}

/// Law: a disc fan with `n` segments has exactly `n + 1` vertices and
/// exactly `3 * n` indices, and every one of its indices refers into the
/// fan's own range of vertices, `origin` up to `origin + n + 1`.
pub proof fn lemma_disc_fragment_shape(center: Point, radius: i64, origin: int, n: int)
    requires
        3 <= n,
        0 <= origin,
        origin + n + 1 <= 0x10000,
    ensures
        disc_slot_seq(center, radius, n).len() == n + 1,
        disc_index_seq(origin, n).len() == 3 * n,
        forall|k: int|
            0 <= k < 3 * n
                ==> origin <= #[trigger] disc_index_seq(origin, n)[k] < origin + n + 1,
{
    lemma_disc_rim_range_len(center, radius, n, 0);
    lemma_disc_index_range_len(origin, n, 0);
    lemma_disc_index_range_bounds(origin, n, 0);
}

/// Law: a stroke quad has exactly 4 vertices and exactly 6 indices, and
/// every one of its indices refers into the quad's own range of vertices.
pub proof fn lemma_stroke_fragment_shape(p1: Point, p2: Point, radius: i64, origin: int)
    requires
        0 <= origin,
        origin + 4 <= 0x10000,
    ensures
        stroke_slot_seq(p1, p2, radius).len() == 4,
        stroke_index_seq(origin).len() == 6,
        forall|k: int|
            0 <= k < 6 ==> origin <= #[trigger] stroke_index_seq(origin)[k] < origin + 4,
{
}

/// Appends a disc fan for `center` to a shared vertex/index stream whose
/// next free vertex is `origin`.
pub fn fill_buffer_with_a_point(
    vertices: &mut Vec<VertexSlot>,
    indices: &mut Vec<u16>,
    origin: u16,
    center: Point,
    radius: i64,
    segment_count: usize,
)
    requires
        3 <= segment_count,
        origin + segment_count + 1 <= 0x10000,
        radius >= 0,
    ensures
        final(vertices)@ == old(vertices)@
            + disc_slot_seq(center, radius, segment_count as int),
        final(indices)@ == old(indices)@ + disc_index_seq(origin as int, segment_count as int),
{
    let ghost n = segment_count as int;
    vertices.push(VertexSlot::DiscCenter { center, radius });
    vertices.push(VertexSlot::DiscRim { center, radius, seg: 0, segment_count });
    proof {
        assert(old(vertices)@ + disc_slot_seq(center, radius, n)
            =~= vertices@ + disc_rim_range(center, radius, n, 1));
    }
    let mut i: usize = 1;
    while i < segment_count
        invariant
            1 <= i <= segment_count,
            old(vertices)@ + disc_slot_seq(center, radius, n)
                =~= vertices@ + disc_rim_range(center, radius, n, i as int),
            old(indices)@ + disc_index_seq(origin as int, n)
                =~= indices@ + disc_index_range(origin as int, n, i - 1),
        decreases segment_count - i,
    {
        indices.push(origin);
        indices.push(origin + i as u16);
        indices.push(origin + i as u16 + 1);
        vertices.push(VertexSlot::DiscRim { center, radius, seg: i, segment_count });
        proof {
            assert(indices@ + disc_index_range(origin as int, n, i as int)
                =~= old(indices)@ + disc_index_seq(origin as int, n));
            assert(vertices@ + disc_rim_range(center, radius, n, i + 1)
                =~= old(vertices)@ + disc_slot_seq(center, radius, n));
        }
        i = i + 1;
    }
    indices.push(origin);
    indices.push(origin + segment_count as u16);
    indices.push(origin + 1);
    proof {
        assert(indices@ =~= old(indices)@ + disc_index_seq(origin as int, n));
        assert(vertices@ =~= old(vertices)@ + disc_slot_seq(center, radius, n));
    }
}

/// The disc fan marking a path point or the cursor: `segment_count + 1`
/// vertices (center first, then the rim) and `segment_count` triangles
/// fanned around the center, with indices based at `origin`.
pub fn disc_vertices(center: Point, radius: i64, segment_count: usize, origin: u16) -> (out: (
    Vec<VertexSlot>,
    Vec<u16>,
))
    requires
        3 <= segment_count,
        origin + segment_count + 1 <= 0x10000,
        radius >= 0,
    ensures
        out.0@ == disc_slot_seq(center, radius, segment_count as int),
        out.1@ == disc_index_seq(origin as int, segment_count as int),
        out.0@.len() == segment_count + 1,
        out.1@.len() == 3 * segment_count,
{
    let mut vertices: Vec<VertexSlot> = Vec::new();
    let mut indices: Vec<u16> = Vec::new();
    fill_buffer_with_a_point(&mut vertices, &mut indices, origin, center, radius, segment_count);
    proof {
        lemma_disc_fragment_shape(center, radius, origin as int, segment_count as int);
        assert(vertices@ =~= disc_slot_seq(center, radius, segment_count as int));
        assert(indices@ =~= disc_index_seq(origin as int, segment_count as int));
    }
    (vertices, indices)
}

/// Appends the quad stroking the segment from `p1` to `p2` to a shared
/// vertex/index stream whose next free vertex is `origin`, and returns how
/// many vertices the quad consumed.
pub fn draw_line(
    p1: Point,
    p2: Point,
    vertices: &mut Vec<VertexSlot>,
    indices: &mut Vec<u16>,
    radius: i64,
    origin: u16,
) -> (advance: u16)
    requires
        origin + 4 <= 0x10000,
        radius >= 0,
    ensures
        final(vertices)@ == old(vertices)@ + stroke_slot_seq(p1, p2, radius),
        final(indices)@ == old(indices)@ + stroke_index_seq(origin as int),
        advance == 4,
{
    vertices.push(VertexSlot::StrokeCorner { p1, p2, radius, corner: 0 });
    vertices.push(VertexSlot::StrokeCorner { p1, p2, radius, corner: 1 });
    vertices.push(VertexSlot::StrokeCorner { p1, p2, radius, corner: 2 });
    vertices.push(VertexSlot::StrokeCorner { p1, p2, radius, corner: 3 });

    indices.push(origin);
    indices.push(origin + 1);
    indices.push(origin + 2);

    indices.push(origin + 1);
    indices.push(origin + 2);
    indices.push(origin + 3);

    proof {
        assert(vertices@ =~= old(vertices)@ + stroke_slot_seq(p1, p2, radius));
        assert(indices@ =~= old(indices)@ + stroke_index_seq(origin as int));
    }
    4
}

/// The quad stroking the segment from `p1` to `p2` with half-width
/// `radius`: 4 corner vertices and 2 triangles (6 indices) based at
/// `origin`.
pub fn stroke_segment(p1: Point, p2: Point, radius: i64, origin: u16) -> (out: (
    Vec<VertexSlot>,
    Vec<u16>,
))
    requires
        origin + 4 <= 0x10000,
        radius >= 0,
    ensures
        out.0@ == stroke_slot_seq(p1, p2, radius),
        out.1@ == stroke_index_seq(origin as int),
        out.0@.len() == 4,
        out.1@.len() == 6,
{
    let mut vertices: Vec<VertexSlot> = Vec::new();
    let mut indices: Vec<u16> = Vec::new();
    draw_line(p1, p2, &mut vertices, &mut indices, radius, origin);
    proof {
        assert(vertices@ =~= stroke_slot_seq(p1, p2, radius));
        assert(indices@ =~= stroke_index_seq(origin as int));
    }
    (vertices, indices)
}

} // verus!
