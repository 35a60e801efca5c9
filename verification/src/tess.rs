//! The mathematical content of a full retessellation.
//!
//! A rebuild walks the path collection twice.  The first pass appends a
//! small disc fan for every point of every shape (the joint markers).  The
//! second pass walks the shapes again, stopping at the first empty one, and
//! appends for each shape its stroke quads, then — if the shape is filled —
//! its raw points followed by one triangle for every ordered triple of
//! them, and finally — if the shape is closed (not the active one) and has
//! at least two points — a stroke quad closing it.  Index values are vertex
//! positions in the shared stream, so every fragment is placed relative to
//! an origin: the number of vertices emitted before it.
use vstd::prelude::*;

use crate::coord::Point;
use crate::geometry::VertexSlot;
use crate::geometry::disc_index_seq;
use crate::geometry::disc_slot_seq;
use crate::geometry::stroke_index_seq;
use crate::geometry::stroke_slot_seq;
use crate::model::ShapeView;
use crate::model::shapes_wf;
use crate::model::spec_delete_path;

verus! {

/// First pass, vertices: one disc fan per point.
pub open spec fn discs_points(ps: Seq<Point>, radius: i64, n: int) -> Seq<VertexSlot>
    decreases ps.len(),
{
    if ps.len() == 0 {
        Seq::empty()
    } else {
        disc_slot_seq(ps[0], radius, n) + discs_points(ps.drop_first(), radius, n)
    }
}

/// First pass, indices: one disc fan per point, each consuming `n + 1`
/// vertex positions starting at `origin`.
pub open spec fn discs_points_idx(ps: Seq<Point>, origin: int, n: int) -> Seq<u16>
    decreases ps.len(),
{
    if ps.len() == 0 {
        Seq::empty()
    } else {
        disc_index_seq(origin, n) + discs_points_idx(ps.drop_first(), origin + n + 1, n)
    }
}

/// First pass over the whole collection, vertices.
pub open spec fn discs_shapes(shapes: Seq<ShapeView>, radius: i64, n: int) -> Seq<VertexSlot>
    decreases shapes.len(),
{
    if shapes.len() == 0 {
        Seq::empty()
    } else {
        discs_points(shapes[0].points, radius, n) + discs_shapes(shapes.drop_first(), radius, n)
    }
}

/// The number of points in the whole collection.
pub open spec fn total_points(shapes: Seq<ShapeView>) -> int
    decreases shapes.len(),
{
    if shapes.len() == 0 {
        0
    } else {
        shapes[0].points.len() + total_points(shapes.drop_first())
    }
}

/// First pass over the whole collection, indices.
pub open spec fn discs_shapes_idx(shapes: Seq<ShapeView>, origin: int, n: int) -> Seq<u16>
    decreases shapes.len(),
{
    if shapes.len() == 0 {
        Seq::empty()
    } else {
        discs_points_idx(shapes[0].points, origin, n) + discs_shapes_idx(
            shapes.drop_first(),
            origin + shapes[0].points.len() * (n + 1),
            n,
        )
    }
}

/// Stroke quads along a shape, connecting points `i - 1` and `i` for each
/// `i` from the given one up to the last point: vertices.
pub open spec fn strokes_slots(ps: Seq<Point>, radius: i64, i: int) -> Seq<VertexSlot>
    decreases ps.len() - i,
{
    if i >= ps.len() || i < 1 {
        Seq::empty()
    } else {
        stroke_slot_seq(ps[i - 1], ps[i], radius) + strokes_slots(ps, radius, i + 1)
    }
}

/// Stroke quads along a shape, indices; each quad consumes 4 vertex
/// positions.
pub open spec fn strokes_idx(ps: Seq<Point>, origin: int, i: int) -> Seq<u16>
    decreases ps.len() - i,
{
    if i >= ps.len() || i < 1 {
        Seq::empty()
    } else {
        stroke_index_seq(origin) + strokes_idx(ps, origin + 4, i + 1)
    }
}

/// The raw points of a filled shape, used verbatim as vertices.
pub open spec fn fill_slot_seq(ps: Seq<Point>) -> Seq<VertexSlot> {
    Seq::new(ps.len(), |i: int| VertexSlot::FillPoint { point: ps[i] })
}

/// Fill triangles, innermost level: triangles `(i, j, k')` for `k'` from
/// `k` up to `l`.
pub open spec fn fill_inner(origin: int, i: int, j: int, k: int, l: int) -> Seq<u16>
    decreases l - k,
{
    if k >= l {
        Seq::empty()
    } else {
        seq![(origin + i) as u16, (origin + j) as u16, (origin + k) as u16] + fill_inner(
            origin,
            i,
            j,
            k + 1,
            l,
        )
    }
}

/// Fill triangles, middle level: triangles `(i, j', k)` for `j'` from `j`
/// up to `l` and `k > j'`.
pub open spec fn fill_mid(origin: int, i: int, j: int, l: int) -> Seq<u16>
    decreases l - j,
{
    if j >= l {
        Seq::empty()
    } else {
        fill_inner(origin, i, j, j + 1, l) + fill_mid(origin, i, j + 1, l)
    }
}

/// Fill triangles, outer level: triangles `(i', j, k)` for `i'` from `i`
/// up to `l` and `k > j > i'`.
pub open spec fn fill_outer(origin: int, i: int, l: int) -> Seq<u16>
    decreases l - i,
{
    if i >= l {
        Seq::empty()
    } else {
        fill_mid(origin, i, i + 1, l) + fill_outer(origin, i + 1, l)
    }
}

/// The fill of a shape with `l` points based at `origin`: one triangle for
/// every ordered triple `(i, j, k)` with `i < j < k`, in lexicographic
/// order.  Valid as a triangulation only for convex point sets; that is
/// the caller's lookout, not checked here.
pub open spec fn fill_index_seq(origin: int, l: int) -> Seq<u16> {
    fill_outer(origin, 0, l)
}

/// How many stroke quads an open shape with `l` points owns.
pub open spec fn stroke_count(l: int) -> int {
    if l >= 1 {
        l - 1
    } else {
        0
    }
}

/// How many vertices the second pass spends on one shape.
pub open spec fn shape_pass2_vcount(s: ShapeView, closed: bool) -> int {
    4 * stroke_count(s.points.len() as int) + (if s.fill {
        s.points.len() as int
    } else {
        0
    }) + (if closed && s.points.len() >= 2 {
        4int
    } else {
        0int
    })
}

/// Second pass, one shape, vertices: strokes, then the fill block, then
/// the closing stroke.
pub open spec fn shape_pass2_slots(s: ShapeView, closed: bool, radius: i64) -> Seq<VertexSlot> {
    strokes_slots(s.points, radius, 1) + (if s.fill {
        fill_slot_seq(s.points)
    } else {
        Seq::empty()
    }) + (if closed && s.points.len() >= 2 {
        stroke_slot_seq(s.points.last(), s.points[0], radius)
    } else {
        Seq::empty()
    })
}

/// Second pass, one shape, indices.
pub open spec fn shape_pass2_idx(s: ShapeView, closed: bool, origin: int) -> Seq<u16> {
    let l = s.points.len() as int;
    let after_strokes = origin + 4 * stroke_count(l);
    let after_fill = after_strokes + if s.fill {
        l
    } else {
        0
    };
    strokes_idx(s.points, origin, 1) + (if s.fill {
        fill_index_seq(after_strokes, l)
    } else {
        Seq::empty()
    }) + (if closed && l >= 2 {
        stroke_index_seq(after_fill)
    } else {
        Seq::empty()
    })
}

/// How many vertices the second pass spends on the whole collection.  The
/// walk stops at the first empty shape, exactly as the rebuild does.
pub open spec fn pass2_vcount(shapes: Seq<ShapeView>) -> int
    decreases shapes.len(),
{
    if shapes.len() == 0 || shapes[0].points.len() == 0 {
        0
    } else {
        shape_pass2_vcount(shapes[0], shapes.len() > 1) + pass2_vcount(shapes.drop_first())
    }
}

/// Second pass over the whole collection, vertices.
pub open spec fn pass2_slots(shapes: Seq<ShapeView>, radius: i64) -> Seq<VertexSlot>
    decreases shapes.len(),
{
    if shapes.len() == 0 || shapes[0].points.len() == 0 {
        Seq::empty()
    } else {
        shape_pass2_slots(shapes[0], shapes.len() > 1, radius) + pass2_slots(
            shapes.drop_first(),
            radius,
        )
    }
}

/// Second pass over the whole collection, indices.
pub open spec fn pass2_idx(shapes: Seq<ShapeView>, origin: int) -> Seq<u16>
    decreases shapes.len(),
{
    if shapes.len() == 0 || shapes[0].points.len() == 0 {
        Seq::empty()
    } else {
        shape_pass2_idx(shapes[0], shapes.len() > 1, origin) + pass2_idx(
            shapes.drop_first(),
            origin + shape_pass2_vcount(shapes[0], shapes.len() > 1),
        )
    }
}

/// All path vertices a rebuild appends after the cursor disc.
pub open spec fn path_slots(shapes: Seq<ShapeView>, radius: i64, n: int) -> Seq<VertexSlot> {
    discs_shapes(shapes, radius, n) + pass2_slots(shapes, radius)
}

/// All path indices a rebuild appends after the cursor disc, with the
/// first path vertex sitting at position `base`.
pub open spec fn path_idx(shapes: Seq<ShapeView>, base: int, n: int) -> Seq<u16> {
    discs_shapes_idx(shapes, base, n) + pass2_idx(shapes, base + total_points(shapes) * (n + 1))
}

/// How many vertices a rebuild appends after the cursor disc.
pub open spec fn path_vcount(shapes: Seq<ShapeView>, n: int) -> int {
    total_points(shapes) * (n + 1) + pass2_vcount(shapes)
}

/// An index stream padded to even length with a single trailing 0, as some
/// GPU APIs require 4-byte-aligned index buffers.
pub open spec fn pad_even(s: Seq<u16>) -> Seq<u16> {
    if s.len() % 2 == 1 {
        s.push(0u16)
    } else {
        s
    }
}

/// The whole tessellated collection fits the index format: every vertex
/// position, cursor disc included, must be representable as a `u16` index
/// and as the engine's running `u16` origin counter.
pub open spec fn model_fits(shapes: Seq<ShapeView>, n: int) -> bool {
    n + 1 + path_vcount(shapes, n) <= 0xFFFF
}

pub proof fn lemma_discs_points_len(ps: Seq<Point>, radius: i64, n: int)
    requires
        n >= 0,
    ensures
        discs_points(ps, radius, n).len() == ps.len() * (n + 1),
        discs_points_idx(ps, 0, n).len() >= 0,
    decreases ps.len(),
{
    if ps.len() > 0 {
        lemma_discs_points_len(ps.drop_first(), radius, n);
        crate::geometry::lemma_disc_rim_range_len(ps[0], radius, n, 0);
        assert(ps.len() * (n + 1) == (n + 1) + (ps.len() - 1) * (n + 1)) by (nonlinear_arith);
    }
}

pub proof fn lemma_discs_shapes_len(shapes: Seq<ShapeView>, radius: i64, n: int)
    requires
        n >= 0,
    ensures
        discs_shapes(shapes, radius, n).len() == total_points(shapes) * (n + 1),
        total_points(shapes) >= 0,
    decreases shapes.len(),
{
    if shapes.len() > 0 {
        lemma_discs_shapes_len(shapes.drop_first(), radius, n);
        lemma_discs_points_len(shapes[0].points, radius, n);
        let a = shapes[0].points.len() as int;
        let b = total_points(shapes.drop_first());
        assert((a + b) * (n + 1) == a * (n + 1) + b * (n + 1)) by (nonlinear_arith);
    }
}

pub proof fn lemma_strokes_slots_len(ps: Seq<Point>, radius: i64, i: int)
    requires
        1 <= i,
    ensures
        strokes_slots(ps, radius, i).len() == 4 * (if i <= ps.len() {
            ps.len() - i
        } else {
            0
        }),
    decreases ps.len() - i,
{
    if i < ps.len() {
        lemma_strokes_slots_len(ps, radius, i + 1);
    }
}

pub proof fn lemma_shape_pass2_slots_len(s: ShapeView, closed: bool, radius: i64)
    ensures
        shape_pass2_slots(s, closed, radius).len() == shape_pass2_vcount(s, closed),
        shape_pass2_vcount(s, closed) >= 0,
{
    lemma_strokes_slots_len(s.points, radius, 1);
}

pub proof fn lemma_pass2_vcount_nonneg(shapes: Seq<ShapeView>)
    ensures
        pass2_vcount(shapes) >= 0,
    decreases shapes.len(),
{
    if shapes.len() > 0 && shapes[0].points.len() > 0 {
        lemma_pass2_vcount_nonneg(shapes.drop_first());
        lemma_shape_pass2_slots_len(shapes[0], shapes.len() > 1, 0);
    }
}

pub proof fn lemma_pass2_slots_len(shapes: Seq<ShapeView>, radius: i64)
    ensures
        pass2_slots(shapes, radius).len() == pass2_vcount(shapes),
    decreases shapes.len(),
{
    if shapes.len() > 0 && shapes[0].points.len() > 0 {
        lemma_pass2_slots_len(shapes.drop_first(), radius);
        lemma_shape_pass2_slots_len(shapes[0], shapes.len() > 1, radius);
    }
}

pub proof fn lemma_path_slots_len(shapes: Seq<ShapeView>, radius: i64, n: int)
    requires
        n >= 0,
    ensures
        path_slots(shapes, radius, n).len() == path_vcount(shapes, n),
        path_vcount(shapes, n) >= 0,
    decreases shapes.len(),
{
    lemma_discs_shapes_len(shapes, radius, n);
    lemma_pass2_slots_len(shapes, radius);
    lemma_pass2_vcount_nonneg(shapes);
    vstd::arithmetic::mul::lemma_mul_nonnegative(total_points(shapes), n + 1);
}

proof fn lemma_total_points_drop_last(shapes: Seq<ShapeView>)
    requires
        shapes.len() >= 1,
    ensures
        total_points(shapes) == total_points(shapes.drop_last())
            + shapes.last().points.len(),
    decreases shapes.len(),
{
    if shapes.len() == 1 {
        assert(shapes.drop_last() =~= Seq::<ShapeView>::empty());
        assert(shapes.drop_first() =~= Seq::<ShapeView>::empty());
    } else {
        lemma_total_points_drop_last(shapes.drop_first());
        assert(shapes.drop_first().drop_last() =~= shapes.drop_last().drop_first());
        assert(shapes.drop_first().last() == shapes.last());
        assert(shapes.drop_last()[0] == shapes[0]);
    }
}

proof fn lemma_pass2_vcount_drop_last(shapes: Seq<ShapeView>)
    requires
        shapes.len() >= 1,
        shapes_wf(shapes),
    ensures
        pass2_vcount(shapes.drop_last()) <= pass2_vcount(shapes),
    decreases shapes.len(),
{
    let dropped = shapes.drop_last();
    lemma_pass2_vcount_nonneg(shapes);
    if shapes.len() == 1 {
        assert(dropped =~= Seq::<ShapeView>::empty());
    } else {
        assert(shapes[0].points.len() > 0);
        assert(dropped[0] == shapes[0]);
        lemma_pass2_vcount_nonneg(shapes.drop_first());
        assert(pass2_vcount(shapes) == shape_pass2_vcount(shapes[0], true) + pass2_vcount(
            shapes.drop_first(),
        ));
        assert(pass2_vcount(dropped) == shape_pass2_vcount(shapes[0], dropped.len() > 1)
            + pass2_vcount(dropped.drop_first()));
        if shapes.len() == 2 {
            assert(dropped.drop_first() =~= Seq::<ShapeView>::empty());
            assert(pass2_vcount(dropped.drop_first()) == 0);
            lemma_shape_pass2_slots_len(shapes[0], true, 0);
            lemma_shape_pass2_slots_len(shapes[0], false, 0);
        } else {
            let suffix = shapes.drop_first();
            assert(shapes_wf(suffix)) by {
                assert(forall|i: int|
                    0 <= i < suffix.len() - 1 ==> #[trigger] suffix[i].points.len() > 0) by {
                    assert(forall|i: int|
                        0 <= i < suffix.len() - 1 ==> suffix[i] == shapes[i + 1]);
                }
            }
            lemma_pass2_vcount_drop_last(suffix);
            assert(suffix.drop_last() =~= dropped.drop_first());
        }
    }
}

/// Deleting the active path never enlarges the tessellation: the rebuilt
/// stream after a delete needs no more vertices than before.
pub proof fn lemma_delete_path_shrinks(shapes: Seq<ShapeView>, n: int)
    requires
        shapes_wf(shapes),
        n >= 0,
    ensures
        path_vcount(spec_delete_path(shapes), n) <= path_vcount(shapes, n),
        path_vcount(spec_delete_path(shapes), n) >= 0,
    decreases shapes.len(),
{
    let after = spec_delete_path(shapes);
    lemma_path_slots_len(shapes, 0, n);
    lemma_path_slots_len(after, 0, n);
    if shapes.len() == 1 {
        assert(after.len() == 1);
        assert(after[0].points.len() == 0);
        assert(after.drop_first() =~= Seq::<ShapeView>::empty());
        assert(total_points(after.drop_first()) == 0);
        assert(total_points(after) == 0);
        assert(pass2_vcount(after) == 0);
        vstd::arithmetic::mul::lemma_mul_basics(n + 1);
        assert(path_vcount(after, n) == 0);
    } else {
        lemma_total_points_drop_last(shapes);
        lemma_pass2_vcount_drop_last(shapes);
        lemma_discs_shapes_len(shapes, 0, n);
        lemma_discs_shapes_len(after, 0, n);
        assert(total_points(after) <= total_points(shapes));
        vstd::arithmetic::mul::lemma_mul_inequality(
            total_points(after),
            total_points(shapes),
            n + 1,
        );
        assert(total_points(after) * (n + 1) <= total_points(shapes) * (n + 1));
        assert(pass2_vcount(after) <= pass2_vcount(shapes));
    }
}

} // verus!
