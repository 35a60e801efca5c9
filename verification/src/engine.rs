//! The tessellation engine: path collection, cursor, and the shared
//! vertex/index stream, rebuilt on structural edits.
//!
//! The stream layout is fixed: its first `segment_count + 1` vertices and
//! first `segment_count * 3` indices are the cursor disc, written in place
//! as the pointer moves; everything after is path geometry, rebuilt in full
//! by [`State::update_points`].  The engine also models the two GPU-visible
//! buffers mirroring the stream — their byte capacities and the grow-or-
//! overwrite decision — and splits the index stream into the per-frame
//! draw ranges.
use vstd::prelude::*;

use crate::coord::COORD_ONE;
use crate::coord::Point;
use crate::geometry::VertexSlot;
use crate::geometry::disc_index_seq;
use crate::geometry::disc_slot_seq;
use crate::geometry::draw_line;
use crate::geometry::fill_buffer_with_a_point;
use crate::model::Shape;
use crate::model::ShapeView;
use crate::model::initial_shapes;
use crate::model::shapes_wf;
use crate::model::spec_delete_path;
use crate::model::spec_new_path;
use crate::model::spec_push_point;
use crate::tess::discs_points;
use crate::tess::discs_points_idx;
use crate::tess::fill_index_seq;
use crate::tess::fill_inner;
use crate::tess::fill_mid;
use crate::tess::fill_outer;
use crate::tess::fill_slot_seq;
use crate::tess::model_fits;
use crate::tess::pad_even;
use crate::tess::path_idx;
use crate::tess::path_slots;
use crate::tess::path_vcount;
use crate::tess::shape_pass2_idx;
use crate::tess::shape_pass2_slots;
use crate::tess::shape_pass2_vcount;
use crate::tess::stroke_count;
use crate::tess::strokes_idx;
use crate::tess::strokes_slots;

verus! {

/// Bytes one tessellated vertex occupies once evaluated: two 32-bit
/// floating-point coordinates.
pub const VERTEX_BYTES: u128 = 8;

/// Bytes one index occupies: indices are 16-bit.
pub const INDEX_BYTES: u128 = 2;

/// How a GPU-visible buffer must be brought up to date with the current
/// stream content of `bytes` bytes.
#[derive(Clone, Copy, Debug, PartialEq, Eq, Structural)]
pub enum BufferSync {
    /// The content outgrew the buffer: release it and allocate a fresh one
    /// of exactly `bytes` bytes, filled with the content.
    Reallocate { bytes: u128 },
    /// The content fits: overwrite the first `bytes` bytes in place,
    /// leaving any trailing bytes stale.
    WriteInPlace { bytes: u128 },
}

/// The index ranges to draw this frame, each with its own color binding.
/// A range `(lo, hi)` covers indices `lo` up to (excluding) `hi`.
#[derive(Clone, Copy, Debug, PartialEq, Eq)]
pub struct DrawPlan {
    /// The cursor disc, present only when the cursor is inside the
    /// drawing region.
    pub cursor_range: Option<(usize, usize)>,
    /// All path geometry, clamped to what the index buffer physically
    /// holds and present only when nonempty.
    pub path_range: Option<(usize, usize)>,
}

/// The mathematical content of the engine.
#[verifier::ext_equal]
pub ghost struct StateView {
    /// The path collection; the last shape is the active one.
    pub shapes: Seq<ShapeView>,
    /// The pointer position, if inside the drawing region.
    pub cursor: Option<Point>,
    /// The center of the cursor disc currently written in the stream
    /// prefix, if the prefix has been written at all.
    pub disc: Option<Point>,
    pub vertices: Seq<VertexSlot>,
    pub indices: Seq<u16>,
    pub radius: i64,
    pub segment_count: int,
    /// Byte capacity of the GPU-visible vertex buffer.
    pub vertex_capacity: int,
    /// Byte capacity of the GPU-visible index buffer.
    pub index_capacity: int,
}

/// The tessellation engine.
pub struct State {
    cursor: Option<Point>,
    shapes: Vec<Shape>,
    vertices: Vec<VertexSlot>,
    indices: Vec<u16>,
    radius: i64,
    segment_count: usize,
    vertex_capacity: u128,
    index_capacity: u128,
    /// Center of the cursor disc the stream prefix was last written with.
    disc_center: Ghost<Point>,
    /// The collection the path part of the stream was last rebuilt from.
    tessellated: Ghost<Seq<ShapeView>>,
}

impl View for State {
    type V = StateView;

    closed spec fn view(&self) -> StateView {
        StateView {
            shapes: self.shapes@.map_values(|s: Shape| s@),
            cursor: self.cursor,
            disc: if self.indices@.len() > 0 {
                Some(self.disc_center@)
            } else {
                None
            },
            vertices: self.vertices@,
            indices: self.indices@,
            radius: self.radius,
            segment_count: self.segment_count as int,
            vertex_capacity: self.vertex_capacity as int,
            index_capacity: self.index_capacity as int,
        }
    }
}

/// Appends one disc fan per point of `shape` to the shared stream, whose
/// next free vertex position is `count`, and returns the position after.
fn append_shape_discs(
    vertices: &mut Vec<VertexSlot>,
    indices: &mut Vec<u16>,
    shape: &Shape,
    count: u16,
    radius: i64,
    segment_count: usize,
) -> (new_count: u16)
    requires
        3 <= segment_count <= 0xFFFE,
        radius >= 0,
        count + shape@.points.len() * (segment_count + 1) <= 0xFFFF,
    ensures
        final(vertices)@ == old(vertices)@ + discs_points(
            shape@.points,
            radius,
            segment_count as int,
        ),
        final(indices)@ == old(indices)@ + discs_points_idx(
            shape@.points,
            count as int,
            segment_count as int,
        ),
        new_count == count + shape@.points.len() * (segment_count + 1),
{
    let ghost ps = shape@.points;
    let ghost n = segment_count as int;
    let mut c = count;
    let mut pi: usize = 0;
    let len = shape.len();
    proof {
        assert(ps.skip(0) =~= ps);
    }
    while pi < len
        invariant
            pi <= len,
            len == ps.len(),
            c == count + pi * (n + 1),
            c + (len - pi) * (n + 1) <= 0xFFFF,
            vertices@ + discs_points(ps.skip(pi as int), radius, n) == old(vertices)@
                + discs_points(ps, radius, n),
            indices@ + discs_points_idx(ps.skip(pi as int), c as int, n) == old(indices)@
                + discs_points_idx(ps, count as int, n),
        decreases len - pi,
    {
        proof {
            vstd::arithmetic::mul::lemma_mul_inequality(1, len - pi, n + 1);
            assert((len - pi) * (n + 1) == (n + 1) + (len - pi - 1) * (n + 1))
                by (nonlinear_arith);
            assert((pi + 1) * (n + 1) == pi * (n + 1) + (n + 1)) by (nonlinear_arith);
        }
        let p = shape.point_at(pi);
        let ghost rem = ps.skip(pi as int);
        fill_buffer_with_a_point(vertices, indices, c, p, radius, segment_count);
        proof {
            assert(rem[0] == ps[pi as int]);
            assert(rem.drop_first() =~= ps.skip(pi + 1));
            assert(vertices@ + discs_points(ps.skip(pi + 1), radius, n) =~= old(vertices)@
                + discs_points(ps, radius, n));
            assert(indices@ + discs_points_idx(ps.skip(pi + 1), c + n + 1, n) =~= old(indices)@
                + discs_points_idx(ps, count as int, n));
        }
        c = c + segment_count as u16 + 1;
        pi = pi + 1;
    }
    proof {
        assert(ps.skip(len as int) =~= Seq::<Point>::empty());
        assert(vertices@ =~= old(vertices)@ + discs_points(ps, radius, n));
        assert(indices@ =~= old(indices)@ + discs_points_idx(ps, count as int, n));
    }
    c
}

/// Appends one shape's second-pass geometry — stroke quads between
/// consecutive points, the fill block if the shape is filled, and the
/// closing stroke if the shape is closed — to the shared stream, whose
/// next free vertex position is `count`, and returns the position after.
#[verifier::rlimit(100)]
fn append_shape_pass2(
    vertices: &mut Vec<VertexSlot>,
    indices: &mut Vec<u16>,
    shape: &Shape,
    closed: bool,
    count: u16,
    radius: i64,
) -> (new_count: u16)
    requires
        radius >= 0,
        count + shape_pass2_vcount(shape@, closed) <= 0xFFFF,
    ensures
        final(vertices)@ == old(vertices)@ + shape_pass2_slots(shape@, closed, radius),
        final(indices)@ == old(indices)@ + shape_pass2_idx(shape@, closed, count as int),
        new_count == count + shape_pass2_vcount(shape@, closed),
{
    let ghost ps = shape@.points;
    let ghost fill_amt: int = if shape@.fill {
        ps.len() as int
    } else {
        0
    };
    let ghost close_amt: int = if closed && ps.len() >= 2 {
        4int
    } else {
        0int
    };
    let len = shape.len();
    let mut c = count;
    let mut i: usize = 1;
    while i < len
        invariant
            1 <= i,
            len == ps.len(),
            len >= 1 ==> i <= len,
            len < 1 ==> i == 1,
            c == count + 4 * (i - 1),
            c + 4 * (len - i) + fill_amt + close_amt <= 0xFFFF,
            vertices@ + strokes_slots(ps, radius, i as int) == old(vertices)@ + strokes_slots(
                ps,
                radius,
                1,
            ),
            indices@ + strokes_idx(ps, c as int, i as int) == old(indices)@ + strokes_idx(
                ps,
                count as int,
                1,
            ),
        decreases len - i,
    {
        let p1 = shape.point_at(i - 1);
        let p2 = shape.point_at(i);
        let ghost c0 = c as int;
        draw_line(p1, p2, vertices, indices, radius, c);
        proof {
            assert(vertices@ + strokes_slots(ps, radius, i + 1) =~= old(vertices)@
                + strokes_slots(ps, radius, 1));
            assert(indices@ + strokes_idx(ps, c0 + 4, i + 1) =~= old(indices)@ + strokes_idx(
                ps,
                count as int,
                1,
            ));
        }
        c = c + 4;
        i = i + 1;
    }
    let ghost vstage1 = vertices@;
    let ghost istage1 = indices@;
    let ghost stroke_end = c as int;
    proof {
        assert(strokes_slots(ps, radius, i as int) =~= Seq::<VertexSlot>::empty());
        assert(strokes_idx(ps, c as int, i as int) =~= Seq::<u16>::empty());
        assert(vstage1 =~= old(vertices)@ + strokes_slots(ps, radius, 1));
        assert(istage1 =~= old(indices)@ + strokes_idx(ps, count as int, 1));
        assert(stroke_end == count + 4 * stroke_count(len as int));
        assert(stroke_end + fill_amt + close_amt <= 0xFFFF);
    }
    if shape.fill() {
        let mut k: usize = 0;
        while k < len
            invariant
                k <= len,
                len == ps.len(),
                vertices@ == vstage1 + fill_slot_seq(ps).take(k as int),
            decreases len - k,
        {
            let p = shape.point_at(k);
            vertices.push(VertexSlot::FillPoint { point: p });
            proof {
                assert(vstage1 + fill_slot_seq(ps).take(k + 1) =~= (vstage1 + fill_slot_seq(
                    ps,
                ).take(k as int)).push(VertexSlot::FillPoint { point: ps[k as int] }));
            }
            k = k + 1;
        }
        proof {
            assert(fill_slot_seq(ps).take(len as int) =~= fill_slot_seq(ps));
        }
        let ghost l = len as int;
        let mut ti: usize = 0;
        while ti < len
            invariant
                ti <= len,
                len == ps.len(),
                c == stroke_end,
                stroke_end + fill_amt + close_amt <= 0xFFFF,
                fill_amt == len as int,
                indices@ + fill_outer(c as int, ti as int, l) == istage1 + fill_index_seq(
                    c as int,
                    l,
                ),
            decreases len - ti,
        {
            let mut tj = ti + 1;
            proof {
                assert(indices@ + fill_mid(c as int, ti as int, ti + 1, l) + fill_outer(
                    c as int,
                    ti + 1,
                    l,
                ) =~= istage1 + fill_index_seq(c as int, l));
            }
            while tj < len
                invariant
                    ti < len,
                    ti + 1 <= tj <= len,
                    len == ps.len(),
                    c == stroke_end,
                    stroke_end + fill_amt + close_amt <= 0xFFFF,
                    fill_amt == len as int,
                    indices@ + fill_mid(c as int, ti as int, tj as int, l) + fill_outer(
                        c as int,
                        ti + 1,
                        l,
                    ) == istage1 + fill_index_seq(c as int, l),
                decreases len - tj,
            {
                let mut tk = tj + 1;
                proof {
                    assert(indices@ + fill_inner(c as int, ti as int, tj as int, tj + 1, l)
                        + fill_mid(c as int, ti as int, tj + 1, l) + fill_outer(
                        c as int,
                        ti + 1,
                        l,
                    ) =~= istage1 + fill_index_seq(c as int, l));
                }
                while tk < len
                    invariant
                        ti < len,
                        ti < tj < len,
                        tj + 1 <= tk <= len,
                        len == ps.len(),
                        c == stroke_end,
                        stroke_end + fill_amt + close_amt <= 0xFFFF,
                        fill_amt == len as int,
                        indices@ + fill_inner(c as int, ti as int, tj as int, tk as int, l)
                            + fill_mid(c as int, ti as int, tj + 1, l) + fill_outer(
                            c as int,
                            ti + 1,
                            l,
                        ) == istage1 + fill_index_seq(c as int, l),
                    decreases len - tk,
                {
                    indices.push(c + ti as u16);
                    indices.push(c + tj as u16);
                    indices.push(c + tk as u16);
                    proof {
                        assert(indices@ + fill_inner(c as int, ti as int, tj as int, tk + 1, l)
                            + fill_mid(c as int, ti as int, tj + 1, l) + fill_outer(
                            c as int,
                            ti + 1,
                            l,
                        ) =~= istage1 + fill_index_seq(c as int, l));
                    }
                    tk = tk + 1;
                }
                proof {
                    assert(fill_inner(c as int, ti as int, tj as int, tk as int, l)
                        =~= Seq::<u16>::empty());
                    assert(indices@ + fill_mid(c as int, ti as int, tj + 1, l) + fill_outer(
                        c as int,
                        ti + 1,
                        l,
                    ) =~= istage1 + fill_index_seq(c as int, l));
                }
                tj = tj + 1;
            }
            proof {
                assert(fill_mid(c as int, ti as int, tj as int, l) =~= Seq::<u16>::empty());
                assert(indices@ + fill_outer(c as int, ti + 1, l) =~= istage1 + fill_index_seq(
                    c as int,
                    l,
                ));
            }
            ti = ti + 1;
        }
        proof {
            assert(fill_outer(c as int, ti as int, l) =~= Seq::<u16>::empty());
            assert(indices@ =~= istage1 + fill_index_seq(c as int, l));
        }
        c = c + len as u16;
    }
    if closed && len >= 2 {
        let p1 = shape.point_at(len - 1);
        let p2 = shape.point_at(0);
        draw_line(p1, p2, vertices, indices, radius, c);
        c = c + 4;
    }
    proof {
        assert(ps.last() == ps[ps.len() - 1]);
        assert(vertices@ =~= old(vertices)@ + shape_pass2_slots(shape@, closed, radius));
        assert(indices@ =~= old(indices)@ + shape_pass2_idx(shape@, closed, count as int));
    }
    c
}

/// Whether a pointer at fixed-point position `x` lies inside the
/// aspect-corrected drawing region: the cursor is shown unless
/// `|x| > 2 / ratio`, stated here without division as
/// `|x| * ratio <= 2` in fixed-point squares.
pub open spec fn cursor_visible(x: int, ratio: int) -> bool {
    (if x < 0 {
        -x
    } else {
        x
    }) * ratio <= 2 * (COORD_ONE as int) * (COORD_ONE as int)
}

impl State {
    /// The engine's invariant: a well-formed collection that fits the
    /// 16-bit index format, and a stream that is either still empty or
    /// holds exactly one cursor disc followed by the tessellation of the
    /// collection it was last rebuilt from.
    pub closed spec fn wf(&self) -> bool {
        let n = self.segment_count as int;
        &&& shapes_wf(self@.shapes)
        &&& 3 <= n <= 0xFFFE
        &&& self.radius >= 0
        &&& model_fits(self@.shapes, n)
        &&& model_fits(self.tessellated@, n)
        &&& (self.indices@.len() == 0 ==> self.vertices@.len() == 0)
        &&& (self.indices@.len() > 0 ==> {
            &&& self.vertices@ == disc_slot_seq(self.disc_center@, self.radius, n) + path_slots(
                self.tessellated@,
                self.radius,
                n,
            )
            &&& self.indices@ == pad_even(
                disc_index_seq(0, n) + path_idx(self.tessellated@, n + 1, n),
            )
        })
    }

    /// A fresh session: one empty active shape, the cursor parked at the
    /// origin, the stream and both buffers empty.
    pub fn new(radius: i64, segment_count: usize) -> (s: State)
        requires
            radius >= 0,
            3 <= segment_count <= 0xFFFE,
        ensures
            s.wf(),
            s@.shapes == initial_shapes(),
            s@.cursor == Some(Point { x: 0, y: 0 }),
            s@.disc is None,
            s@.vertices.len() == 0,
            s@.indices.len() == 0,
            s@.radius == radius,
            s@.segment_count == segment_count,
            s@.vertex_capacity == 0,
            s@.index_capacity == 0,
    {
        let mut shapes: Vec<Shape> = Vec::new();
        shapes.push(Shape::new());
        let s = State {
            cursor: Some(Point::origin()),
            shapes,
            vertices: Vec::new(),
            indices: Vec::new(),
            radius,
            segment_count,
            vertex_capacity: 0,
            index_capacity: 0,
            disc_center: Ghost(Point { x: 0, y: 0 }),
            tessellated: Ghost(Seq::empty()),
        };
        proof {
            let n = segment_count as int;
            let init = initial_shapes();
            assert(init.len() == 1 && init[0].points.len() == 0);
            assert(init.drop_first() =~= Seq::<ShapeView>::empty());
            assert(crate::tess::total_points(init.drop_first()) == 0);
            assert(crate::tess::total_points(init) == 0);
            assert(path_vcount(init, n) == 0);
            assert(path_vcount(Seq::<ShapeView>::empty(), n) == 0);
            assert(s@.shapes.len() == 1);
            assert(s@.shapes[0].points =~= init[0].points);
            assert(s@.shapes[0] == init[0]);
            assert(s@.shapes =~= init);
        }
        s
    }

    /// The symbolic vertex stream, cursor disc first.
    pub fn vertices(&self) -> (v: &Vec<VertexSlot>)
        ensures
            v@ == self@.vertices,
    {
        &self.vertices
    }

    /// The index stream, cursor disc first, padded to even length.
    pub fn indices(&self) -> (v: &Vec<u16>)
        ensures
            v@ == self@.indices,
    {
        &self.indices
    }

    pub fn cursor(&self) -> (c: Option<Point>)
        ensures
            c == self@.cursor,
    {
        self.cursor
    }

    pub fn radius(&self) -> (r: i64)
        ensures
            r == self@.radius,
    {
        self.radius
    }

    pub fn segment_count(&self) -> (n: usize)
        ensures
            n == self@.segment_count,
    {
        self.segment_count
    }

    /// Byte capacity of the modeled GPU-visible vertex buffer.
    pub fn vertex_capacity(&self) -> (c: u128)
        ensures
            c == self@.vertex_capacity,
    {
        self.vertex_capacity
    }

    /// Byte capacity of the modeled GPU-visible index buffer.
    pub fn index_capacity(&self) -> (c: u128)
        ensures
            c == self@.index_capacity,
    {
        self.index_capacity
    }

    pub fn shape_count(&self) -> (n: usize)
        ensures
            n == self@.shapes.len(),
    {
        self.shapes.len()
    }

    /// The shape at position `i`; the last one is the active shape.
    pub fn shape_at(&self, i: usize) -> (s: &Shape)
        requires
            i < self@.shapes.len(),
        ensures
            s@ == self@.shapes[i as int],
    {
        &self.shapes[i]
    }

    /// Moves the cursor.  A pointer outside the aspect-corrected drawing
    /// region (`|x| > 2 / ratio`) hides the cursor and leaves the stream
    /// untouched — stale disc geometry may remain in the prefix, but it is
    /// not drawn.  A visible pointer becomes the cursor, and the disc
    /// prefix of the stream is rewritten in place to the new position (or
    /// first written, if the stream was still empty); path geometry is not
    /// touched.  This is the cheap per-motion update: the cursor moves far
    /// more often than paths change.
    #[verifier::rlimit(100)]
    pub fn update_cursor(&mut self, x: i64, y: i64, ratio: i64)
        requires
            old(self).wf(),
            ratio > 0,
        ensures
            final(self).wf(),
            final(self)@.shapes == old(self)@.shapes,
            final(self)@.radius == old(self)@.radius,
            final(self)@.segment_count == old(self)@.segment_count,
            final(self)@.vertex_capacity == old(self)@.vertex_capacity,
            final(self)@.index_capacity == old(self)@.index_capacity,
            !cursor_visible(x as int, ratio as int) ==> {
                &&& final(self)@.cursor is None
                &&& final(self)@.vertices == old(self)@.vertices
                &&& final(self)@.indices == old(self)@.indices
                &&& final(self)@.disc == old(self)@.disc
            },
            cursor_visible(x as int, ratio as int) ==> {
                let n = old(self)@.segment_count;
                let pt = Point { x, y };
                &&& final(self)@.cursor == Some(pt)
                &&& final(self)@.disc == Some(pt)
                &&& (old(self)@.indices.len() == 0 ==> {
                    &&& final(self)@.vertices == disc_slot_seq(pt, old(self)@.radius, n)
                    &&& final(self)@.indices == pad_even(disc_index_seq(0, n))
                })
                &&& (old(self)@.indices.len() > 0 ==> {
                    &&& final(self)@.vertices == disc_slot_seq(pt, old(self)@.radius, n)
                        + old(self)@.vertices.skip(n + 1)
                    &&& final(self)@.indices == old(self)@.indices
                })
            },
            final(self)@.indices.len() % 2 == 0,
    {
        let ax: i128 = if x < 0 {
            -(x as i128)
        } else {
            x as i128
        };
        proof {
            assert(ax * (ratio as i128) <= 0x8000_0000_0000_0000i128 * 0x7FFF_FFFF_FFFF_FFFFi128)
                by (nonlinear_arith)
                requires
                    0 <= ax <= 0x8000_0000_0000_0000i128,
                    0 < ratio as i128 <= 0x7FFF_FFFF_FFFF_FFFFi128,
            ;
            assert(ax * (ratio as i128) >= 0) by (nonlinear_arith)
                requires
                    ax >= 0,
                    ratio as i128 > 0,
            ;
        }
        let visible = ax * (ratio as i128) <= 2 * (COORD_ONE as i128) * (COORD_ONE as i128);
        if !visible {
            self.cursor = None;
            return ;
        }
        let pt = Point { x, y };
        self.cursor = Some(pt);
        let segment_count = self.segment_count;
        let radius = self.radius;
        let ghost n = segment_count as int;
        if self.indices.len() == 0 {
            fill_buffer_with_a_point(&mut self.vertices, &mut self.indices, 0, pt, radius, segment_count);
            self.disc_center = Ghost(pt);
            self.tessellated = Ghost(Seq::empty());
            proof {
                let empty = Seq::<ShapeView>::empty();
                assert(crate::tess::total_points(empty) == 0);
                assert(path_vcount(empty, n) == 0);
                assert(path_slots(empty, radius, n) =~= Seq::<VertexSlot>::empty());
                assert(crate::tess::pass2_idx(empty, n + 1) =~= Seq::<u16>::empty());
                assert(path_idx(empty, n + 1, n) =~= Seq::<u16>::empty());
                assert(self.vertices@ =~= disc_slot_seq(pt, radius, n) + path_slots(
                    empty,
                    radius,
                    n,
                ));
            }
        } else {
            let ghost tess0 = self.tessellated@;
            proof {
                crate::tess::lemma_path_slots_len(tess0, radius, n);
                crate::geometry::lemma_disc_fragment_shape(self.disc_center@, radius, 0, n);
            }
            let end = segment_count + 1;
            let mut k: usize = 0;
            while k < end
                invariant
                    k <= end,
                    end == n + 1,
                    n + 1 <= self.vertices@.len(),
                    self.vertices@.len() == old(self).vertices@.len(),
                    forall|j: int|
                        0 <= j < k ==> self.vertices@[j] == disc_slot_seq(pt, radius, n)[j],
                    forall|j: int|
                        k <= j < self.vertices@.len() ==> self.vertices@[j] == old(
                            self,
                        ).vertices@[j],
                    self.shapes == old(self).shapes,
                    self.cursor == Some(pt),
                    self.indices == old(self).indices,
                    self.radius == old(self).radius,
                    self.segment_count == old(self).segment_count,
                    self.vertex_capacity == old(self).vertex_capacity,
                    self.index_capacity == old(self).index_capacity,
                    self.disc_center == old(self).disc_center,
                    self.tessellated == old(self).tessellated,
                decreases end - k,
            {
                let slot = if k == 0 {
                    VertexSlot::DiscCenter { center: pt, radius }
                } else {
                    VertexSlot::DiscRim { center: pt, radius, seg: k - 1, segment_count }
                };
                proof {
                    crate::geometry::lemma_disc_slot_seq_index(pt, radius, n, k as int);
                }
                self.vertices.set(k, slot);
                k = k + 1;
            }
            self.disc_center = Ghost(pt);
            proof {
                crate::geometry::lemma_disc_fragment_shape(pt, radius, 0, n);
                assert(self.vertices@ =~= disc_slot_seq(pt, radius, n) + old(
                    self,
                ).vertices@.skip(n + 1));
                assert(old(self).vertices@.skip(n + 1) =~= path_slots(tess0, radius, n));
            }
        }
        if self.indices.len() % 2 == 1 {
            self.indices.push(0);
        }
        proof {
            assert(self.indices@ =~= pad_even(
                disc_index_seq(0, n) + path_idx(self.tessellated@, n + 1, n),
            ));
        }
    }

    /// Rebuilds all path geometry from the current collection: the stream
    /// is cut back to the cursor disc prefix, then the first pass appends
    /// a disc fan for every point of every shape, the second pass appends
    /// each shape's strokes, fill and closing stroke, and a padding index
    /// 0 keeps the index count even.  Does nothing while the stream is
    /// still empty (no cursor disc has been written yet).
    #[verifier::rlimit(100)]
    pub fn update_points(&mut self)
        requires
            old(self).wf(),
        ensures
            final(self).wf(),
            final(self)@.shapes == old(self)@.shapes,
            final(self)@.cursor == old(self)@.cursor,
            final(self)@.disc == old(self)@.disc,
            final(self)@.radius == old(self)@.radius,
            final(self)@.segment_count == old(self)@.segment_count,
            final(self)@.vertex_capacity == old(self)@.vertex_capacity,
            final(self)@.index_capacity == old(self)@.index_capacity,
            old(self)@.indices.len() == 0 ==> *final(self) == *old(self),
            old(self)@.indices.len() > 0 ==> {
                let n = old(self)@.segment_count;
                &&& final(self)@.vertices == old(self)@.vertices.take(n + 1) + path_slots(
                    old(self)@.shapes,
                    old(self)@.radius,
                    n,
                )
                &&& final(self)@.indices == pad_even(
                    disc_index_seq(0, n) + path_idx(old(self)@.shapes, n + 1, n),
                )
            },
            final(self)@.indices.len() % 2 == 0,
    {
        if self.indices.len() == 0 {
            return ;
        }
        let segment_count = self.segment_count;
        let radius = self.radius;
        let ghost n = segment_count as int;
        let ghost shapes0 = self@.shapes;
        let ghost tess0 = self.tessellated@;
        proof {
            crate::tess::lemma_path_slots_len(tess0, radius, n);
            crate::geometry::lemma_disc_fragment_shape(self.disc_center@, radius, 0, n);
            crate::tess::lemma_discs_shapes_len(shapes0, radius, n);
            crate::tess::lemma_pass2_vcount_nonneg(shapes0);
            crate::tess::lemma_discs_shapes_len(tess0, radius, n);
            vstd::arithmetic::mul::lemma_mul_nonnegative(crate::tess::total_points(tess0), n + 1);
            crate::tess::lemma_pass2_vcount_nonneg(tess0);
        }
        self.vertices.truncate(segment_count + 1);
        self.indices.truncate(3 * segment_count);
        proof {
            assert(self.vertices@ =~= disc_slot_seq(self.disc_center@, radius, n));
            assert(self.indices@ =~= disc_index_seq(0, n));
        }
        let ghost base_v = self.vertices@;
        let ghost base_i = self.indices@;

        let mut count: u16 = segment_count as u16 + 1;
        let mut si: usize = 0;
        proof {
            assert(shapes0.skip(0) =~= shapes0);
        }
        while si < self.shapes.len()
            invariant
                si <= self.shapes.len(),
                self.shapes == old(self).shapes,
                self.cursor == old(self).cursor,
                self.radius == old(self).radius,
                self.segment_count == old(self).segment_count,
                self.vertex_capacity == old(self).vertex_capacity,
                self.index_capacity == old(self).index_capacity,
                self.disc_center == old(self).disc_center,
                self.tessellated == old(self).tessellated,
                count == self.vertices@.len(),
                count + crate::tess::total_points(shapes0.skip(si as int)) * (n + 1)
                    + crate::tess::pass2_vcount(shapes0) <= 0xFFFF,
                self.vertices@ + crate::tess::discs_shapes(shapes0.skip(si as int), radius, n)
                    == base_v + crate::tess::discs_shapes(shapes0, radius, n),
                self.indices@ + crate::tess::discs_shapes_idx(
                    shapes0.skip(si as int),
                    count as int,
                    n,
                ) == base_i + crate::tess::discs_shapes_idx(shapes0, n + 1, n),
            decreases self.shapes.len() - si,
        {
            let ghost rem = shapes0.skip(si as int);
            let ghost l = self.shapes@[si as int]@.points.len() as int;
            proof {
                assert(rem[0] == shapes0[si as int]);
                assert(rem.drop_first() =~= shapes0.skip(si + 1));
                crate::tess::lemma_discs_shapes_len(shapes0.skip(si + 1), radius, n);
                vstd::arithmetic::mul::lemma_mul_nonnegative(
                    crate::tess::total_points(shapes0.skip(si + 1)),
                    n + 1,
                );
                assert((l + crate::tess::total_points(shapes0.skip(si + 1))) * (n + 1) == l * (n
                    + 1) + crate::tess::total_points(shapes0.skip(si + 1)) * (n + 1))
                    by (nonlinear_arith);
            }
            let new_count = append_shape_discs(
                &mut self.vertices,
                &mut self.indices,
                &self.shapes[si],
                count,
                radius,
                segment_count,
            );
            proof {
                assert(shapes0[si as int] == self.shapes@[si as int]@);
                crate::tess::lemma_discs_points_len(shapes0[si as int].points, radius, n);
                assert(self.vertices@ + crate::tess::discs_shapes(shapes0.skip(si + 1), radius, n)
                    =~= base_v + crate::tess::discs_shapes(shapes0, radius, n));
                assert(self.indices@ + crate::tess::discs_shapes_idx(
                    shapes0.skip(si + 1),
                    count + l * (n + 1),
                    n,
                ) =~= base_i + crate::tess::discs_shapes_idx(shapes0, n + 1, n));
            }
            count = new_count;
            si = si + 1;
        }
        proof {
            assert(shapes0.skip(self.shapes@.len() as int) =~= Seq::<ShapeView>::empty());
            assert(self.vertices@ =~= base_v + crate::tess::discs_shapes(shapes0, radius, n));
            assert(self.indices@ =~= base_i + crate::tess::discs_shapes_idx(shapes0, n + 1, n));
            assert(count == n + 1 + crate::tess::total_points(shapes0) * (n + 1));
        }
        let ghost stage1_v = self.vertices@;
        let ghost stage1_i = self.indices@;
        let ghost pass2_base = count as int;

        let mut si: usize = 0;
        proof {
            assert(shapes0.skip(0) =~= shapes0);
        }
        while si < self.shapes.len() && !self.shapes[si].is_empty()
            invariant
                si <= self.shapes.len(),
                self.shapes == old(self).shapes,
                self.cursor == old(self).cursor,
                self.radius == old(self).radius,
                self.segment_count == old(self).segment_count,
                self.vertex_capacity == old(self).vertex_capacity,
                self.index_capacity == old(self).index_capacity,
                self.disc_center == old(self).disc_center,
                self.tessellated == old(self).tessellated,
                count == self.vertices@.len(),
                count + crate::tess::pass2_vcount(shapes0.skip(si as int)) <= 0xFFFF,
                self.vertices@ + crate::tess::pass2_slots(shapes0.skip(si as int), radius)
                    == stage1_v + crate::tess::pass2_slots(shapes0, radius),
                self.indices@ + crate::tess::pass2_idx(shapes0.skip(si as int), count as int)
                    == stage1_i + crate::tess::pass2_idx(shapes0, pass2_base),
            decreases self.shapes.len() - si,
        {
            let closed = si + 1 < self.shapes.len();
            let ghost rem = shapes0.skip(si as int);
            proof {
                assert(rem[0] == shapes0[si as int]);
                assert(rem.drop_first() =~= shapes0.skip(si + 1));
                assert(rem.len() > 1 <==> closed);
                crate::tess::lemma_pass2_vcount_nonneg(shapes0.skip(si + 1));
                crate::tess::lemma_shape_pass2_slots_len(shapes0[si as int], closed, radius);
            }
            let new_count = append_shape_pass2(
                &mut self.vertices,
                &mut self.indices,
                &self.shapes[si],
                closed,
                count,
                radius,
            );
            proof {
                assert(self.vertices@ + crate::tess::pass2_slots(shapes0.skip(si + 1), radius)
                    =~= stage1_v + crate::tess::pass2_slots(shapes0, radius));
                assert(self.indices@ + crate::tess::pass2_idx(
                    shapes0.skip(si + 1),
                    new_count as int,
                ) =~= stage1_i + crate::tess::pass2_idx(shapes0, pass2_base));
            }
            count = new_count;
            si = si + 1;
        }
        proof {
            if si < self.shapes@.len() {
                assert(shapes0.skip(si as int)[0] == shapes0[si as int]);
                assert(crate::tess::pass2_slots(shapes0.skip(si as int), radius)
                    =~= Seq::<VertexSlot>::empty());
                assert(crate::tess::pass2_idx(shapes0.skip(si as int), count as int)
                    =~= Seq::<u16>::empty());
            } else {
                assert(shapes0.skip(si as int) =~= Seq::<ShapeView>::empty());
            }
            assert(self.vertices@ =~= stage1_v + crate::tess::pass2_slots(shapes0, radius));
            assert(self.indices@ =~= stage1_i + crate::tess::pass2_idx(shapes0, pass2_base));
        }
        if self.indices.len() % 2 == 1 {
            self.indices.push(0);
        }
        self.tessellated = Ghost(shapes0);
        proof {
            assert(self.vertices@ =~= base_v + path_slots(shapes0, radius, n));
            assert(self.indices@ =~= pad_even(disc_index_seq(0, n) + path_idx(shapes0, n + 1, n)));
            assert(old(self)@.vertices.take(n + 1) =~= base_v);
            crate::tess::lemma_path_slots_len(shapes0, radius, n);
        }
    }

    /// Appends the cursor position to the active shape and rebuilds all
    /// path geometry.  With no cursor present this changes nothing at all.
    pub fn push_point(&mut self)
        requires
            old(self).wf(),
            model_fits(
                spec_push_point(old(self)@.shapes, old(self)@.cursor),
                old(self)@.segment_count,
            ),
        ensures
            final(self).wf(),
            final(self)@.shapes == spec_push_point(old(self)@.shapes, old(self)@.cursor),
            final(self)@.cursor == old(self)@.cursor,
            final(self)@.disc == old(self)@.disc,
            final(self)@.radius == old(self)@.radius,
            final(self)@.segment_count == old(self)@.segment_count,
            final(self)@.vertex_capacity == old(self)@.vertex_capacity,
            final(self)@.index_capacity == old(self)@.index_capacity,
            old(self)@.cursor is None ==> *final(self) == *old(self),
            old(self)@.indices.len() == 0 ==> final(self)@.vertices == old(self)@.vertices
                && final(self)@.indices == old(self)@.indices,
            (old(self)@.cursor is Some && old(self)@.indices.len() > 0) ==> {
                let n = old(self)@.segment_count;
                let shapes = spec_push_point(old(self)@.shapes, old(self)@.cursor);
                &&& final(self)@.vertices == old(self)@.vertices.take(n + 1) + path_slots(
                    shapes,
                    old(self)@.radius,
                    n,
                )
                &&& final(self)@.indices == pad_even(
                    disc_index_seq(0, n) + path_idx(shapes, n + 1, n),
                )
            },
            final(self)@.indices.len() % 2 == 0,
    {
        if let Some(cursor) = self.cursor {
            let ghost shapes0 = self@.shapes;
            let mut shape = self.shapes.pop().unwrap();
            shape.push(cursor);
            self.shapes.push(shape);
            proof {
                assert(self@.shapes =~~= spec_push_point(shapes0, Some(cursor)));
                crate::model::lemma_transitions_preserve_wf(shapes0);
                assert(self.wf());
            }
            self.update_points();
        }
    }

    /// Stamps the fill flag onto the active shape and starts a fresh empty
    /// one, then rebuilds all path geometry.  Does nothing — not even a
    /// rebuild — while the active shape is still empty, so no duplicate
    /// empty shape is ever created.
    pub fn new_path(&mut self, fill: bool)
        requires
            old(self).wf(),
            model_fits(spec_new_path(old(self)@.shapes, fill), old(self)@.segment_count),
        ensures
            final(self).wf(),
            final(self)@.shapes == spec_new_path(old(self)@.shapes, fill),
            final(self)@.cursor == old(self)@.cursor,
            final(self)@.disc == old(self)@.disc,
            final(self)@.radius == old(self)@.radius,
            final(self)@.segment_count == old(self)@.segment_count,
            final(self)@.vertex_capacity == old(self)@.vertex_capacity,
            final(self)@.index_capacity == old(self)@.index_capacity,
            old(self)@.shapes.last().points.len() == 0 ==> *final(self) == *old(self),
            old(self)@.indices.len() == 0 ==> final(self)@.vertices == old(self)@.vertices
                && final(self)@.indices == old(self)@.indices,
            (old(self)@.shapes.last().points.len() > 0 && old(self)@.indices.len() > 0) ==> {
                let n = old(self)@.segment_count;
                let shapes = spec_new_path(old(self)@.shapes, fill);
                &&& final(self)@.vertices == old(self)@.vertices.take(n + 1) + path_slots(
                    shapes,
                    old(self)@.radius,
                    n,
                )
                &&& final(self)@.indices == pad_even(
                    disc_index_seq(0, n) + path_idx(shapes, n + 1, n),
                )
            },
            final(self)@.indices.len() % 2 == 0,
    {
        let last = self.shapes.len() - 1;
        if self.shapes[last].is_empty() {
            return ;
        }
        let ghost shapes0 = self@.shapes;
        let mut shape = self.shapes.pop().unwrap();
        shape.set_fill(fill);
        self.shapes.push(shape);
        self.shapes.push(Shape::new());
        proof {
            assert(self@.shapes.last().points =~= Seq::<Point>::empty());
            assert(self@.shapes =~~= spec_new_path(shapes0, fill));
            crate::model::lemma_transitions_preserve_wf(shapes0);
            assert(self.wf());
        }
        self.update_points();
    }

    /// Deletes the active path: with more than one shape the active one is
    /// removed and the previous becomes active; the last remaining shape
    /// is only emptied, never removed.  All path geometry is rebuilt.
    pub fn delete_path(&mut self)
        requires
            old(self).wf(),
        ensures
            final(self).wf(),
            final(self)@.shapes == spec_delete_path(old(self)@.shapes),
            final(self)@.cursor == old(self)@.cursor,
            final(self)@.disc == old(self)@.disc,
            final(self)@.radius == old(self)@.radius,
            final(self)@.segment_count == old(self)@.segment_count,
            final(self)@.vertex_capacity == old(self)@.vertex_capacity,
            final(self)@.index_capacity == old(self)@.index_capacity,
            old(self)@.indices.len() == 0 ==> final(self)@.vertices == old(self)@.vertices
                && final(self)@.indices == old(self)@.indices,
            old(self)@.indices.len() > 0 ==> {
                let n = old(self)@.segment_count;
                let shapes = spec_delete_path(old(self)@.shapes);
                &&& final(self)@.vertices == old(self)@.vertices.take(n + 1) + path_slots(
                    shapes,
                    old(self)@.radius,
                    n,
                )
                &&& final(self)@.indices == pad_even(
                    disc_index_seq(0, n) + path_idx(shapes, n + 1, n),
                )
            },
            final(self)@.indices.len() % 2 == 0,
    {
        let ghost shapes0 = self@.shapes;
        if self.shapes.len() == 1 {
            let mut shape = self.shapes.pop().unwrap();
            shape.truncate(0);
            self.shapes.push(shape);
            proof {
                assert(shapes0[0].points.take(0) =~= Seq::<Point>::empty());
            }
        } else {
            self.shapes.pop();
        }
        proof {
            assert(self@.shapes =~~= spec_delete_path(shapes0));
            crate::model::lemma_transitions_preserve_wf(shapes0);
            crate::tess::lemma_delete_path_shrinks(shapes0, self.segment_count as int);
            assert(self.wf());
        }
        self.update_points();
    }

    /// Syncs the modeled vertex buffer with the stream: reallocates to
    /// exactly the content size when the content outgrew the buffer,
    /// otherwise overwrites in place.  The capacity never shrinks.
    pub fn check_buffer(&mut self) -> (act: BufferSync)
        requires
            old(self).wf(),
        ensures
            final(self).wf(),
            final(self)@ == (StateView { vertex_capacity: final(self)@.vertex_capacity, ..old(self)@ }),
            ({
                let required = old(self)@.vertices.len() * VERTEX_BYTES;
                &&& (old(self)@.vertex_capacity < required ==> act == (BufferSync::Reallocate {
                    bytes: required as u128,
                }) && final(self)@.vertex_capacity == required)
                &&& (old(self)@.vertex_capacity >= required ==> act == (BufferSync::WriteInPlace {
                    bytes: required as u128,
                }) && final(self)@.vertex_capacity == old(self)@.vertex_capacity)
                &&& final(self)@.vertex_capacity >= old(self)@.vertex_capacity
                &&& final(self)@.vertex_capacity >= required
            }),
    {
        let required: u128 = (self.vertices.len() as u128) * VERTEX_BYTES;
        if self.vertex_capacity < required {
            self.vertex_capacity = required;
            BufferSync::Reallocate { bytes: required }
        } else {
            BufferSync::WriteInPlace { bytes: required }
        }
    }

    /// Syncs the modeled index buffer with the stream, as
    /// [`State::check_buffer`] does for vertices.
    pub fn check_index_buffer(&mut self) -> (act: BufferSync)
        requires
            old(self).wf(),
        ensures
            final(self).wf(),
            final(self)@ == (StateView { index_capacity: final(self)@.index_capacity, ..old(self)@ }),
            ({
                let required = old(self)@.indices.len() * INDEX_BYTES;
                &&& (old(self)@.index_capacity < required ==> act == (BufferSync::Reallocate {
                    bytes: required as u128,
                }) && final(self)@.index_capacity == required)
                &&& (old(self)@.index_capacity >= required ==> act == (BufferSync::WriteInPlace {
                    bytes: required as u128,
                }) && final(self)@.index_capacity == old(self)@.index_capacity)
                &&& final(self)@.index_capacity >= old(self)@.index_capacity
                &&& final(self)@.index_capacity >= required
            }),
    {
        let required: u128 = (self.indices.len() as u128) * INDEX_BYTES;
        if self.index_capacity < required {
            self.index_capacity = required;
            BufferSync::Reallocate { bytes: required }
        } else {
            BufferSync::WriteInPlace { bytes: required }
        }
    }

    /// Law: in every reachable state the path collection is well-formed —
    /// it holds at least one shape, and only the last (active) shape may
    /// be empty.
    pub proof fn lemma_only_active_shape_empty(&self)
        requires
            self.wf(),
        ensures
            shapes_wf(self@.shapes),
    {
    }

    /// Law: in every reachable state — in particular after any
    /// retessellation — the index stream has even length, as 4-byte
    /// aligned index buffers require.
    pub proof fn lemma_indices_even(&self)
        requires
            self.wf(),
        ensures
            self@.indices.len() % 2 == 0,
    {
    }

    /// Law: the cursor disc is isolated.  Whenever the stream is
    /// nonempty, its first `3 * segment_count` indices refer only to
    /// vertices of the cursor disc itself — the first `segment_count + 1`
    /// slots — so rewriting the disc prefix in place can never disturb
    /// path geometry, and drawing the prefix range draws the disc alone.
    pub proof fn lemma_cursor_prefix_isolated(&self)
        requires
            self.wf(),
            self@.indices.len() > 0,
        ensures
            self@.indices.len() >= 3 * self@.segment_count,
            forall|k: int|
                0 <= k < 3 * self@.segment_count ==> self@.indices[k] < self@.segment_count
                    + 1,
    {
        let n = self@.segment_count;
        crate::geometry::lemma_disc_fragment_shape(self.disc_center@, self.radius, 0, n);
        let full = disc_index_seq(0, n) + path_idx(self.tessellated@, n + 1, n);
        assert(self@.indices == pad_even(full));
        assert forall|k: int| 0 <= k < 3 * n implies self@.indices[k] < n + 1 by {
            assert(pad_even(full)[k] == full[k]);
            assert(full[k] == disc_index_seq(0, n)[k]);
        }
    }

    /// The two index ranges to draw this frame: the cursor disc — only
    /// when the cursor is present — and the path geometry, clamped to what
    /// the index buffer physically holds so that a capacity-transition
    /// frame never reads stale or unallocated entries.  Ranges are issued
    /// only when nonempty; with an empty index buffer nothing is drawn.
    pub fn draw_plan(&self) -> (p: DrawPlan)
        requires
            self.wf(),
        ensures
            ({
                let n3 = 3 * self@.segment_count;
                let physical = self@.index_capacity / INDEX_BYTES as int;
                let end = if self@.indices.len() <= physical {
                    self@.indices.len() as int
                } else {
                    physical
                };
                &&& (physical == 0 ==> p.cursor_range is None && p.path_range is None)
                &&& (physical > 0 ==> p.cursor_range == (if self@.cursor is Some {
                    Some((0usize, n3 as usize))
                } else {
                    None::<(usize, usize)>
                }))
                &&& p.path_range == (if physical > 0 && end > n3 {
                    Some((n3 as usize, end as usize))
                } else {
                    None::<(usize, usize)>
                })
            }),
    {
        let physical: u128 = self.index_capacity / INDEX_BYTES;
        if physical == 0 {
            return DrawPlan { cursor_range: None, path_range: None };
        }
        let n3: usize = 3 * self.segment_count;
        let cursor_range: Option<(usize, usize)> = if self.cursor.is_some() {
            Some((0usize, n3))
        } else {
            None
        };
        let logical: u128 = self.indices.len() as u128;
        let end: u128 = if logical <= physical {
            logical
        } else {
            physical
        };
        let path_range: Option<(usize, usize)> = if end > n3 as u128 {
            Some((n3, end as usize))
        } else {
            None
        };
        DrawPlan { cursor_range, path_range }
    }
}

} // verus!
