//! The path model: an ordered collection of shapes.
//!
//! A shape is an ordered sequence of clicked points plus a fill flag; the
//! collection always holds at least one shape, and the last shape is the
//! active one — the only shape that may be empty.  This module defines the
//! shape type, the mathematical transitions of the collection (push a
//! point, start a new path, delete the last path), and the laws those
//! transitions obey.
use vstd::prelude::*;

use crate::coord::Point;

verus! {

/// The mathematical content of a [`Shape`].
#[verifier::ext_equal]
pub ghost struct ShapeView {
    pub points: Seq<Point>,
    pub fill: bool,
}

/// One ordered click-path, optionally filled.
#[derive(Debug)]
pub struct Shape {
    points: Vec<Point>,
    fill: bool,
}

impl View for Shape {
    type V = ShapeView;

    closed spec fn view(&self) -> ShapeView {
        ShapeView { points: self.points@, fill: self.fill }
    }
}

impl Shape {
    /// A new, empty, unfilled shape.
    pub fn new() -> (s: Shape)
        ensures
            s@.points.len() == 0,
            s@.fill == false,
    {
        Shape { points: Vec::new(), fill: false }
    }

    /// Appends a point, keeping insertion order.
    pub fn push(&mut self, p: Point)
        ensures
            final(self)@.points == old(self)@.points.push(p),
            final(self)@.fill == old(self)@.fill,
    {
        self.points.push(p);
    }

    pub fn is_empty(&self) -> (r: bool)
        ensures
            r == (self@.points.len() == 0),
    {
        self.points.len() == 0
    }

    pub fn len(&self) -> (n: usize)
        ensures
            n == self@.points.len(),
    {
        self.points.len()
    }

    /// The most recently pushed point, if any.
    pub fn last(&self) -> (p: Option<Point>)
        ensures
            self@.points.len() == 0 ==> p is None,
            self@.points.len() > 0 ==> p == Some(self@.points.last()),
    {
        if self.points.len() == 0 {
            None
        } else {
            Some(self.points[self.points.len() - 1])
        }
    }

    /// Keeps only the first `offset` points.
    pub fn truncate(&mut self, offset: usize)
        ensures
            final(self)@.points == old(self)@.points.take(
                if offset <= old(self)@.points.len() {
                    offset as int
                } else {
                    old(self)@.points.len() as int
                },
            ),
            final(self)@.fill == old(self)@.fill,
    {
        self.points.truncate(offset);
    }

    /// The point at position `i` in click order.
    pub fn point_at(&self, i: usize) -> (p: Point)
        requires
            i < self@.points.len(),
        ensures
            p == self@.points[i as int],
    {
        self.points[i]
    }

    pub fn fill(&self) -> (f: bool)
        ensures
            f == self@.fill,
    {
        self.fill
    }

    pub fn set_fill(&mut self, fill: bool)
        ensures
            final(self)@.points == old(self)@.points,
            final(self)@.fill == fill,
    {
        self.fill = fill;
    }
}

/// Well-formedness of a path collection: at least one shape, and only the
/// last (active) shape may be empty.
pub open spec fn shapes_wf(shapes: Seq<ShapeView>) -> bool {
    &&& shapes.len() >= 1
    &&& forall|i: int| 0 <= i < shapes.len() - 1 ==> #[trigger] shapes[i].points.len() > 0
}

/// The collection a fresh session starts with: one empty, unfilled shape.
pub open spec fn initial_shapes() -> Seq<ShapeView> {
    seq![ShapeView { points: Seq::empty(), fill: false }]
}

/// Pushing a point appends the cursor position to the active shape; with
/// no cursor present, nothing changes.
pub open spec fn spec_push_point(shapes: Seq<ShapeView>, cursor: Option<Point>) -> Seq<
    ShapeView,
> {
    match cursor {
        None => shapes,
        Some(p) => shapes.update(
            shapes.len() - 1,
            ShapeView { points: shapes.last().points.push(p), fill: shapes.last().fill },
        ),
    }
}

/// Starting a new path stamps the fill flag onto the active shape and
/// appends a fresh empty shape — unless the active shape is still empty,
/// in which case nothing changes.
pub open spec fn spec_new_path(shapes: Seq<ShapeView>, fill: bool) -> Seq<ShapeView> {
    if shapes.last().points.len() == 0 {
        shapes
    } else {
        shapes.update(shapes.len() - 1, ShapeView { points: shapes.last().points, fill }).push(
            ShapeView { points: Seq::empty(), fill: false },
        )
    }
}

/// Deleting a path removes the active shape, unless it is the only one, in
/// which case its points are cleared and the shape itself stays.
pub open spec fn spec_delete_path(shapes: Seq<ShapeView>) -> Seq<ShapeView> {
    if shapes.len() == 1 {
        seq![ShapeView { points: Seq::empty(), fill: shapes[0].fill }]
    } else {
        shapes.drop_last()
    }
}

/// Law: pushing a point while no cursor is present never changes the path
/// collection, whatever state it is in.
pub proof fn lemma_push_point_absent_cursor(shapes: Seq<ShapeView>)
    ensures
        spec_push_point(shapes, None) == shapes,
{
}

/// Law: starting a new path twice in a row, with no point pushed between,
/// does not create two empty shapes — the second call leaves the number of
/// shapes (and the whole collection) unchanged.
pub proof fn lemma_new_path_twice(shapes: Seq<ShapeView>, fill1: bool, fill2: bool)
    requires
        shapes.len() >= 1,
    ensures
        spec_new_path(spec_new_path(shapes, fill1), fill2) == spec_new_path(shapes, fill1),
        spec_new_path(spec_new_path(shapes, fill1), fill2).len() == spec_new_path(
            shapes,
            fill1,
        ).len(),
{
    let once = spec_new_path(shapes, fill1);
    assert(once.last().points.len() == 0);
}

/// Each transition keeps the collection well-formed.
pub proof fn lemma_transitions_preserve_wf(shapes: Seq<ShapeView>)
    requires
        shapes_wf(shapes),
    ensures
        forall|c: Option<Point>| shapes_wf(#[trigger] spec_push_point(shapes, c)),
        forall|f: bool| shapes_wf(#[trigger] spec_new_path(shapes, f)),
        shapes_wf(spec_delete_path(shapes)),
{
    assert forall|c: Option<Point>| shapes_wf(#[trigger] spec_push_point(shapes, c)) by {
        let after = spec_push_point(shapes, c);
        assert forall|i: int| 0 <= i < after.len() - 1 implies #[trigger] after[i].points.len()
            > 0 by {
            assert(after[i] == shapes[i]);
        }
    }
    assert forall|f: bool| shapes_wf(#[trigger] spec_new_path(shapes, f)) by {
        let after = spec_new_path(shapes, f);
        assert forall|i: int| 0 <= i < after.len() - 1 implies #[trigger] after[i].points.len()
            > 0 by {
            if shapes.last().points.len() > 0 && i == shapes.len() - 1 {
                assert(after[i].points == shapes.last().points);
            }
        }
    }
}

} // verus!
