use sketchpad::coord::COORD_ONE;
use sketchpad::coord::Point;
use sketchpad::engine::BufferSync;
use sketchpad::engine::State;
use sketchpad::geometry::VertexSlot;

const ONE: i64 = COORD_ONE;
const RADIUS: i64 = 655;

/// A fresh engine with the cursor disc already written at the origin.
fn engine_with_cursor() -> State {
    let mut state = State::new(RADIUS, 6);
    state.update_cursor(0, 0, ONE);
    state
}

fn push_at(state: &mut State, x: i64, y: i64) {
    state.update_cursor(x, y, ONE);
    state.push_point();
}

#[test]
fn fresh_session() {
    let state = State::new(RADIUS, 6);
    assert_eq!(state.shape_count(), 1);
    assert_eq!(state.shape_at(0).len(), 0);
    assert_eq!(state.cursor(), Some(Point { x: 0, y: 0 }));
    assert_eq!(state.vertices().len(), 0);
    assert_eq!(state.indices().len(), 0);
    assert_eq!(state.vertex_capacity(), 0);
    assert_eq!(state.index_capacity(), 0);
}

#[test]
fn cursor_write_fills_prefix() {
    let state = engine_with_cursor();
    assert_eq!(state.vertices().len(), 7);
    assert_eq!(state.indices().len(), 18);
    assert_eq!(
        state.vertices()[0],
        VertexSlot::DiscCenter { center: Point { x: 0, y: 0 }, radius: RADIUS }
    );
}

#[test]
fn cursor_move_rewrites_prefix_in_place() {
    let mut state = engine_with_cursor();
    let indices_before = state.indices().clone();
    state.update_cursor(ONE / 2, ONE / 2, ONE);
    let center = Point { x: ONE / 2, y: ONE / 2 };
    assert_eq!(state.vertices().len(), 7);
    assert_eq!(
        state.vertices()[0],
        VertexSlot::DiscCenter { center, radius: RADIUS }
    );
    assert_eq!(
        state.vertices()[1],
        VertexSlot::DiscRim { center, radius: RADIUS, seg: 0, segment_count: 6 }
    );
    assert_eq!(state.indices(), &indices_before);
}

#[test]
fn cursor_visibility_threshold() {
    let mut state = State::new(RADIUS, 6);
    state.update_cursor(2 * ONE, 0, ONE);
    assert_eq!(state.cursor(), Some(Point { x: 2 * ONE, y: 0 }));
    state.update_cursor(2 * ONE + 1, 0, ONE);
    assert_eq!(state.cursor(), None);
    state.update_cursor(-2 * ONE, 123, ONE);
    assert_eq!(state.cursor(), Some(Point { x: -2 * ONE, y: 123 }));
    state.update_cursor(-2 * ONE - 1, 123, ONE);
    assert_eq!(state.cursor(), None);
}

#[test]
fn push_without_cursor_changes_nothing() {
    let mut state = engine_with_cursor();
    push_at(&mut state, 0, 0);
    push_at(&mut state, ONE, 0);
    state.update_cursor(3 * ONE, 0, ONE);
    assert_eq!(state.cursor(), None);
    let vertices_before = state.vertices().clone();
    let indices_before = state.indices().clone();
    state.push_point();
    assert_eq!(state.shape_count(), 1);
    assert_eq!(state.shape_at(0).len(), 2);
    assert_eq!(state.vertices(), &vertices_before);
    assert_eq!(state.indices(), &indices_before);
}

#[test]
fn push_before_first_cursor_write_keeps_stream_empty() {
    let mut state = State::new(RADIUS, 6);
    state.push_point();
    assert_eq!(state.shape_at(0).len(), 1);
    assert_eq!(state.shape_at(0).point_at(0), Point { x: 0, y: 0 });
    assert_eq!(state.vertices().len(), 0);
    assert_eq!(state.indices().len(), 0);
}

#[test]
fn two_shapes_scenario() {
    let mut state = engine_with_cursor();
    push_at(&mut state, 0, 0);
    push_at(&mut state, ONE, 0);
    state.new_path(false);
    push_at(&mut state, ONE / 2, ONE / 2);

    assert_eq!(state.shape_count(), 2);
    let first = state.shape_at(0);
    assert_eq!(first.len(), 2);
    assert_eq!(first.point_at(0), Point { x: 0, y: 0 });
    assert_eq!(first.point_at(1), Point { x: ONE, y: 0 });
    assert!(!first.fill());
    let second = state.shape_at(1);
    assert_eq!(second.len(), 1);
    assert_eq!(second.point_at(0), Point { x: ONE / 2, y: ONE / 2 });

    // 3 point discs + 1 stroke + 1 closing stroke after the cursor disc.
    assert_eq!(state.vertices().len(), 7 + 3 * 7 + 4 + 4);
    assert_eq!(state.indices().len(), 18 + 3 * 18 + 6 + 6);
}

#[test]
fn single_point_stream_content() {
    let mut state = engine_with_cursor();
    push_at(&mut state, ONE, -ONE);
    let p = Point { x: ONE, y: -ONE };
    assert_eq!(state.shape_at(0).last(), Some(p));

    // Cursor disc slots, then the point's disc slots.
    let vertices = state.vertices();
    assert_eq!(vertices.len(), 14);
    assert_eq!(vertices[7], VertexSlot::DiscCenter { center: p, radius: RADIUS });
    for seg in 0..6usize {
        assert_eq!(
            vertices[8 + seg],
            VertexSlot::DiscRim { center: p, radius: RADIUS, seg, segment_count: 6 }
        );
    }

    // The point's disc fan, based at vertex 7.
    let indices = state.indices();
    assert_eq!(indices.len(), 36);
    assert_eq!(
        &indices[18..36],
        &[7, 8, 9, 7, 9, 10, 7, 10, 11, 7, 11, 12, 7, 12, 13, 7, 13, 8]
    );
}

#[test]
fn new_path_twice_adds_one_shape_only() {
    let mut state = engine_with_cursor();
    push_at(&mut state, 0, 0);
    state.new_path(false);
    assert_eq!(state.shape_count(), 2);
    state.new_path(true);
    assert_eq!(state.shape_count(), 2);
    // The second call was a no-op: the closed shape keeps its first flag.
    assert!(!state.shape_at(0).fill());
    assert_eq!(state.shape_at(1).len(), 0);
}

#[test]
fn delete_on_single_shape_empties_it() {
    let mut state = engine_with_cursor();
    push_at(&mut state, 0, 0);
    push_at(&mut state, ONE, 0);
    assert_eq!(state.shape_at(0).len(), 2);
    state.delete_path();
    assert_eq!(state.shape_count(), 1);
    assert_eq!(state.shape_at(0).len(), 0);
    // All path geometry is gone; the cursor disc stays.
    assert_eq!(state.vertices().len(), 7);
    assert_eq!(state.indices().len(), 18);
}

#[test]
fn delete_on_empty_session_is_a_quiet_no_op() {
    let mut state = State::new(RADIUS, 6);
    state.delete_path();
    assert_eq!(state.shape_count(), 1);
    assert_eq!(state.shape_at(0).len(), 0);
    assert_eq!(state.indices().len(), 0);
}

#[test]
fn delete_removes_active_shape() {
    let mut state = engine_with_cursor();
    push_at(&mut state, 0, 0);
    push_at(&mut state, ONE, 0);
    state.new_path(false);
    push_at(&mut state, ONE / 2, ONE / 2);
    assert_eq!(state.shape_count(), 2);
    state.delete_path();
    assert_eq!(state.shape_count(), 1);
    assert_eq!(state.shape_at(0).len(), 2);
    // The remaining shape is active again: no closing stroke.
    assert_eq!(state.vertices().len(), 7 + 2 * 7 + 4);
    assert_eq!(state.indices().len(), 18 + 2 * 18 + 6);
}

#[test]
fn filled_triangle_stream_layout() {
    let mut state = engine_with_cursor();
    push_at(&mut state, 0, 0);
    push_at(&mut state, ONE, 0);
    push_at(&mut state, 0, ONE);
    state.new_path(true);

    assert!(state.shape_at(0).fill());
    // Cursor disc, 3 point discs, 2 strokes, 3 fill points, closing stroke.
    assert_eq!(state.vertices().len(), 7 + 3 * 7 + 2 * 4 + 3 + 4);
    // 93 raw indices, padded to 94.
    assert_eq!(state.indices().len(), 94);
    let indices = state.indices();
    // The one fill triangle of a 3-point shape, based at vertex 36.
    assert_eq!(&indices[84..87], &[36, 37, 38]);
    // The closing stroke quad, based at vertex 39.
    assert_eq!(&indices[87..93], &[39, 40, 41, 40, 41, 42]);
    // The padding index.
    assert_eq!(indices[93], 0);
}

#[test]
fn index_count_stays_even() {
    let mut state = engine_with_cursor();
    assert_eq!(state.indices().len() % 2, 0);
    push_at(&mut state, 0, 0);
    assert_eq!(state.indices().len() % 2, 0);
    push_at(&mut state, ONE, 0);
    push_at(&mut state, 0, ONE);
    assert_eq!(state.indices().len() % 2, 0);
    state.new_path(true);
    assert_eq!(state.indices().len() % 2, 0);
    state.delete_path();
    assert_eq!(state.indices().len() % 2, 0);
}

#[test]
fn cursor_disc_indices_stay_in_prefix() {
    let mut state = engine_with_cursor();
    push_at(&mut state, 0, 0);
    push_at(&mut state, ONE, 0);
    state.new_path(true);
    for k in 0..18 {
        assert!(state.indices()[k] < 7);
    }
}

#[test]
fn buffer_growth_and_in_place_write() {
    // 7 segments: the cursor disc alone is 8 vertices = 64 bytes.
    let mut state = State::new(RADIUS, 7);
    state.update_cursor(0, 0, ONE);
    assert_eq!(state.vertices().len(), 8);

    // Capacity 0, required 64: allocate exactly 64.
    assert_eq!(state.check_buffer(), BufferSync::Reallocate { bytes: 64 });
    assert_eq!(state.vertex_capacity(), 64);

    // One point disc more: 128 bytes.
    state.push_point();
    assert_eq!(state.vertices().len(), 16);
    assert_eq!(state.check_buffer(), BufferSync::Reallocate { bytes: 128 });
    assert_eq!(state.vertex_capacity(), 128);

    // Back to 64 bytes of content: capacity 128, required 64 is written
    // in place and the capacity never shrinks.
    state.delete_path();
    assert_eq!(state.vertices().len(), 8);
    assert_eq!(state.check_buffer(), BufferSync::WriteInPlace { bytes: 64 });
    assert_eq!(state.vertex_capacity(), 128);
}

#[test]
fn index_buffer_growth() {
    let mut state = engine_with_cursor();
    assert_eq!(state.indices().len(), 18);
    assert_eq!(state.check_index_buffer(), BufferSync::Reallocate { bytes: 36 });
    assert_eq!(state.index_capacity(), 36);
    assert_eq!(state.check_index_buffer(), BufferSync::WriteInPlace { bytes: 36 });
    assert_eq!(state.index_capacity(), 36);
}

#[test]
fn draw_plan_ranges() {
    let mut state = engine_with_cursor();
    // Nothing synced yet: an empty index buffer draws nothing.
    let plan = state.draw_plan();
    assert_eq!(plan.cursor_range, None);
    assert_eq!(plan.path_range, None);

    // Cursor only: the path range would be empty and is omitted.
    state.check_index_buffer();
    let plan = state.draw_plan();
    assert_eq!(plan.cursor_range, Some((0, 18)));
    assert_eq!(plan.path_range, None);

    // Path geometry present and synced.
    push_at(&mut state, 0, 0);
    push_at(&mut state, ONE, 0);
    state.new_path(false);
    state.check_index_buffer();
    let plan = state.draw_plan();
    assert_eq!(plan.cursor_range, Some((0, 18)));
    assert_eq!(plan.path_range, Some((18, 66)));

    // Hidden cursor: its range is omitted, paths still drawn.
    state.update_cursor(3 * ONE, 0, ONE);
    let plan = state.draw_plan();
    assert_eq!(plan.cursor_range, None);
    assert_eq!(plan.path_range, Some((18, 66)));
}

#[test]
fn draw_plan_clamps_to_buffer_capacity() {
    let mut state = engine_with_cursor();
    state.check_index_buffer();
    // Content grows, but the buffer was not synced: the stale tail is
    // clamped away, leaving only the cursor prefix range.
    push_at(&mut state, 0, 0);
    push_at(&mut state, ONE, 0);
    assert_eq!(state.indices().len(), 60);
    let plan = state.draw_plan();
    assert_eq!(plan.cursor_range, Some((0, 18)));
    assert_eq!(plan.path_range, None);
}
