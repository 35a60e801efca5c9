use sketchpad::coord::Point;
use sketchpad::geometry::VertexSlot;
use sketchpad::geometry::disc_vertices;
use sketchpad::geometry::draw_line;
use sketchpad::geometry::stroke_segment;

#[test]
fn disc_minimal_segment_count() {
    let center = Point { x: 100, y: -200 };
    let (vertices, indices) = disc_vertices(center, 655, 3, 0);
    assert_eq!(vertices.len(), 3 + 1);
    assert_eq!(indices.len(), 3 * 3);
    assert_eq!(
        vertices[0],
        VertexSlot::DiscCenter { center, radius: 655 }
    );
    for seg in 0..3usize {
        assert_eq!(
            vertices[seg + 1],
            VertexSlot::DiscRim { center, radius: 655, seg, segment_count: 3 }
        );
    }
    assert_eq!(indices, vec![0, 1, 2, 0, 2, 3, 0, 3, 1]);
    for &i in indices.iter() {
        assert!(i < 3 + 1);
    }
}

#[test]
fn disc_six_segments_offset_origin() {
    let center = Point { x: 0, y: 0 };
    let (vertices, indices) = disc_vertices(center, 655, 6, 7);
    assert_eq!(vertices.len(), 6 + 1);
    assert_eq!(indices.len(), 6 * 3);
    assert_eq!(
        indices,
        vec![7, 8, 9, 7, 9, 10, 7, 10, 11, 7, 11, 12, 7, 12, 13, 7, 13, 8]
    );
    for &i in indices.iter() {
        assert!(7 <= i && i < 7 + 6 + 1);
    }
}

#[test]
fn disc_zero_radius_keeps_counts() {
    let center = Point { x: 0, y: 0 };
    let (vertices, indices) = disc_vertices(center, 0, 5, 0);
    assert_eq!(vertices.len(), 6);
    assert_eq!(indices.len(), 15);
}

#[test]
fn stroke_quad_shape() {
    let p1 = Point { x: 0, y: 0 };
    let p2 = Point { x: 65536, y: 65536 };
    let (vertices, indices) = stroke_segment(p1, p2, 655, 10);
    assert_eq!(vertices.len(), 4);
    assert_eq!(indices.len(), 6);
    for corner in 0..4usize {
        assert_eq!(
            vertices[corner],
            VertexSlot::StrokeCorner { p1, p2, radius: 655, corner }
        );
    }
    assert_eq!(indices, vec![10, 11, 12, 11, 12, 13]);
}

#[test]
fn draw_line_appends_to_stream() {
    let p1 = Point { x: 1, y: 2 };
    let p2 = Point { x: 3, y: 4 };
    let mut vertices = vec![VertexSlot::FillPoint { point: p1 }];
    let mut indices = vec![9u16];
    let advance = draw_line(p1, p2, &mut vertices, &mut indices, 7, 1);
    assert_eq!(advance, 4);
    assert_eq!(vertices.len(), 1 + 4);
    assert_eq!(vertices[0], VertexSlot::FillPoint { point: p1 });
    assert_eq!(
        vertices[1],
        VertexSlot::StrokeCorner { p1, p2, radius: 7, corner: 0 }
    );
    assert_eq!(indices, vec![9, 1, 2, 3, 2, 3, 4]);
}
