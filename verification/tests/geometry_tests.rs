use render_core::geometry::{
    attributes, floats_per_vertex, GeometryBuffer, GeometryError, Topology, VertexLayout,
};

#[test]
fn strides_follow_the_layout_table() {
    assert_eq!(floats_per_vertex(VertexLayout::Position), 3);
    assert_eq!(floats_per_vertex(VertexLayout::PositionColor), 6);
    assert_eq!(floats_per_vertex(VertexLayout::PositionTexcoord), 5);
    assert_eq!(floats_per_vertex(VertexLayout::PositionColorTexcoord), 8);
}

#[test]
fn attribute_tables_follow_the_layout_table() {
    let a = attributes(VertexLayout::Position);
    assert_eq!(a.len(), 1);
    assert_eq!((a[0].location, a[0].components, a[0].offset), (0, 3, 0));

    let a = attributes(VertexLayout::PositionColor);
    assert_eq!(a.len(), 2);
    assert_eq!((a[1].location, a[1].components, a[1].offset), (1, 3, 3));

    let a = attributes(VertexLayout::PositionTexcoord);
    assert_eq!(a.len(), 2);
    assert_eq!((a[1].location, a[1].components, a[1].offset), (1, 2, 3));

    let a = attributes(VertexLayout::PositionColorTexcoord);
    assert_eq!(a.len(), 3);
    assert_eq!((a[0].location, a[0].components, a[0].offset), (0, 3, 0));
    assert_eq!((a[1].location, a[1].components, a[1].offset), (1, 3, 3));
    assert_eq!((a[2].location, a[2].components, a[2].offset), (2, 2, 6));
}

#[test]
fn indexed_quad_draws_six_elements() {
    // Four vertices of position+color+texcoord (8 scalars each) and the
    // two-triangle index pattern of a quad.
    let vertices = vec![0u32; 32];
    let indices = vec![0u32, 1, 3, 1, 2, 3];
    let g = GeometryBuffer::create(
        VertexLayout::PositionColorTexcoord,
        vertices,
        Some(indices),
    )
    .unwrap();
    assert_eq!(g.element_count(), 6);
    let d = g.draw_call();
    assert!(d.indexed);
    assert_eq!(d.count, 6);
    assert_eq!(d.topology, Topology::Triangles);
}

#[test]
fn one_triangle_draws_three_vertices() {
    // Nine scalars of plain positions: one triangle, no index store.
    let vertices = vec![0u32; 9];
    let g = GeometryBuffer::create(VertexLayout::Position, vertices, None).unwrap();
    assert_eq!(g.element_count(), 3);
    let d = g.draw_call();
    assert!(!d.indexed);
    assert_eq!(d.count, 3);
    assert_eq!(d.topology, Topology::Triangles);
}

#[test]
fn empty_vertex_data_is_rejected() {
    let r = GeometryBuffer::create(VertexLayout::Position, Vec::new(), None);
    assert_eq!(r.unwrap_err(), GeometryError::EmptyVertexData);
}

#[test]
fn topology_can_be_overridden() {
    let mut g = GeometryBuffer::create(VertexLayout::Position, vec![0u32; 9], None).unwrap();
    g.set_primitive(Topology::LineStrip);
    let d = g.draw_call();
    assert_eq!(d.topology, Topology::LineStrip);
    assert_eq!(d.count, 3);
}

#[test]
fn partial_trailing_vertex_is_not_counted() {
    let g = GeometryBuffer::create(VertexLayout::Position, vec![0u32; 10], None).unwrap();
    assert_eq!(g.element_count(), 3);
}
