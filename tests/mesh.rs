use engine::mesh_indices::{
    add_quad_indices, cylinder_indices, grid_indices, heightmap_index, plane_indices,
    unit_cube_indices,
};

#[test]
fn quad_triangles() {
    let mut v = vec![9];
    add_quad_indices(&mut v, 4);
    assert_eq!(v, vec![9, 4, 5, 6, 6, 7, 4]);
}

#[test]
fn cube_and_plane() {
    let cube = unit_cube_indices();
    assert_eq!(cube.len(), 36);
    assert_eq!(&cube[..6], &[0, 1, 2, 2, 3, 0]);
    assert_eq!(&cube[30..], &[20, 21, 22, 22, 23, 20]);
    assert_eq!(plane_indices(), vec![0, 1, 2, 2, 3, 0]);
}

#[test]
fn cylinder_walls_and_caps() {
    let idx = cylinder_indices(3);
    assert_eq!(idx.len(), 36);
    assert_eq!(&idx[..6], &[0, 2, 1, 2, 3, 1]);
    assert_eq!(&idx[12..18], &[4, 6, 5, 6, 7, 5]);
    // rim starts at 8, centres at 16 and 17
    assert_eq!(&idx[18..24], &[16, 10, 8, 17, 9, 11]);
    assert_eq!(&idx[30..36], &[16, 14, 12, 17, 13, 15]);
}

#[test]
fn grid_triangles() {
    assert_eq!(grid_indices(0), Vec::<u32>::new());
    assert_eq!(grid_indices(1), vec![0, 2, 1, 1, 2, 3]);
    let g = grid_indices(2);
    assert_eq!(g.len(), 24);
    assert_eq!(&g[6..12], &[1, 4, 2, 2, 4, 5]);
    assert_eq!(&g[18..24], &[4, 7, 5, 5, 7, 8]);
    assert_eq!(grid_indices(16).len(), 16 * 16 * 6);
}

#[test]
fn heightmap_clamps_to_edges() {
    assert_eq!(heightmap_index(0, 0, 4, 3), 0);
    assert_eq!(heightmap_index(2, 1, 4, 3), 6);
    assert_eq!(heightmap_index(10, 1, 4, 3), 7);
    assert_eq!(heightmap_index(1, 10, 4, 3), 9);
    assert_eq!(heightmap_index(99, 99, 4, 3), 11);
}
