use gg_engine::mesh::{
    cube_indices, flip_winding, gltf_primitive_indices, mesh_vertex_layout, plane_indices, sequential_indices,
    sphere_dimensions, sphere_indices, Mesh,
};

#[test]
fn mesh_merge() {
    let a = Mesh { vertices: (0..24u32).collect::<Vec<u32>>(), indices: cube_indices(), name: "cube".to_string() };
    let b = Mesh { vertices: (0..4u32).collect::<Vec<u32>>(), indices: plane_indices(), name: "plane".to_string() };
    let a_verts = a.vertices.len();
    let a_idx = a.indices.len();
    let b_verts = b.vertices.len();
    let b_idx = b.indices.len();
    let merged = Mesh::merge(vec![a, b], "merged".into());
    assert_eq!(merged.vertices.len(), a_verts + b_verts);
    assert_eq!(merged.indices.len(), a_idx + b_idx);
    assert_eq!(merged.name, "merged");
}

#[test]
fn merge_shifts_indices_of_later_meshes() {
    let a = Mesh { vertices: vec![0u8, 1, 2], indices: vec![0, 1, 2], name: String::new() };
    let b = Mesh { vertices: vec![3u8, 4, 5, 6], indices: vec![0, 2, 3], name: String::new() };
    let merged = Mesh::merge(vec![a, b], "ab".to_string());
    assert_eq!(merged.vertices, vec![0, 1, 2, 3, 4, 5, 6]);
    assert_eq!(merged.indices, vec![0, 1, 2, 3, 5, 6]);
    let empty: Mesh<u8> = Mesh::merge(Vec::new(), "none".to_string());
    assert!(empty.vertices.is_empty() && empty.indices.is_empty());
}

#[test]
fn cube_and_plane_indices() {
    let c = cube_indices();
    assert_eq!(c.len(), 36);
    assert_eq!(&c[0..6], &[0, 2, 1, 0, 3, 2]);
    assert_eq!(&c[30..36], &[20, 22, 21, 20, 23, 22]);
    assert!(c.iter().all(|&i| i < 24));
    assert_eq!(plane_indices(), vec![0, 1, 2, 0, 2, 3]);
}

#[test]
fn sphere_grid_minimums_and_indices() {
    assert_eq!(sphere_dimensions(1, 1), (3, 2));
    assert_eq!(sphere_dimensions(32, 16), (32, 16));
    let idx = sphere_indices(3, 2);
    assert_eq!(idx.len(), 6 * 3 * 2);
    assert_eq!(&idx[0..6], &[0, 4, 1, 1, 4, 5]);
    assert!(idx.iter().all(|&i| i < 12));
}

#[test]
fn flip_winding_swaps_last_two_of_each_triangle() {
    assert_eq!(flip_winding(&[0, 1, 2, 3, 4, 5]), vec![0, 2, 1, 3, 5, 4]);
    assert_eq!(flip_winding(&[0, 1, 2, 7]), vec![0, 2, 1]);
    assert_eq!(flip_winding(&flip_winding(&[4, 5, 6])), vec![4, 5, 6]);
}

#[test]
fn gltf_indices_with_and_without_index_buffer() {
    assert_eq!(gltf_primitive_indices(Some(vec![0, 1, 2]), 3), vec![0, 2, 1]);
    assert_eq!(gltf_primitive_indices(None, 4), vec![0, 1, 2, 3]);
    assert_eq!(sequential_indices(0), Vec::<u32>::new());
}

#[test]
fn mesh_vertex_layout_is_48_bytes() {
    let layout = mesh_vertex_layout();
    assert_eq!(layout.stride(), 48);
    let offsets: Vec<u32> = layout.elements().iter().map(|e| e.offset).collect();
    assert_eq!(offsets, vec![0, 12, 24, 32]);
}
