use voxel_world::{
    voxel_material, BaseColor, Extent, GeneratedTerrain, RenderableVoxel, TerrainError,
    VoxelCoordinate, VoxelTerrain, WorldPosition,
};

fn terrain(x: i64, y: i64, z: i64, cell: i64) -> VoxelTerrain {
    VoxelTerrain::new(Extent { x, y, z }, cell)
}

fn generated(t: &VoxelTerrain) -> GeneratedTerrain {
    match t.generate() {
        Ok(g) => g,
        Err(e) => panic!("unexpected error {:?}", e),
    }
}

fn coords(g: &GeneratedTerrain) -> Vec<(i64, i64, i64)> {
    g.voxels.iter().map(|v| (v.coordinate.x, v.coordinate.y, v.coordinate.z)).collect()
}

fn positions(g: &GeneratedTerrain) -> Vec<(i64, i64, i64)> {
    g.voxels.iter().map(|v| (v.position.x, v.position.y, v.position.z)).collect()
}

#[test]
fn new_keeps_its_arguments() {
    let t = terrain(100, 50, 25, 1);
    assert_eq!(t.size, Extent { x: 100, y: 50, z: 25 });
    assert_eq!(t.voxel_size, 1);
}

#[test]
fn cubic_extent_gives_count_cubed() {
    assert_eq!(generated(&terrain(3, 3, 3, 1)).voxels.len(), 27);
    assert_eq!(generated(&terrain(4, 4, 4, 2)).voxels.len(), 8);
    assert_eq!(generated(&terrain(10, 10, 10, 3)).voxels.len(), 27);
    assert_eq!(generated(&terrain(1, 1, 1, 1)).voxels.len(), 1);
}

#[test]
fn hundred_cube_at_unit_cell_gives_a_million_voxels() {
    assert_eq!(generated(&terrain(100, 100, 100, 1)).voxels.len(), 1_000_000);
}

#[test]
fn fractional_remainder_is_discarded() {
    // floor(5 / 2) = 2 cells per axis
    let g = generated(&terrain(5, 5, 5, 2));
    assert_eq!(g.voxels.len(), 8);
    // floor(2999 / 1000) = 2 cells per axis, with lengths in thousandths
    let g = generated(&terrain(2999, 2999, 2999, 1000));
    assert_eq!(g.voxels.len(), 8);
}

#[test]
fn unequal_axes_multiply() {
    let g = generated(&terrain(4, 2, 6, 2));
    assert_eq!(g.voxels.len(), 2 * 1 * 3);
}

#[test]
fn equal_specs_generate_identical_sequences() {
    let a = generated(&terrain(3, 4, 5, 1));
    let b = generated(&terrain(3, 4, 5, 1));
    assert_eq!(a.voxels, b.voxels);
    assert!(!a.voxels.is_empty());
}

#[test]
fn first_and_last_coordinates_of_two_cube() {
    let g = generated(&terrain(2, 2, 2, 1));
    let c = coords(&g);
    assert_eq!(c[0], (-1, -1, -1));
    assert_eq!(c[c.len() - 1], (0, 0, 0));
    assert_eq!(*c.iter().min().unwrap(), c[0]);
    assert_eq!(*c.iter().max().unwrap(), c[c.len() - 1]);
}

#[test]
fn emission_is_strictly_ascending() {
    let g = generated(&terrain(3, 2, 4, 1));
    let c = coords(&g);
    for w in c.windows(2) {
        assert!(w[0] < w[1], "{:?} then {:?}", w[0], w[1]);
    }
    assert_eq!(c[0], (-1, -1, -2));
    assert_eq!(c[c.len() - 1], (1, 0, 1));
}

#[test]
fn zero_extent_gives_no_voxels() {
    let g = generated(&terrain(0, 0, 0, 1));
    assert!(g.voxels.is_empty());
}

#[test]
fn one_empty_axis_gives_no_voxels() {
    assert!(generated(&terrain(4, 0, 4, 1)).voxels.is_empty());
    assert!(generated(&terrain(4, 4, 1, 2)).voxels.is_empty());
}

#[test]
fn zero_cell_size_is_invalid() {
    assert_eq!(terrain(2, 2, 2, 0).generate().err(), Some(TerrainError::InvalidSpec));
}

#[test]
fn negative_cell_size_is_invalid() {
    assert_eq!(terrain(2, 2, 2, -1).generate().err(), Some(TerrainError::InvalidSpec));
}

#[test]
fn negative_extent_is_invalid() {
    assert_eq!(terrain(-1, 2, 2, 1).generate().err(), Some(TerrainError::InvalidSpec));
    assert_eq!(terrain(2, -1, 2, 1).generate().err(), Some(TerrainError::InvalidSpec));
    assert_eq!(terrain(2, 2, -5, 1).generate().err(), Some(TerrainError::InvalidSpec));
}

#[test]
fn two_cube_at_unit_cell_scenario() {
    let g = generated(&terrain(2, 2, 2, 1));
    let expected: Vec<(i64, i64, i64)> = vec![
        (-1, -1, -1),
        (-1, -1, 0),
        (-1, 0, -1),
        (-1, 0, 0),
        (0, -1, -1),
        (0, -1, 0),
        (0, 0, -1),
        (0, 0, 0),
    ];
    assert_eq!(coords(&g), expected);
    assert_eq!(positions(&g), expected);
}

#[test]
fn positions_scale_by_cell_size() {
    let g = generated(&terrain(4, 2, 6, 2));
    assert_eq!(coords(&g), vec![(-1, 0, -1), (-1, 0, 0), (-1, 0, 1), (0, 0, -1), (0, 0, 0), (0, 0, 1)]);
    assert_eq!(positions(&g), vec![(-2, 0, -2), (-2, 0, 0), (-2, 0, 2), (0, 0, -2), (0, 0, 0), (0, 0, 2)]);
}

#[test]
fn odd_count_is_centred_with_extra_cell_above() {
    let g = generated(&terrain(3, 1, 1, 1));
    assert_eq!(coords(&g), vec![(-1, 0, 0), (0, 0, 0), (1, 0, 0)]);
}

#[test]
fn positions_in_thousandths() {
    let g = generated(&terrain(2000, 2000, 2000, 1000));
    assert_eq!(
        g.voxels[0],
        RenderableVoxel {
            coordinate: VoxelCoordinate { x: -1, y: -1, z: -1 },
            position: WorldPosition { x: -1000, y: -1000, z: -1000 },
        }
    );
    assert_eq!(g.voxels[7].position, WorldPosition { x: 0, y: 0, z: 0 });
}

#[test]
fn every_voxel_shares_one_material() {
    let g = generated(&terrain(2, 2, 2, 1));
    let m = voxel_material();
    assert_eq!(g.material, m);
    assert_eq!(m.base_color, BaseColor { red: 40, green: 70, blue: 30 });
}

#[test]
fn every_grid_cell_is_emitted_once() {
    let g = generated(&terrain(3, 4, 2, 1));
    let c = coords(&g);
    assert_eq!(c.len(), 24);
    for x in -1..2 {
        for y in -2..2 {
            for z in -1..1 {
                assert_eq!(c.iter().filter(|&&p| p == (x, y, z)).count(), 1, "{:?}", (x, y, z));
            }
        }
    }
    // cell at offsets (a, b, c) = (2, 1, 1) sits at (a * ny + b) * nz + c
    assert_eq!(c[(2 * 4 + 1) * 2 + 1], (1, -1, 0));
}

#[test]
fn cell_counts_floor_each_axis() {
    assert_eq!(terrain(5, 4, 7, 2).cell_counts(), Ok((2, 2, 3)));
    assert_eq!(terrain(100, 100, 100, 1).cell_counts(), Ok((100, 100, 100)));
    assert_eq!(terrain(0, 0, 0, 3).cell_counts(), Ok((0, 0, 0)));
}

#[test]
fn cell_counts_reject_invalid_specs() {
    assert_eq!(terrain(5, 4, 7, 0).cell_counts(), Err(TerrainError::InvalidSpec));
    assert_eq!(terrain(5, -4, 7, 1).cell_counts(), Err(TerrainError::InvalidSpec));
}
