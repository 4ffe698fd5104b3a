use field_gen::bmp::{build_atlas, occupancy_bmp_bytes, Atlas, BmpError};
use field_gen::grid::Grid;
use field_gen::kernel::{box_neighbors, box_offsets, box_traversable_neighbors, ExplicitKernelPropagation, KernelError, KernelMove, KernelPathCheck};
use field_gen::mesh::{boundary_edges, boundary_vertices, MeshError};
use field_gen::occupancy::{lowest_occupied_z, occupied_components, seeds};

fn grid(dims: [usize; 3]) -> Grid {
    Grid { dims }
}

#[test]
fn field_seeds_all_occupied_voxels_in_lowest_occupied_slice() {
    let grid = grid([2, 2, 3]);
    let mut occupancy = vec![0; grid.voxel_count()];
    occupancy[grid.index(0, 1, 1)] = 255;
    occupancy[grid.index(1, 1, 1)] = 255;
    occupancy[grid.index(0, 0, 2)] = 255;

    let seeds = seeds(&occupancy, &grid);

    assert_eq!(seeds, vec![grid.index(0, 1, 1), grid.index(1, 1, 1)]);
}

#[test]
fn empty_occupancy_has_no_seeds() {
    let grid = grid([2, 2, 2]);
    let occupancy = vec![0; grid.voxel_count()];

    assert_eq!(seeds(&occupancy, &grid), Vec::<usize>::new());
    assert_eq!(lowest_occupied_z(&occupancy, &grid), None);
}

#[test]
fn grid_index_and_coords_round_trip() {
    let grid = grid([3, 4, 5]);

    assert_eq!(grid.slice_len(), 12);
    assert_eq!(grid.voxel_count(), 60);
    assert_eq!(grid.index(2, 3, 4), 2 + 3 * 3 + 4 * 12);
    for index in 0..grid.voxel_count() {
        let [x, y, z] = grid.coords(index);
        assert_eq!(grid.index(x, y, z), index);
    }
}

#[test]
fn offset_index_stays_inside_the_grid() {
    let grid = grid([3, 3, 3]);
    let centre = grid.index(1, 1, 1);

    assert_eq!(grid.offset_index(centre, [1, -1, 1]), Some(grid.index(2, 0, 2)));
    assert_eq!(grid.offset_index(grid.index(0, 0, 0), [-1, 0, 0]), None);
    assert_eq!(grid.offset_index(grid.index(2, 2, 2), [0, 0, 1]), None);
}

#[test]
fn components_join_face_neighbours_only() {
    let grid = grid([3, 3, 1]);
    let mut occupancy = vec![0u8; grid.voxel_count()];
    occupancy[grid.index(0, 0, 0)] = 1;
    occupancy[grid.index(1, 0, 0)] = 1;
    occupancy[grid.index(2, 1, 0)] = 1;
    occupancy[grid.index(2, 2, 0)] = 1;
    occupancy[grid.index(0, 2, 0)] = 1;

    let components = occupied_components(&occupancy, &grid);

    assert_eq!(components[grid.index(0, 0, 0)], components[grid.index(1, 0, 0)]);
    assert_eq!(components[grid.index(2, 1, 0)], components[grid.index(2, 2, 0)]);
    assert_ne!(components[grid.index(1, 0, 0)], components[grid.index(2, 1, 0)]);
    assert_ne!(components[grid.index(0, 2, 0)], components[grid.index(0, 0, 0)]);
    assert_ne!(components[grid.index(0, 2, 0)], components[grid.index(2, 2, 0)]);
    assert_eq!(components[grid.index(1, 1, 0)], usize::MAX);
    assert_eq!(components[grid.index(0, 0, 0)], 0);
    assert_eq!(components[grid.index(2, 1, 0)], 1);
    assert_eq!(components[grid.index(0, 2, 0)], 2);
}

#[test]
fn box_neighbourhood_of_a_corner_holds_seven_voxels() {
    let grid = grid([3, 3, 3]);

    assert_eq!(box_offsets().len(), 26);
    assert_eq!(box_neighbors(&grid, grid.index(1, 1, 1)).len(), 26);
    let corner = box_neighbors(&grid, grid.index(0, 0, 0));
    assert_eq!(corner.len(), 7);
    let offsets = box_offsets();
    for (target, k) in corner {
        let [dx, dy, dz] = offsets[k];
        assert!(dx >= 0 && dy >= 0 && dz >= 0);
        assert_eq!(grid.offset_index(grid.index(0, 0, 0), offsets[k]), Some(target));
    }
}

#[test]
fn box_traversable_neighbours_are_occupied() {
    let grid = grid([3, 1, 1]);
    let occupancy = vec![1u8, 1, 0];

    let neighbours = box_traversable_neighbors(&occupancy, &grid, 1);

    assert_eq!(neighbours.iter().map(|(target, _)| *target).collect::<Vec<_>>(), vec![0]);
}

fn kernel_move(offset: [isize; 3], cost: f64) -> KernelMove {
    KernelMove {
        offset,
        cost_bits: cost.to_bits(),
    }
}

#[test]
fn kernel_rejects_empty_zero_and_invalid_moves() {
    assert_eq!(
        ExplicitKernelPropagation::new(vec![], vec![], KernelPathCheck::SweptOccupied).unwrap_err(),
        KernelError::NoMoves
    );
    assert_eq!(
        ExplicitKernelPropagation::new(vec![kernel_move([0, 0, 0], 1.0)], vec![vec![]], KernelPathCheck::SweptOccupied)
            .unwrap_err(),
        KernelError::ZeroOffset
    );
    for cost in [0.0, -1.0, f64::INFINITY, f64::NAN] {
        assert_eq!(
            ExplicitKernelPropagation::new(vec![kernel_move([1, 0, 0], cost)], vec![vec![]], KernelPathCheck::SweptOccupied)
                .unwrap_err(),
            KernelError::InvalidCost
        );
    }
    assert_eq!(KernelError::NoMoves.message(), "kernel must contain at least one move");
    assert_eq!(KernelError::ZeroOffset.message(), "kernel move offset must not be [0, 0, 0]");
    assert_eq!(
        KernelError::InvalidCost.message(),
        "kernel move cost must be finite and greater than zero"
    );
}

#[test]
fn swept_kernel_move_cannot_jump_empty_voxels() {
    let grid = grid([3, 1, 1]);
    let occupancy = vec![255u8, 0, 255];
    let swept = ExplicitKernelPropagation::new(
        vec![kernel_move([2, 0, 0], 1.0)],
        vec![vec![[1, 0, 0]]],
        KernelPathCheck::SweptOccupied,
    )
    .unwrap();
    let endpoint = ExplicitKernelPropagation::new(
        vec![kernel_move([2, 0, 0], 1.0)],
        vec![vec![[1, 0, 0]]],
        KernelPathCheck::EndpointOccupied,
    )
    .unwrap();

    assert_eq!(swept.traversable_neighbors(&occupancy, &grid, 0), vec![]);
    assert_eq!(endpoint.traversable_neighbors(&occupancy, &grid, 0), vec![(2, 0)]);
    assert_eq!(swept.neighbors(&grid, 0), vec![(2, 0)]);
    assert_eq!(swept.move_count(), 1);
    assert_eq!(swept.offsets(), &[[2, 0, 0]]);
    assert_eq!(swept.cost_bits(), &[1.0f64.to_bits()]);
    assert_eq!(swept.path_check(), KernelPathCheck::SweptOccupied);
}

#[test]
fn finds_boundary_edges_on_square_mesh() {
    let triangles = vec![[0, 1, 2], [0, 2, 3]];

    let edges = boundary_edges(4, &triangles).unwrap();

    assert_eq!(edges, vec![[0, 1], [0, 3], [1, 2], [2, 3]]);
}

#[test]
fn boundary_vertices_of_square_mesh_are_its_corners() {
    let triangles = vec![[0, 1, 2], [0, 2, 3]];

    assert_eq!(boundary_vertices(4, &triangles).unwrap(), vec![0, 1, 2, 3]);
}

#[test]
fn closed_tetrahedron_has_no_boundary() {
    let triangles = vec![[0, 1, 2], [0, 3, 1], [0, 2, 3], [1, 3, 2]];

    assert_eq!(boundary_edges(4, &triangles).unwrap(), Vec::<[usize; 2]>::new());
}

#[test]
fn out_of_bounds_vertex_is_rejected() {
    let triangles = vec![[0, 1, 4]];

    assert_eq!(boundary_edges(4, &triangles).unwrap_err(), MeshError::VertexOutOfBounds);
    assert_eq!(
        MeshError::VertexOutOfBounds.message(),
        "mesh triangle references an out-of-bounds vertex"
    );
}

#[test]
fn atlas_is_near_square() {
    let atlas = build_atlas(&grid([4, 3, 5]));

    assert_eq!(atlas.columns, 3);
    assert_eq!(atlas.rows, 2);
    assert_eq!(atlas.width, 12);
    assert_eq!(atlas.height, 6);

    let single = build_atlas(&grid([2, 2, 1]));
    assert_eq!((single.columns, single.rows, single.width, single.height), (1, 1, 2, 2));
}

#[test]
fn bmp_of_two_slices_has_exact_bytes() {
    let grid = grid([1, 1, 2]);
    let atlas = build_atlas(&grid);
    assert_eq!((atlas.columns, atlas.rows), (2, 1));
    let occupancy = vec![255u8, 0];

    let bytes = occupancy_bmp_bytes(&occupancy, None, &grid, &atlas).unwrap();

    assert_eq!(bytes.len(), 54 + 8);
    assert_eq!(&bytes[0..2], b"BM");
    assert_eq!(u32::from_le_bytes(bytes[2..6].try_into().unwrap()), 62);
    assert_eq!(u32::from_le_bytes(bytes[10..14].try_into().unwrap()), 54);
    assert_eq!(i32::from_le_bytes(bytes[18..22].try_into().unwrap()), 2);
    assert_eq!(i32::from_le_bytes(bytes[22..26].try_into().unwrap()), -1);
    assert_eq!(u16::from_le_bytes(bytes[28..30].try_into().unwrap()), 24);
    assert_eq!(u32::from_le_bytes(bytes[34..38].try_into().unwrap()), 8);
    assert_eq!(&bytes[54..62], &[255, 255, 255, 0, 0, 0, 0, 0]);
}

#[test]
fn bmp_field_channel_is_red_and_occupancy_green() {
    let grid = grid([1, 1, 1]);
    let atlas = build_atlas(&grid);
    let occupancy = vec![255u8];
    let red = vec![7u8];

    let bytes = occupancy_bmp_bytes(&occupancy, Some(&red), &grid, &atlas).unwrap();

    assert_eq!(&bytes[54..58], &[0, 255, 7, 0]);
}

#[test]
fn bmp_rejects_oversized_images() {
    let grid = grid([1, 1, 1]);
    let atlas = Atlas {
        columns: 1,
        rows: 1,
        width: 0x8000_0000,
        height: 1,
    };

    assert_eq!(occupancy_bmp_bytes(&[1u8], None, &grid, &atlas).unwrap_err(), BmpError::DimensionsTooLarge);
    assert_eq!(BmpError::DimensionsTooLarge.message(), "BMP dimensions are too large");
}

#[test]
fn atlas_cell_of_a_slice_holds_its_voxels() {
    let grid = grid([2, 2, 5]);
    let atlas = build_atlas(&grid);
    assert_eq!((atlas.columns, atlas.rows, atlas.width, atlas.height), (3, 2, 6, 4));
    let mut occupancy = vec![0u8; grid.voxel_count()];
    occupancy[grid.index(1, 0, 4)] = 255;
    let field: Vec<u8> = (0..grid.voxel_count()).map(|i| i as u8).collect();

    let bytes = occupancy_bmp_bytes(&occupancy, Some(&field), &grid, &atlas).unwrap();

    let stride = 20;
    let (ax, ay) = ((4 % 3) * 2 + 1, (4 / 3) * 2);
    let base = 54 + ay * stride + 3 * ax;
    assert_eq!(bytes[base], 0);
    assert_eq!(bytes[base + 1], 255);
    assert_eq!(bytes[base + 2], grid.index(1, 0, 4) as u8);
    assert_eq!(bytes.iter().skip(54).filter(|byte| **byte == 255).count(), 1);
}

#[test]
fn bmp_rejects_files_beyond_four_gigabytes() {
    let grid = grid([1, 1, 1]);
    let atlas = Atlas {
        columns: 1,
        rows: 1,
        width: 1 << 30,
        height: 2,
    };

    assert_eq!(occupancy_bmp_bytes(&[1u8], None, &grid, &atlas).unwrap_err(), BmpError::FileTooLarge);
    assert_eq!(BmpError::FileTooLarge.message(), "BMP file is too large");
}

#[test]
fn bmp_of_an_empty_grid_is_a_bare_header() {
    let grid = grid([0, 2, 1]);
    let atlas = build_atlas(&grid);
    assert_eq!(atlas.width, 0);
    let bytes = occupancy_bmp_bytes(&[], None, &grid, &atlas).unwrap();
    assert_eq!(bytes.len(), 54);
    assert_eq!(i32::from_le_bytes(bytes[18..22].try_into().unwrap()), 0);
    assert_eq!(i32::from_le_bytes(bytes[22..26].try_into().unwrap()), -2);
}
