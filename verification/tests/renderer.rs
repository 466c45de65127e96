use sich_engine::render::terrain_renderer::{
    append_layer_meshes, generate_terrain_meshes, plan_terrain_layer, tile_hash, tile_quad,
    variant_texture_id, visible_tile_range, tile_sand_corners, SandCorners, TileQuad, TileRange, MAX_MESH_INDICES,
};
use sich_engine::world::grid::TerrainGrid;

fn grid(width: usize, height: usize) -> TerrainGrid<u32> {
    let heights: Vec<u8> = (0..width * height).map(|i| (i % 7) as u8).collect();
    TerrainGrid::new(width, height, 0u32, heights)
}

#[test]
fn tile_hash_known_values() {
    assert_eq!(tile_hash(0, 0), 0);
    assert_eq!(tile_hash(1, 0), 44);
    assert_eq!(tile_hash(0, 1), 59);
    assert_eq!(tile_hash(5, 7), 19);
    assert_eq!(tile_hash(100, 200), 90);
}

#[test]
fn tile_hash_is_below_100() {
    for x in 0..50 {
        for y in 0..50 {
            assert!(tile_hash(x, y) < 100);
        }
    }
}

#[test]
fn variant_texture_families() {
    assert_eq!(variant_texture_id(110, 10), 110);
    assert_eq!(variant_texture_id(110, 60), 109);
    assert_eq!(variant_texture_id(110, 80), 108);
    assert_eq!(variant_texture_id(143, 49), 143);
    assert_eq!(variant_texture_id(143, 50), 139);
    assert_eq!(variant_texture_id(142, 99), 139);
    assert_eq!(variant_texture_id(81, 74), 82);
    assert_eq!(variant_texture_id(81, 75), 80);
    assert_eq!(variant_texture_id(7, 99), 7);
}

#[test]
fn visible_range_is_clamped() {
    let g = grid(10, 8);
    let r = visible_tile_range(&g, 2, 100, 0, 100).unwrap();
    assert_eq!(r, TileRange { start_x: 2, end_x: 9, start_y: 0, end_y: 7 });
}

#[test]
fn visible_range_empty_cases() {
    let g = grid(10, 8);
    assert_eq!(visible_tile_range(&g, 5, 5, 0, 3), None);
    assert_eq!(visible_tile_range(&g, 9, 100, 0, 3), None);
    assert_eq!(visible_tile_range(&grid(1, 8), 0, 5, 0, 5), None);
    assert_eq!(visible_tile_range(&grid(8, 1), 0, 5, 0, 5), None);
}

#[test]
fn tile_quad_reads_corner_heights_and_atlas_cell() {
    let g = TerrainGrid::new(3, 3, 0u32, vec![1, 2, 3, 4, 5, 6, 7, 8, 9]);
    let q = tile_quad(&g, 0, 0, 110);
    assert_eq!((q.h_top, q.h_right, q.h_bottom, q.h_left), (1, 2, 5, 4));
    // hash(0, 0) == 0 keeps 110: atlas column 2, row 27.
    assert_eq!((q.atlas_col, q.atlas_row), (2, 27));
    let edge = tile_quad(&g, 2, 2, 9);
    assert_eq!((edge.h_top, edge.h_right, edge.h_bottom, edge.h_left), (9, 9, 9, 9));
    assert_eq!((edge.atlas_col, edge.atlas_row), (1, 2));
}

#[test]
fn plan_covers_the_window_row_by_row() {
    let g = grid(6, 5);
    let r = TileRange { start_x: 1, end_x: 4, start_y: 2, end_y: 4 };
    let plan = plan_terrain_layer(&g, r, 5);
    let coords: Vec<(usize, usize)> = plan.iter().map(|q| (q.x, q.y)).collect();
    assert_eq!(coords, vec![(1, 2), (2, 2), (3, 2), (1, 3), (2, 3), (3, 3)]);
    assert_eq!(plan[4], tile_quad(&g, 2, 3, 5));
}

#[test]
fn append_packs_quads_five_hundred_per_mesh() {
    let quads: Vec<Option<[u32; 4]>> = (0..1203u32)
        .map(|i| if i % 3 == 2 { None } else { Some([4 * i, 4 * i + 1, 4 * i + 2, 4 * i + 3]) })
        .collect();
    let kept: Vec<[u32; 4]> = quads.iter().flatten().copied().collect();
    assert_eq!(kept.len(), 802);
    let mut meshes = Vec::new();
    append_layer_meshes(&mut meshes, quads);
    assert_eq!(meshes.len(), 2);
    assert_eq!(meshes[0].vertices.len(), 2000);
    assert_eq!(meshes[0].indices.len(), MAX_MESH_INDICES);
    assert_eq!(meshes[1].vertices.len(), 4 * 302);
    assert_eq!(&meshes[0].indices[0..12], &[0, 1, 2, 0, 2, 3, 4, 5, 6, 4, 6, 7]);
    assert_eq!(&meshes[1].vertices[0..4], &kept[500]);
    for m in &meshes {
        assert!(m.indices.iter().all(|i| (*i as usize) < m.vertices.len()));
    }
    let all: Vec<u32> = meshes.iter().flat_map(|m| m.vertices.clone()).collect();
    let expected: Vec<u32> = kept.iter().flat_map(|q| q.to_vec()).collect();
    assert_eq!(all, expected);
}

#[test]
fn append_exactly_full_mesh_and_empty_layer() {
    let mut meshes = Vec::new();
    append_layer_meshes(&mut meshes, (0..500u32).map(|i| Some([i; 4])).collect());
    assert_eq!(meshes.len(), 1);
    append_layer_meshes(&mut meshes, vec![None::<[u32; 4]>; 10]);
    assert_eq!(meshes.len(), 1);
    append_layer_meshes(&mut meshes, vec![Some([7u32; 4])]);
    assert_eq!(meshes.len(), 2);
    assert_eq!(meshes[1].indices, vec![0, 1, 2, 0, 2, 3]);
}

#[test]
fn generate_builds_base_then_sand_layer() {
    let g = grid(30, 30);
    let meshes = generate_terrain_meshes(&g, 0, 100, 0, 100, 7, 110, |q: TileQuad, sand: Option<SandCorners<u32>>| {
        let sand = sand.is_some();
        if sand && q.x % 2 == 0 {
            None
        } else {
            Some([(q.x, q.y, sand); 4])
        }
    });
    // 29 x 29 = 841 base quads, then the 29 * 14 = 406 odd columns of sand.
    assert_eq!(meshes.len(), 3);
    assert_eq!(meshes[0].vertices.len(), 4 * 500);
    assert_eq!(meshes[1].vertices.len(), 4 * 341);
    assert_eq!(meshes[2].vertices.len(), 4 * 406);
    assert_eq!(meshes[0].vertices[0], (0, 0, false));
    assert_eq!(meshes[1].vertices[0], (7, 17, false));
    assert_eq!(meshes[2].vertices[0], (1, 0, true));
    assert!(meshes[2].vertices.iter().all(|v| v.2 && v.0 % 2 == 1));
}

#[test]
fn generate_on_empty_window_is_empty() {
    let g = grid(30, 30);
    let meshes = generate_terrain_meshes(&g, 5, 5, 0, 10, 7, 110, |q: TileQuad, _s: Option<SandCorners<u32>>| {
        Some([q.x; 4])
    });
    assert!(meshes.is_empty());
}

#[test]
fn visible_quads_read_real_corner_heights() {
    let g = grid(6, 5);
    let r = visible_tile_range(&g, 0, 99, 0, 99).unwrap();
    assert!(r.end_x < g.width && r.end_y < g.height);
    for q in plan_terrain_layer(&g, r, 3) {
        assert_eq!(Some(q.h_top), g.get_height(q.x, q.y));
        assert_eq!(Some(q.h_right), g.get_height(q.x + 1, q.y));
        assert_eq!(Some(q.h_bottom), g.get_height(q.x + 1, q.y + 1));
        assert_eq!(Some(q.h_left), g.get_height(q.x, q.y + 1));
    }
}

#[test]
fn base_layer_keeps_one_quad_per_tile() {
    let g = grid(4, 4);
    let meshes = generate_terrain_meshes(&g, 0, 9, 0, 9, 7, 110, |q: TileQuad, sand: Option<SandCorners<u32>>| {
        if sand.is_some() { None } else { Some([(q.x, q.y); 4]) }
    });
    // 3 x 3 base quads in one mesh, no sand mesh.
    assert_eq!(meshes.len(), 1);
    let corners: Vec<(usize, usize)> = meshes[0].vertices.iter().step_by(4).copied().collect();
    assert_eq!(corners, vec![(0, 0), (1, 0), (2, 0), (0, 1), (1, 1), (2, 1), (0, 2), (1, 2), (2, 2)]);
}

#[test]
fn sand_layer_gets_the_corner_weights() {
    let mut g = grid(4, 4);
    g.add_sand_weight_in_radius(2, 1, 1, |w: u32, dx: isize, dy: isize| w + 10 * (dy + 1) as u32 + (dx + 1) as u32 + 1);
    assert_eq!(
        tile_sand_corners(&g, 1, 0),
        SandCorners { top: 1, right: 2, bottom: 12, left: 11 }
    );
    assert_eq!(tile_sand_corners(&g, 0, 2).top, 0);
    let meshes = generate_terrain_meshes(&g, 0, 9, 0, 9, 7, 110, |q: TileQuad, sand: Option<SandCorners<u32>>| {
        match sand {
            None => Some([0u32; 4]),
            Some(c) => {
                assert_eq!(c, tile_sand_corners(&g, q.x, q.y));
                if c.top == 0 && c.right == 0 && c.bottom == 0 && c.left == 0 {
                    None
                } else {
                    Some([c.top, c.right, c.bottom, c.left])
                }
            }
        }
    });
    // Base mesh, then one sand mesh with the tiles that touch the brush.
    assert_eq!(meshes.len(), 2);
    assert_eq!(&meshes[1].vertices[0..4], &[0, 1, 11, 0]);
}

#[test]
fn grid_validity_check() {
    let mut g = grid(3, 2);
    assert!(g.is_well_formed());
    g.heights.pop();
    assert!(!g.is_well_formed());
    let bad = TerrainGrid { width: usize::MAX, height: 1, heights: vec![], sand_weights: vec![0u32], is_passable: vec![] };
    assert!(!bad.is_well_formed());
}
