use sich_engine::world::grid::TerrainGrid;

fn sample_grid() -> TerrainGrid<u32> {
    TerrainGrid::new(3, 2, 0u32, vec![1, 2, 3, 4, 5, 6])
}

#[test]
fn new_grid_has_given_heights_and_is_passable() {
    let g = sample_grid();
    assert_eq!(g.width, 3);
    assert_eq!(g.height, 2);
    assert_eq!(g.heights, vec![1, 2, 3, 4, 5, 6]);
    assert_eq!(g.is_passable, vec![true; 6]);
    assert_eq!(g.sand_weights, vec![0u32; 12]);
}

#[test]
fn get_height_is_row_major() {
    let g = sample_grid();
    assert_eq!(g.get_height(0, 0), Some(1));
    assert_eq!(g.get_height(2, 0), Some(3));
    assert_eq!(g.get_height(0, 1), Some(4));
    assert_eq!(g.get_height(2, 1), Some(6));
}

#[test]
fn get_height_outside_grid_is_none() {
    let g = sample_grid();
    assert_eq!(g.get_height(3, 0), None);
    assert_eq!(g.get_height(0, 2), None);
    assert_eq!(g.get_height(usize::MAX, usize::MAX), None);
}

#[test]
fn height_read_after_write() {
    let mut g = sample_grid();
    g.set_height(1, 1, 42);
    assert_eq!(g.get_height(1, 1), Some(42));
    assert_eq!(g.get_height(1, 0), Some(2));
    assert_eq!(g.get_height(0, 1), Some(4));
    assert_eq!(g.get_is_passable(1, 1), Some(true));
}

#[test]
fn height_write_outside_grid_changes_nothing() {
    let mut g = sample_grid();
    g.set_height(3, 1, 9);
    g.set_height(0, 2, 9);
    assert_eq!(g.heights, vec![1, 2, 3, 4, 5, 6]);
}

#[test]
fn height_last_write_wins() {
    let mut g = sample_grid();
    g.set_height(2, 0, 7);
    g.set_height(2, 0, 8);
    assert_eq!(g.get_height(2, 0), Some(8));
}

#[test]
fn height_writes_commute() {
    let mut a = sample_grid();
    a.set_height(0, 0, 10);
    a.set_height(2, 1, 20);
    let mut b = sample_grid();
    b.set_height(2, 1, 20);
    b.set_height(0, 0, 10);
    assert_eq!(a.heights, b.heights);
}

#[test]
fn passable_read_after_write() {
    let mut g = sample_grid();
    g.set_is_passable(2, 1, false);
    assert_eq!(g.get_is_passable(2, 1), Some(false));
    assert_eq!(g.get_is_passable(1, 1), Some(true));
    assert_eq!(g.get_is_passable(3, 1), None);
    assert_eq!(g.get_height(2, 1), Some(6));
    g.set_is_passable(5, 5, false);
    assert_eq!(g.is_passable.iter().filter(|p| !**p).count(), 1);
}

#[test]
fn sand_weight_vertices_cover_one_more_row_and_column() {
    let g = sample_grid();
    assert_eq!(g.get_sand_weight(3, 2, 7), 0);
    assert_eq!(g.get_sand_weight(4, 2, 7), 7);
    assert_eq!(g.get_sand_weight(3, 3, 7), 7);
}

#[test]
fn brush_updates_the_square_with_offsets() {
    let mut g = TerrainGrid::new(4, 4, (0i32, 0i32, 0u32), vec![0u8; 16]);
    g.add_sand_weight_in_radius(2, 2, 1, |w: (i32, i32, u32), dx: isize, dy: isize| {
        (dx as i32, dy as i32, w.2 + 1)
    });
    for vy in 0..=4usize {
        for vx in 0..=4usize {
            let w = g.get_sand_weight(vx, vy, (9, 9, 9));
            let inside = (1..=3).contains(&vx) && (1..=3).contains(&vy);
            if inside {
                assert_eq!(w, (vx as i32 - 2, vy as i32 - 2, 1));
            } else {
                assert_eq!(w, (0, 0, 0));
            }
        }
    }
}

#[test]
fn brush_is_clipped_at_the_grid_edge() {
    let mut g = TerrainGrid::new(2, 2, 0u32, vec![0u8; 4]);
    g.add_sand_weight_in_radius(0, 0, 1, |w: u32, _dx: isize, _dy: isize| w + 5);
    assert_eq!(g.get_sand_weight(0, 0, 99), 5);
    assert_eq!(g.get_sand_weight(1, 0, 99), 5);
    assert_eq!(g.get_sand_weight(0, 1, 99), 5);
    assert_eq!(g.get_sand_weight(1, 1, 99), 5);
    assert_eq!(g.get_sand_weight(2, 0, 99), 0);
    assert_eq!(g.get_sand_weight(2, 2, 99), 0);
    assert_eq!(g.sand_weights.iter().sum::<u32>(), 20);
}

#[test]
fn brush_visits_each_vertex_once_in_row_order() {
    let mut g = TerrainGrid::new(4, 4, 0u32, vec![0u8; 16]);
    let counter = std::cell::Cell::new(0u32);
    g.add_sand_weight_in_radius(2, 2, 1, |w: u32, _dx: isize, _dy: isize| {
        counter.set(counter.get() + 1);
        w * 100 + counter.get()
    });
    assert_eq!(counter.get(), 9);
    assert_eq!(g.get_sand_weight(1, 1, 99), 1);
    assert_eq!(g.get_sand_weight(3, 1, 99), 3);
    assert_eq!(g.get_sand_weight(1, 2, 99), 4);
    assert_eq!(g.get_sand_weight(3, 3, 99), 9);
}

#[test]
fn brush_with_non_positive_radius_changes_nothing() {
    let mut g = TerrainGrid::new(2, 2, 0u32, vec![0u8; 4]);
    g.add_sand_weight_in_radius(1, 1, 0, |w: u32, _dx: isize, _dy: isize| w + 1);
    g.add_sand_weight_in_radius(1, 1, -3, |w: u32, _dx: isize, _dy: isize| w + 1);
    assert_eq!(g.sand_weights, vec![0u32; 9]);
}

#[test]
fn brush_keeps_tiles() {
    let mut g = sample_grid();
    g.add_sand_weight_in_radius(1, 1, 2, |w: u32, _dx: isize, _dy: isize| w + 1);
    assert_eq!(g.heights, vec![1, 2, 3, 4, 5, 6]);
    assert_eq!(g.is_passable, vec![true; 6]);
    assert_eq!(g.sand_weights, vec![1u32; 12]);
}

#[test]
fn clear_sets_every_weight_to_zero() {
    let mut g = sample_grid();
    g.add_sand_weight_in_radius(1, 1, 1, |w: u32, _dx: isize, _dy: isize| w + 3);
    g.clear_sand_weights(0);
    for vy in 0..=2 {
        for vx in 0..=3 {
            assert_eq!(g.get_sand_weight(vx, vy, 99), 0);
        }
    }
    assert_eq!(g.heights, vec![1, 2, 3, 4, 5, 6]);
}

#[test]
fn brush_centre_beyond_isize_wraps_to_a_negative_centre() {
    // `usize::MAX` taken as `isize` is -1: the square -3..=1 reaches the
    // vertices 0 and 1 of each axis.
    let mut g = TerrainGrid::new(3, 3, (0i32, 0i32, 0u32), vec![0u8; 9]);
    g.add_sand_weight_in_radius(usize::MAX, usize::MAX, 2, |w: (i32, i32, u32), dx: isize, dy: isize| {
        (dx as i32, dy as i32, w.2 + 1)
    });
    assert_eq!(g.get_sand_weight(0, 0, (9, 9, 9)), (1, 1, 1));
    assert_eq!(g.get_sand_weight(1, 0, (9, 9, 9)), (2, 1, 1));
    assert_eq!(g.get_sand_weight(1, 1, (9, 9, 9)), (2, 2, 1));
    assert_eq!(g.get_sand_weight(2, 0, (9, 9, 9)), (0, 0, 0));
    assert_eq!(g.get_sand_weight(0, 2, (9, 9, 9)), (0, 0, 0));
    assert_eq!(g.sand_weights.iter().filter(|w| w.2 == 1).count(), 4);
}

#[test]
fn clearing_undoes_painting() {
    let fresh = sample_grid();
    let mut g = sample_grid();
    g.add_sand_weight_in_radius(1, 1, 1, |w: u32, dx: isize, _dy: isize| w + dx.unsigned_abs() as u32 + 1);
    g.add_sand_weight_in_radius(3, 0, 2, |w: u32, _dx: isize, dy: isize| w * 2 + dy.unsigned_abs() as u32);
    assert_ne!(g.sand_weights, fresh.sand_weights);
    g.clear_sand_weights(0);
    assert_eq!(g.width, fresh.width);
    assert_eq!(g.height, fresh.height);
    assert_eq!(g.heights, fresh.heights);
    assert_eq!(g.is_passable, fresh.is_passable);
    assert_eq!(g.sand_weights, fresh.sand_weights);
}
