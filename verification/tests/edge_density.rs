use open_eyes::edge_density::{cell_area, cell_edge_counts};
use open_eyes::frame::EdgeMap;

fn edge_map(width: u32, height: u32, edges: &[(u32, u32)]) -> EdgeMap {
    let mut data = vec![0u8; (width * height) as usize];
    for &(x, y) in edges {
        data[(y * width + x) as usize] = 255;
    }
    EdgeMap { width, height, data }
}

#[test]
fn edge_counts_per_cell() {
    // 16x12 map, 8x6 grid: 2x2-pixel cells
    let map = edge_map(16, 12, &[(0, 0), (1, 1), (15, 11), (4, 2), (5, 2), (4, 3)]);
    let grid = cell_edge_counts(&map, 8, 6);
    assert_eq!(grid.len(), 6);
    assert!(grid.iter().all(|row| row.len() == 8));
    assert_eq!(grid[0][0], 2);
    assert_eq!(grid[5][7], 1);
    assert_eq!(grid[1][2], 3);
    let total: u32 = grid.iter().map(|row| row.iter().sum::<u32>()).sum();
    assert_eq!(total, 6);
}

#[test]
fn edge_level_is_strictly_above_128() {
    let mut map = edge_map(8, 6, &[]);
    map.data[0] = 128;
    map.data[1] = 129;
    let grid = cell_edge_counts(&map, 8, 6);
    // 1x1-pixel cells
    assert_eq!(grid[0][0], 0);
    assert_eq!(grid[0][1], 1);
}

#[test]
fn leftover_pixels_belong_to_no_cell() {
    // 17x13 map: the last column and row are outside every 2x2 cell
    let map = edge_map(17, 13, &[(16, 0), (0, 12), (16, 12)]);
    let grid = cell_edge_counts(&map, 8, 6);
    assert!(grid.iter().all(|row| row.iter().all(|&n| n == 0)));
}

#[test]
fn frames_smaller_than_the_grid_have_empty_cells() {
    let map = edge_map(4, 4, &[(0, 0), (3, 3)]);
    let grid = cell_edge_counts(&map, 8, 6);
    assert!(grid.iter().all(|row| row.iter().all(|&n| n == 0)));
    assert_eq!(cell_area(4, 4, 8, 6), 1);
    assert_eq!(cell_area(160, 120, 8, 6), 400);
}

#[test]
fn a_cell_holds_at_most_its_area() {
    let map = EdgeMap { width: 33, height: 25, data: vec![255u8; 33 * 25] };
    let grid = cell_edge_counts(&map, 8, 6);
    let area = cell_area(33, 25, 8, 6) as u32;
    assert_eq!(area, 16);
    assert!(grid.iter().all(|row| row.iter().all(|&n| n == area)));
}
