use rtc::camera::{PixelGrid, Side};

fn walk(grid: &PixelGrid) -> Vec<(usize, usize)> {
    let mut visited = Vec::new();
    let mut current = grid.first();
    while let Some((x, y)) = current {
        visited.push((x, y));
        current = grid.next(x, y);
    }
    visited
}

#[test]
fn every_pixel_is_visited_once_row_by_row() {
    for (hsize, vsize) in [(1, 1), (3, 2), (2, 3), (5, 1), (1, 5), (16, 9)] {
        let grid = PixelGrid::new(hsize, vsize);
        let mut expected = Vec::new();
        for y in 0..vsize {
            for x in 0..hsize {
                expected.push((x, y));
            }
        }
        assert_eq!(expected, walk(&grid), "{hsize} x {vsize}");
    }
}

#[test]
fn the_last_row_and_the_last_column_are_visited() {
    let grid = PixelGrid::new(4, 3);
    let visited = walk(&grid);
    assert_eq!(12, visited.len());
    assert!(visited.contains(&(3, 0)));
    assert!(visited.contains(&(0, 2)));
    assert_eq!(Some(&(3, 2)), visited.last());
}

#[test]
fn an_image_without_pixels_is_not_visited() {
    for (hsize, vsize) in [(0, 0), (0, 7), (7, 0)] {
        let grid = PixelGrid::new(hsize, vsize);
        assert_eq!(None, grid.first());
        assert!(walk(&grid).is_empty());
        assert!(!grid.contains(0, 0));
    }
}

#[test]
fn steps_of_the_walk() {
    let grid = PixelGrid::new(3, 2);
    assert_eq!(Some((0, 0)), grid.first());
    assert_eq!(Some((1, 0)), grid.next(0, 0));
    assert_eq!(Some((2, 0)), grid.next(1, 0));
    assert_eq!(Some((0, 1)), grid.next(2, 0));
    assert_eq!(Some((2, 1)), grid.next(1, 1));
    assert_eq!(None, grid.next(2, 1));
}

#[test]
fn pixels_of_the_image() {
    let grid = PixelGrid::new(200, 125);
    assert_eq!(200, grid.hsize);
    assert_eq!(125, grid.vsize);
    assert!(grid.contains(0, 0));
    assert!(grid.contains(199, 124));
    assert!(!grid.contains(200, 0));
    assert!(!grid.contains(0, 125));
    assert_eq!(200 * 125, walk(&grid).len());
}

#[test]
fn the_walk_ends_on_the_largest_image() {
    let grid = PixelGrid::new(usize::MAX, usize::MAX);
    assert_eq!(Some((usize::MAX - 1, 0)), grid.next(usize::MAX - 2, 0));
    assert_eq!(Some((0, 1)), grid.next(usize::MAX - 1, 0));
    assert_eq!(None, grid.next(usize::MAX - 1, usize::MAX - 1));
}

#[test]
fn the_longer_side_spans_the_view() {
    assert_eq!(Side::Width, PixelGrid::new(200, 125).spanning_side());
    assert_eq!(Side::Height, PixelGrid::new(125, 200).spanning_side());
    assert_eq!(Side::Width, PixelGrid::new(201, 201).spanning_side());
    assert_eq!(Side::Width, PixelGrid::new(1, 0).spanning_side());
    assert_eq!(Side::Height, PixelGrid::new(0, 1).spanning_side());
}
