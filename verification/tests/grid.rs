use photo_filters::{PixelGrid, Rgba};

fn px(r: u8, g: u8, b: u8, a: u8) -> Rgba {
    Rgba { r, g, b, a }
}

#[test]
fn new_takes_a_buffer_that_fits() {
    let grid = PixelGrid::new(2, 1, vec![1, 2, 3, 4, 5, 6, 7, 8]).unwrap();
    assert_eq!(grid.width(), 2);
    assert_eq!(grid.height(), 1);
    assert_eq!(grid.len(), 2);
    assert_eq!(grid.to_bytes(), vec![1, 2, 3, 4, 5, 6, 7, 8]);
}

#[test]
fn new_refuses_a_buffer_that_does_not_fit() {
    assert!(PixelGrid::new(2, 1, vec![1, 2, 3, 4, 5, 6, 7]).is_none());
    assert!(PixelGrid::new(2, 1, vec![0; 9]).is_none());
    assert!(PixelGrid::new(1, 1, vec![]).is_none());
    assert!(PixelGrid::new(0, 0, vec![0; 4]).is_none());
    assert!(PixelGrid::new(u32::MAX, u32::MAX, vec![0; 4]).is_none());
}

#[test]
fn new_takes_a_grid_without_pixels() {
    let grid = PixelGrid::new(0, 7, vec![]).unwrap();
    assert!(grid.is_empty());
    assert_eq!(grid.len(), 0);
    assert_eq!(grid.width(), 0);
    assert_eq!(grid.height(), 7);
    assert!(PixelGrid::new(7, 0, vec![]).unwrap().is_empty());
    assert!(!PixelGrid::new(1, 1, vec![0; 4]).unwrap().is_empty());
}

#[test]
fn from_pixels_lays_channels_out_in_order() {
    let pixels = vec![px(1, 2, 3, 4), px(5, 6, 7, 8), px(9, 10, 11, 12)];
    let grid = PixelGrid::from_pixels(3, 1, &pixels).unwrap();
    assert_eq!(grid.to_bytes(), vec![1, 2, 3, 4, 5, 6, 7, 8, 9, 10, 11, 12]);
    assert_eq!(grid.as_bytes(), &vec![1, 2, 3, 4, 5, 6, 7, 8, 9, 10, 11, 12]);
}

#[test]
fn from_pixels_refuses_the_wrong_count() {
    let pixels = vec![px(1, 2, 3, 4), px(5, 6, 7, 8), px(9, 10, 11, 12)];
    assert!(PixelGrid::from_pixels(2, 1, &pixels).is_none());
    assert!(PixelGrid::from_pixels(2, 2, &pixels).is_none());
    assert!(PixelGrid::from_pixels(1, 3, &pixels).is_some());
}

#[test]
fn pixel_reads_by_index() {
    let grid = PixelGrid::new(2, 1, vec![1, 2, 3, 4, 5, 6, 7, 8]).unwrap();
    assert_eq!(grid.pixel(0), Some(px(1, 2, 3, 4)));
    assert_eq!(grid.pixel(1), Some(px(5, 6, 7, 8)));
    assert_eq!(grid.pixel(2), None);
    assert_eq!(grid.pixel(usize::MAX), None);
}

#[test]
fn get_reads_row_by_row() {
    let pixels = vec![
        px(0, 0, 0, 0),
        px(1, 0, 0, 0),
        px(2, 0, 0, 0),
        px(0, 1, 0, 0),
        px(1, 1, 0, 0),
        px(2, 1, 0, 0),
    ];
    let grid = PixelGrid::from_pixels(3, 2, &pixels).unwrap();
    for y in 0..2u32 {
        for x in 0..3u32 {
            assert_eq!(grid.get(x, y), Some(px(x as u8, y as u8, 0, 0)));
        }
    }
    assert_eq!(grid.get(3, 0), None);
    assert_eq!(grid.get(0, 2), None);
    assert_eq!(grid.get(u32::MAX, u32::MAX), None);
}

#[test]
fn duplicate_is_an_equal_grid() {
    let grid = PixelGrid::new(1, 2, vec![1, 2, 3, 4, 5, 6, 7, 8]).unwrap();
    let copy = grid.duplicate();
    assert_eq!(copy.width(), 1);
    assert_eq!(copy.height(), 2);
    assert_eq!(copy.to_bytes(), grid.to_bytes());
}
