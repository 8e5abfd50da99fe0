use nebula_vault::grid::{cell_count, cell_index, filled, GridError};
use nebula_vault::map::{TileMap, TileType};
use nebula_vault::point::Point;

#[test]
fn new_map_is_all_floor_with_cleared_flags() {
    let map = TileMap::new(10, 10).unwrap();
    assert_eq!(map.width(), 10);
    assert_eq!(map.height(), 10);
    assert_eq!(map.tiles().len(), 100);
    assert_eq!(map.visible_tiles().len(), 100);
    assert_eq!(map.revealed_tiles().len(), 100);
    assert!(map.tiles().iter().all(|t| *t == TileType::Floor));
    assert!(map.visible_tiles().iter().all(|v| !*v));
    assert!(map.revealed_tiles().iter().all(|v| !*v));
}

#[test]
fn new_map_of_uneven_sides() {
    let map = TileMap::new(3, 7).unwrap();
    assert_eq!(map.width(), 3);
    assert_eq!(map.height(), 7);
    assert_eq!(map.tiles().len(), 21);
    assert_eq!(map.visible_tiles().len(), 21);
    assert_eq!(map.revealed_tiles().len(), 21);
    assert_eq!(map.tiles()[20], TileType::Floor);
    assert_ne!(map.tiles()[0], TileType::Wall);
}

#[test]
fn new_map_of_one_cell() {
    let map = TileMap::new(1, 1).unwrap();
    assert_eq!(map.tiles().len(), 1);
    assert_eq!(map.xy_idx(Point { x: 0, y: 0 }), Ok(0));
}

#[test]
fn new_map_refuses_zero_and_negative_sides() {
    assert_eq!(TileMap::new(0, 10).err(), Some(GridError::ConfigError));
    assert_eq!(TileMap::new(10, 0).err(), Some(GridError::ConfigError));
    assert_eq!(TileMap::new(-1, 10).err(), Some(GridError::ConfigError));
    assert_eq!(TileMap::new(10, -4).err(), Some(GridError::ConfigError));
    assert_eq!(TileMap::new(0, 0).err(), Some(GridError::ConfigError));
    assert_eq!(TileMap::new(i32::MIN, i32::MIN).err(), Some(GridError::ConfigError));
}

#[test]
fn xy_idx_is_row_major() {
    let map = TileMap::new(10, 10).unwrap();
    assert_eq!(map.xy_idx(Point { x: 0, y: 0 }), Ok(0));
    assert_eq!(map.xy_idx(Point { x: 3, y: 2 }), Ok(23));
    assert_eq!(map.xy_idx(Point { x: 0, y: 1 }), Ok(10));
    assert_eq!(map.xy_idx(Point { x: 9, y: 0 }), Ok(9));
    let wide = TileMap::new(7, 3).unwrap();
    assert_eq!(wide.xy_idx(Point { x: 4, y: 2 }), Ok(18));
    assert_eq!(wide.xy_idx(Point { x: 6, y: 2 }), Ok(20));
}

#[test]
fn xy_idx_last_cell_of_ten_by_ten() {
    let map = TileMap::new(10, 10).unwrap();
    assert_eq!(map.xy_idx(Point { x: 9, y: 9 }), Ok(99));
}

#[test]
fn xy_idx_refuses_coordinates_off_the_map() {
    let map = TileMap::new(10, 10).unwrap();
    assert_eq!(map.xy_idx(Point { x: 10, y: 0 }), Err(GridError::OutOfBounds));
    assert_eq!(map.xy_idx(Point { x: 0, y: 10 }), Err(GridError::OutOfBounds));
    assert_eq!(map.xy_idx(Point { x: -1, y: 0 }), Err(GridError::OutOfBounds));
    assert_eq!(map.xy_idx(Point { x: 0, y: -1 }), Err(GridError::OutOfBounds));
    assert_eq!(map.xy_idx(Point { x: i32::MAX, y: i32::MAX }), Err(GridError::OutOfBounds));
    assert_eq!(map.xy_idx(Point { x: i32::MIN, y: 3 }), Err(GridError::OutOfBounds));
}

#[test]
fn xy_idx_never_collides() {
    let map = TileMap::new(6, 4).unwrap();
    let mut seen = vec![false; 24];
    for y in 0..4 {
        for x in 0..6 {
            let i = map.xy_idx(Point { x, y }).unwrap();
            assert_eq!(i, (y * 6 + x) as usize);
            assert!(!seen[i]);
            seen[i] = true;
        }
    }
    assert!(seen.iter().all(|s| *s));
}

#[test]
fn cell_count_multiplies_the_sides() {
    assert_eq!(cell_count(10, 10), Ok(100));
    assert_eq!(cell_count(1, 1), Ok(1));
    assert_eq!(cell_count(3, 7), Ok(21));
    assert_eq!(cell_count(40000, 50000), Ok(2_000_000_000));
    assert_eq!(cell_count(0, 5), Err(GridError::ConfigError));
    assert_eq!(cell_count(5, -5), Err(GridError::ConfigError));
}

#[test]
fn cell_index_checks_both_axes() {
    assert_eq!(cell_index(4, 3, Point { x: 3, y: 2 }), Ok(11));
    assert_eq!(cell_index(4, 3, Point { x: 1, y: 1 }), Ok(5));
    assert_eq!(cell_index(4, 3, Point { x: 4, y: 2 }), Err(GridError::OutOfBounds));
    assert_eq!(cell_index(4, 3, Point { x: 3, y: 3 }), Err(GridError::OutOfBounds));
}

#[test]
fn filled_repeats_the_value() {
    assert_eq!(filled(7u8, 3), vec![7u8, 7, 7]);
    assert_eq!(filled(true, 0), Vec::<bool>::new());
}
