use ereea::map::TerrainMap;
use ereea::types::TileType;

fn flat(n: usize, v: i32) -> Vec<Vec<i32>> {
    vec![vec![v; n]; n]
}

#[test]
fn small_map_is_fully_cleared_without_repair() {
    // A 3x3 grid lies entirely within the protected block around the central
    // station, so even an obstacle-grade noise value is forced clear and the
    // reachability repair has nothing to carve.
    let mut noise = flat(3, 0);
    noise[0][0] = 600;
    noise[2][2] = 400;
    let map = TerrainMap::new(&noise);
    assert_eq!(map.station_x, 1);
    assert_eq!(map.station_y, 1);
    for y in 0..3 {
        for x in 0..3 {
            assert_eq!(map.get_tile(x, y), TileType::Empty);
        }
    }
    // Everything already reachable: the map equals its pre-repair form.
    assert!(map.is_accessible(1, 1, 0, 0));
    assert!(map.is_accessible(1, 1, 2, 2));
}

#[test]
fn classification_thresholds_are_exact() {
    // On a 7x7 grid the protected block spans rows and columns 1..=5, so the
    // outer ring keeps its classified value.
    let mut noise = flat(7, 0);
    noise[0][0] = 501;
    noise[0][2] = 500;
    noise[0][4] = 301;
    noise[0][6] = 300;
    noise[6][0] = 101;
    noise[6][2] = 100;
    noise[6][4] = 1;
    noise[6][6] = 0;
    noise[2][0] = -250;
    let map = TerrainMap::new(&noise);
    assert_eq!(map.get_tile(0, 0), TileType::Obstacle);
    assert_eq!(map.get_tile(2, 0), TileType::Energy);
    assert_eq!(map.get_tile(4, 0), TileType::Energy);
    assert_eq!(map.get_tile(6, 0), TileType::Mineral);
    assert_eq!(map.get_tile(0, 6), TileType::Mineral);
    assert_eq!(map.get_tile(2, 6), TileType::Scientific);
    assert_eq!(map.get_tile(4, 6), TileType::Scientific);
    assert_eq!(map.get_tile(6, 6), TileType::Empty);
    assert_eq!(map.get_tile(0, 2), TileType::Empty);
    // The station block is forced clear regardless of noise.
    assert_eq!(map.get_tile(3, 3), TileType::Empty);
}

#[test]
fn walled_resource_is_carved_reachable() {
    // An energy tile in the corner, walled off by obstacles: generation must
    // carve a path so every resource is reachable from the station.
    let mut noise = flat(9, 0);
    noise[0][0] = 400;
    noise[0][1] = 600;
    noise[1][0] = 600;
    noise[1][1] = 600;
    noise[0][2] = 600;
    noise[2][0] = 600;
    noise[2][1] = 600;
    noise[1][2] = 600;
    noise[2][2] = 600;
    // An obstacle far outside the station-to-resource rectangle: carving
    // must leave it alone.
    noise[0][8] = 700;
    let map = TerrainMap::new(&noise);
    assert_eq!(map.get_tile(0, 0), TileType::Energy);
    assert!(map.is_accessible(map.station_x, map.station_y, 0, 0));
    assert_eq!(map.get_tile(8, 0), TileType::Obstacle);
}

#[test]
fn every_resource_cell_is_reachable_after_generation() {
    // A noisy 15x15 map: every resource-bearing tile must be reachable from
    // the station over non-obstacle cells.
    let n = 15;
    let mut noise = flat(n, 0);
    for y in 0..n {
        for x in 0..n {
            // A deterministic, bumpy pseudo-field.
            noise[y][x] = (((x * 37 + y * 101) % 13) as i32) * 55 - 30;
        }
    }
    let map = TerrainMap::new(&noise);
    for y in 0..n {
        for x in 0..n {
            let t = map.get_tile(x, y);
            if t == TileType::Energy || t == TileType::Mineral || t == TileType::Scientific {
                assert!(map.is_accessible(map.station_x, map.station_y, x, y));
            }
        }
    }
}

#[test]
fn station_block_never_holds_obstacles() {
    let mut noise = flat(9, 0);
    for y in 0..9 {
        for x in 0..9 {
            noise[y][x] = 900;
        }
    }
    let map = TerrainMap::new(&noise);
    let sx = map.station_x as i64;
    let sy = map.station_y as i64;
    for y in 0..9i64 {
        for x in 0..9i64 {
            if (x - sx).abs() <= 2 && (y - sy).abs() <= 2 {
                assert_ne!(map.get_tile(x as usize, y as usize), TileType::Obstacle);
            }
        }
    }
}

#[test]
fn consume_resource_is_idempotent() {
    let mut noise = flat(7, 0);
    noise[0][0] = 400;
    let mut map = TerrainMap::new(&noise);
    assert_eq!(map.get_tile(0, 0), TileType::Energy);
    map.consume_resource(0, 0);
    assert_eq!(map.get_tile(0, 0), TileType::Empty);
    map.consume_resource(0, 0);
    assert_eq!(map.get_tile(0, 0), TileType::Empty);
}

#[test]
fn consume_resource_leaves_non_resources_alone() {
    let mut noise = flat(7, 0);
    noise[0][0] = 700;
    let mut map = TerrainMap::new(&noise);
    assert_eq!(map.get_tile(0, 0), TileType::Obstacle);
    map.consume_resource(0, 0);
    assert_eq!(map.get_tile(0, 0), TileType::Obstacle);
}

#[test]
fn is_valid_position_rejects_bounds_and_obstacles() {
    let mut noise = flat(7, 0);
    noise[0][0] = 700;
    let map = TerrainMap::new(&noise);
    assert!(!map.is_valid_position(0, 0));
    assert!(!map.is_valid_position(7, 0));
    assert!(!map.is_valid_position(0, 7));
    assert!(map.is_valid_position(3, 3));
}

#[test]
fn bfs_reports_unreachable_cells() {
    // A full obstacle wall on column 5 of an 11x11 map separates the right
    // edge from the station; generation would carve it, so build the wall by
    // consuming nothing and checking accessibility on a hand-made map.
    let noise = flat(11, 0);
    let mut map = TerrainMap::new(&noise);
    for y in 0..11 {
        map.tiles[y][9] = TileType::Obstacle;
    }
    assert!(!map.is_accessible(map.station_x, map.station_y, 10, 0));
    assert!(map.is_accessible(map.station_x, map.station_y, 8, 0));
}

#[test]
fn count_tiles_counts_exactly() {
    let mut noise = flat(9, 0);
    noise[0][0] = 400;
    noise[0][8] = 400;
    noise[8][0] = 200;
    noise[8][8] = 50;
    let map = TerrainMap::new(&noise);
    assert_eq!(map.count_tiles(TileType::Energy), 2);
    assert_eq!(map.count_tiles(TileType::Mineral), 1);
    assert_eq!(map.count_tiles(TileType::Scientific), 1);
}
