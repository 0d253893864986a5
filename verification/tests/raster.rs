use naronbenh::footprint::build_footprint_index;
use naronbenh::geometry::is_in_building;
use naronbenh::perimeter::is_in_perimeter_of;
use naronbenh::raster::building_grid;
use naronbenh::raster::perimeter_grid;

// The building raster is the containment oracle evaluated pixel by
// pixel, row-major with x minor.
#[test]
fn building_grid_matches_oracle() {
    let g = building_grid(66, 4340, 4390, -4180, -4150);
    assert_eq!(g.len(), 50 * 30);
    for j in 0..30i16 {
        for i in 0..50i16 {
            let expected = if is_in_building(4340 + i, 66, -4180 + j) { 255 } else { 0 };
            assert_eq!(g[(j as usize) * 50 + i as usize], expected);
        }
    }
    assert_eq!(g[(15 * 50 + 23) as usize], 255);
}

// The parallel perimeter raster equals the indexed oracle evaluated
// pixel by pixel in traversal order, however the work was partitioned.
#[test]
fn perimeter_grid_matches_indexed_oracle() {
    let idx = build_footprint_index(4200, 4500, -4300, -4000);
    let g = perimeter_grid(&idx, 4110, 4130, -4175, -4165);
    assert_eq!(g.len(), 20 * 10);
    for j in 0..10i16 {
        for i in 0..20i16 {
            let expected = if is_in_perimeter_of(&idx, 4110 + i, -4175 + j) { 255 } else { 0 };
            assert_eq!(g[(j as usize) * 20 + i as usize], expected);
        }
    }
}

// Re-running the parallel rasterization produces a byte-identical grid:
// pixel values depend only on the pixel's coordinate.
#[test]
fn perimeter_grid_is_reproducible() {
    let idx = build_footprint_index(4200, 4500, -4300, -4000);
    let first = perimeter_grid(&idx, 4350, 4370, -4170, -4160);
    let second = perimeter_grid(&idx, 4350, 4370, -4170, -4160);
    assert_eq!(first, second);
    assert!(first.iter().any(|p| *p == 255));
}
