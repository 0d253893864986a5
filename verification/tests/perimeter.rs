use naronbenh::footprint::build_footprint_index;
use naronbenh::perimeter::is_in_perimeter;
use naronbenh::perimeter::is_in_perimeter_of;

// The structure is a subset of its own perimeter: columns of contained
// points answer true, and a point in the buffer within 128 of a column
// answers true as well.
#[test]
fn building_columns_are_in_perimeter() {
    assert!(is_in_perimeter(4363, -4165));
    assert!(is_in_perimeter(4363, -4280));
}

// Points farther than 128 from every structure-containing column are
// outside the perimeter.
#[test]
fn distant_points_are_outside_perimeter() {
    assert!(!is_in_perimeter(4000, -3800));
    assert!(!is_in_perimeter(4100, -4165));
}

// Indexed-mode and direct-mode perimeter evaluation agree on every
// point once the index's rectangle covers the whole structure.
#[test]
fn indexed_mode_agrees_with_direct_mode() {
    let idx = build_footprint_index(4200, 4500, -4300, -4000);
    let points: [(i16, i16); 5] = [
        (4363, -4165),
        (4363, -4280),
        (4100, -4165),
        (4240, -4160),
        (4000, -3800),
    ];
    for (x, z) in points {
        assert_eq!(is_in_perimeter_of(&idx, x, z), is_in_perimeter(x, z));
    }
}
