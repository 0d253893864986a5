use naronbenh::geometry::is_in_building;

// Repeated calls with the same point always agree: the oracle is pure.
#[test]
fn building_is_deterministic() {
    let points: [(i16, i16, i16); 4] = [
        (4363, 66, -4165),
        (4352, 68, -4096),
        (0, 0, 0),
        (4352, 68, -4120),
    ];
    for (x, y, z) in points {
        let first = is_in_building(x, y, z);
        let second = is_in_building(x, y, z);
        assert_eq!(first, second);
    }
}

// Every upper anchor, tested at its own coordinate, is excluded: its
// distance to itself is 0, strictly inside the radius-24 exclusion.
#[test]
fn upper_anchors_are_excluded() {
    let upper: [(i16, i16, i16); 16] = [
        (4352, 68, -4096),
        (4360, 68, -4096),
        (4352, 68, -4090),
        (4360, 68, -4090),
        (4368, 68, -4240),
        (4374, 68, -4240),
        (4368, 68, -4232),
        (4374, 68, -4232),
        (4352, 64, -4096),
        (4360, 64, -4096),
        (4352, 64, -4090),
        (4360, 64, -4090),
        (4368, 64, -4240),
        (4374, 64, -4240),
        (4368, 64, -4232),
        (4374, 64, -4232),
    ];
    for (x, y, z) in upper {
        assert!(!is_in_building(x, y, z));
    }
}

// A point between the two anchor clusters, within 128 of all anchors and
// far from every exclusion ball, is contained.
#[test]
fn midpoint_between_clusters_is_contained() {
    assert!(is_in_building(4363, 66, -4165));
    assert!(is_in_building(4363, 50, -4165));
}

// A point at an upper-anchor cluster's center is within 128 of that
// cluster but more than 128 from the far cluster, so it is excluded.
#[test]
fn cluster_center_is_outside() {
    assert!(!is_in_building(4356, 66, -4093));
}

// Both thresholds are inclusive: (4352, 68, -4120) is at squared
// distance exactly 576 (distance exactly 24) from the upper anchor
// (4352, 68, -4096) and within 128 of every anchor, so it is contained;
// one step closer, at squared distance 529, it is excluded.
#[test]
fn exclusion_boundary_is_inclusive() {
    assert!(is_in_building(4352, 68, -4120));
    assert!(!is_in_building(4352, 68, -4119));
}

// Far-away points are outside.
#[test]
fn distant_points_are_outside() {
    assert!(!is_in_building(0, 0, 0));
    assert!(!is_in_building(-4363, 66, 4165));
    assert!(!is_in_building(4363, -120, -4165));
}

// The y = 68 slice over the fixed 300-by-300 rectangle at
// min_x = 4200, min_z = -4300 has a fixed number of lit pixels. The
// anchor quadruples are each mirrored in x around their own center,
// but their z-extents differ between the two clusters, so the slice as
// a whole has no exact left-right mirror; the total is pinned instead.
#[test]
fn render_at_68_has_fixed_lit_count() {
    let g = naronbenh::raster::building_grid(68, 4200, 4500, -4300, -4000);
    let count = g.iter().filter(|p| **p == 255).count();
    assert_eq!(count, 12391);
}
