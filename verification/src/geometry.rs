//! The containment oracle: the fixed anchor tables and the rule deciding
//! whether a 3D point lies inside the structure.
//!
//! The structure is the intersection of balls of radius 128 around all 24
//! anchors, minus the open balls of radius 24 around the 16 upper anchors.
//! All comparisons are made on exact integer squared distances: a Euclidean
//! distance exceeds 128 exactly when its square exceeds 16384, and is
//! strictly below 24 exactly when its square is strictly below 576.

use vstd::prelude::*;

verus! {

/// The sixteen upper anchors, in table order.
pub open spec fn upper_anchor(i: int) -> (int, int, int) {
    if i == 0 { (4352, 68, -4096) }
    else if i == 1 { (4360, 68, -4096) }
    else if i == 2 { (4352, 68, -4090) }
    else if i == 3 { (4360, 68, -4090) }
    else if i == 4 { (4368, 68, -4240) }
    else if i == 5 { (4374, 68, -4240) }
    else if i == 6 { (4368, 68, -4232) }
    else if i == 7 { (4374, 68, -4232) }
    else if i == 8 { (4352, 64, -4096) }
    else if i == 9 { (4360, 64, -4096) }
    else if i == 10 { (4352, 64, -4090) }
    else if i == 11 { (4360, 64, -4090) }
    else if i == 12 { (4368, 64, -4240) }
    else if i == 13 { (4374, 64, -4240) }
    else if i == 14 { (4368, 64, -4232) }
    else { (4374, 64, -4232) }
}

/// The eight lower anchors, in table order.
pub open spec fn lower_anchor(i: int) -> (int, int, int) {
    if i == 0 { (4352, 35, -4096) }
    else if i == 1 { (4360, 35, -4096) }
    else if i == 2 { (4352, 35, -4090) }
    else if i == 3 { (4360, 35, -4090) }
    else if i == 4 { (4368, 35, -4240) }
    else if i == 5 { (4374, 35, -4240) }
    else if i == 6 { (4368, 35, -4232) }
    else { (4374, 35, -4232) }
}

/// All 24 anchors: the upper ones first, then the lower ones.
pub open spec fn anchor(i: int) -> (int, int, int) {
    if i < 16 { upper_anchor(i) } else { lower_anchor(i - 16) }
}

/// Exact squared Euclidean distance from (x, y, z) to the point a.
pub open spec fn dist_sq(x: int, y: int, z: int, a: (int, int, int)) -> int {
    (x - a.0) * (x - a.0) + (y - a.1) * (y - a.1) + (z - a.2) * (z - a.2)
}

/// Squared distance from (x, y, z) to anchor i.
pub open spec fn anchor_dist_sq(x: int, y: int, z: int, i: int) -> int {
    dist_sq(x, y, z, anchor(i))
}

/// A 3D point lies inside the structure when it is within distance 128 of
/// every anchor (boundary included) and not strictly within distance 24 of
/// any upper anchor (so the boundary at 24 still belongs to the structure).
pub open spec fn in_building(x: int, y: int, z: int) -> bool {
    &&& forall|i: int| 0 <= i < 24 ==> #[trigger] anchor_dist_sq(x, y, z, i) <= 16384
    &&& forall|i: int| 0 <= i < 16 ==> #[trigger] anchor_dist_sq(x, y, z, i) >= 576
}

/// A 2D coordinate is a structure-containing column when the structure is
/// present there at some height of the fixed scan range.
pub open spec fn in_building_column(x: int, z: int) -> bool {
    exists|y: int| -36 <= y < 140 && #[trigger] in_building(x, y, z)
}

/// Anchor i of the table, as machine integers.
fn anchor_at(i: usize) -> (a: (i16, i16, i16))
    requires
        i < 24,
    ensures
        (a.0 as int, a.1 as int, a.2 as int) == anchor(i as int),
{
    match i {
        0 => (4352, 68, -4096),
        1 => (4360, 68, -4096),
        2 => (4352, 68, -4090),
        3 => (4360, 68, -4090),
        4 => (4368, 68, -4240),
        5 => (4374, 68, -4240),
        6 => (4368, 68, -4232),
        7 => (4374, 68, -4232),
        8 => (4352, 64, -4096),
        9 => (4360, 64, -4096),
        10 => (4352, 64, -4090),
        11 => (4360, 64, -4090),
        12 => (4368, 64, -4240),
        13 => (4374, 64, -4240),
        14 => (4368, 64, -4232),
        15 => (4374, 64, -4232),
        16 => (4352, 35, -4096),
        17 => (4360, 35, -4096),
        18 => (4352, 35, -4090),
        19 => (4360, 35, -4090),
        20 => (4368, 35, -4240),
        21 => (4374, 35, -4240),
        22 => (4368, 35, -4232),
        _ => (4374, 35, -4232),
    }
}

/// A square is monotone in the magnitude of its argument.
pub proof fn lemma_sq_le_sq(a: int, b: int)
    requires
        -b <= a <= b,
    ensures
        a * a <= b * b,
{
    assert(a * a <= b * b) by (nonlinear_arith)
        requires -b <= a <= b;
}

/// A square is never negative.
pub proof fn lemma_sq_nonneg(a: int)
    ensures
        0 <= a * a,
{
    assert(0 <= a * a) by (nonlinear_arith);
}

/// Squaring does not care about the sign of its argument.
pub proof fn lemma_sq_flip(a: int)
    ensures
        a * a == (-a) * (-a),
{
    assert(a * a == (-a) * (-a)) by (nonlinear_arith);
}

/// Containment test over widened integers, so that no window or height scan
/// can overflow. Decides exactly the predicate `in_building`.
pub(crate) fn is_in_building_at(x: i64, y: i64, z: i64) -> (r: bool)
    requires
        -100000 <= x <= 100000,
        -100000 <= y <= 100000,
        -100000 <= z <= 100000,
    ensures
        r == in_building(x as int, y as int, z as int),
{
    let mut i: usize = 0;
    while i < 24
        invariant
            i <= 24,
            -100000 <= x <= 100000,
            -100000 <= y <= 100000,
            -100000 <= z <= 100000,
            forall|j: int| 0 <= j < i ==> #[trigger] anchor_dist_sq(
                x as int, y as int, z as int, j) <= 16384,
        decreases 24 - i,
    {
        let (ax, ay, az) = anchor_at(i);
        let dx: i64 = x - ax as i64;
        let dy: i64 = y - ay as i64;
        let dz: i64 = z - az as i64;
        proof {
            lemma_sq_le_sq(dx as int, 104374);
            lemma_sq_le_sq(dy as int, 104374);
            lemma_sq_le_sq(dz as int, 104374);
            lemma_sq_nonneg(dx as int);
            lemma_sq_nonneg(dy as int);
            lemma_sq_nonneg(dz as int);
        }
        let d2: i64 = dx * dx + dy * dy + dz * dz;
        if d2 > 16384 {
            assert(anchor_dist_sq(x as int, y as int, z as int, i as int) > 16384);
            return false;
        }
        i = i + 1;
    }
    let mut i: usize = 0;
    while i < 16
        invariant
            i <= 16,
            -100000 <= x <= 100000,
            -100000 <= y <= 100000,
            -100000 <= z <= 100000,
            forall|j: int| 0 <= j < 24 ==> #[trigger] anchor_dist_sq(
                x as int, y as int, z as int, j) <= 16384,
            forall|j: int| 0 <= j < i ==> #[trigger] anchor_dist_sq(
                x as int, y as int, z as int, j) >= 576,
        decreases 16 - i,
    {
        let (ax, ay, az) = anchor_at(i);
        let dx: i64 = x - ax as i64;
        let dy: i64 = y - ay as i64;
        let dz: i64 = z - az as i64;
        proof {
            lemma_sq_le_sq(dx as int, 104374);
            lemma_sq_le_sq(dy as int, 104374);
            lemma_sq_le_sq(dz as int, 104374);
            lemma_sq_nonneg(dx as int);
            lemma_sq_nonneg(dy as int);
            lemma_sq_nonneg(dz as int);
        }
        let d2: i64 = dx * dx + dy * dy + dz * dz;
        if d2 < 576 {
            assert(anchor_dist_sq(x as int, y as int, z as int, i as int) < 576);
            return false;
        }
        i = i + 1;
    }
    true
}

/// Whether the 3D point (x, y, z) lies inside the structure.
///
/// Deterministic and pure: the result is exactly the predicate
/// `in_building` of the coordinates, so repeated calls with the same
/// arguments always agree.
pub fn is_in_building(x: i16, y: i16, z: i16) -> (r: bool)
    ensures
        r == in_building(x as int, y as int, z as int),
{
    is_in_building_at(x as i64, y as i64, z as i64)
}

/// Column test over widened integers: scans the fixed height range
/// -36 (inclusive) to 140 (exclusive) for a contained point.
pub(crate) fn is_in_building_column_at(x: i64, z: i64) -> (r: bool)
    requires
        -100000 <= x <= 100000,
        -100000 <= z <= 100000,
    ensures
        r == in_building_column(x as int, z as int),
{
    let mut y: i64 = -36;
    while y < 140
        invariant
            -36 <= y <= 140,
            -100000 <= x <= 100000,
            -100000 <= z <= 100000,
            forall|w: int| -36 <= w < y ==> !#[trigger] in_building(x as int, w, z as int),
        decreases 140 - y,
    {
        if is_in_building_at(x, y, z) {
            assert(in_building_column(x as int, z as int));
            return true;
        }
        y = y + 1;
    }
    false
}

/// Every upper anchor, tested at its own coordinate, is excluded from the
/// structure: its distance to itself is 0, strictly inside the radius-24
/// exclusion around itself.
pub proof fn lemma_upper_anchor_excluded(i: int)
    requires
        0 <= i < 16,
    ensures
        !in_building(upper_anchor(i).0, upper_anchor(i).1, upper_anchor(i).2),
{
    let a = upper_anchor(i);
    assert(anchor(i) == a);
    assert(anchor_dist_sq(a.0, a.1, a.2, i) == 0);
}

/// Both thresholds are inclusive in the allowed direction: a point whose
/// squared distance to every anchor is at most 16384 (distance exactly 128
/// allowed) and whose squared distance to every upper anchor is at least
/// 576 (distance exactly 24 allowed) is contained.
pub proof fn lemma_boundary_inclusive(x: int, y: int, z: int)
    requires
        forall|i: int| 0 <= i < 24 ==> #[trigger] anchor_dist_sq(x, y, z, i) <= 16384,
        forall|i: int| 0 <= i < 16 ==> #[trigger] anchor_dist_sq(x, y, z, i) >= 576,
    ensures
        in_building(x, y, z),
{
}

/// Every contained point lies in a fixed bounding box: within 128 of the
/// x and z coordinates of anchors 0 and 5 in each axis.
pub proof fn lemma_building_box(x: int, y: int, z: int)
    requires
        in_building(x, y, z),
    ensures
        4246 <= x <= 4480,
        -60 <= y <= 196,
        -4224 <= z <= -4112,
{
    assert(anchor_dist_sq(x, y, z, 0) <= 16384);
    assert(anchor_dist_sq(x, y, z, 5) <= 16384);
    lemma_sq_nonneg(x - 4352);
    lemma_sq_nonneg(y - 68);
    lemma_sq_nonneg(z - (-4096));
    lemma_sq_nonneg(x - 4374);
    lemma_sq_nonneg(z - (-4240));
    assert((x - 4352) * (x - 4352) <= 128 * 128);
    assert((y - 68) * (y - 68) <= 128 * 128);
    assert((z - (-4096)) * (z - (-4096)) <= 128 * 128);
    assert((x - 4374) * (x - 4374) <= 128 * 128);
    assert((z - (-4240)) * (z - (-4240)) <= 128 * 128);
    lemma_sq_bound(x - 4352, 128);
    lemma_sq_bound(y - 68, 128);
    lemma_sq_bound(z - (-4096), 128);
    lemma_sq_bound(x - 4374, 128);
    lemma_sq_bound(z - (-4240), 128);
}

/// Every structure-containing column lies in the same x/z bounding box.
pub proof fn lemma_column_box(x: int, z: int)
    requires
        in_building_column(x, z),
    ensures
        4246 <= x <= 4480,
        -4224 <= z <= -4112,
{
    let y = choose|y: int| -36 <= y < 140 && #[trigger] in_building(x, y, z);
    lemma_building_box(x, y, z);
}

/// A number whose square is at most b * b (with b nonnegative) lies
/// between -b and b.
pub proof fn lemma_sq_bound(a: int, b: int)
    requires
        0 <= b,
        a * a <= b * b,
    ensures
        -b <= a <= b,
{
    assert(-b <= a <= b) by (nonlinear_arith)
        requires 0 <= b, a * a <= b * b;
}

} // verus!
