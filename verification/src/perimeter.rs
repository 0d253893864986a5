//! The perimeter oracle: whether a 2D point lies within distance 128 of
//! some structure-containing column.
//!
//! The scan window is the half-open square [x-128, x+128) by [z-128, z+128),
//! open at the upper bound; inside it the exact squared 2D distance is
//! compared against 16384 (distance 128, boundary included).

use vstd::prelude::*;
use crate::geometry::in_building;
use crate::geometry::in_building_column;
use crate::geometry::anchor_dist_sq;
use crate::geometry::anchor;
use crate::geometry::is_in_building_column_at;
use crate::geometry::lemma_sq_nonneg;
use crate::geometry::lemma_sq_le_sq;
use crate::geometry::lemma_sq_flip;
use crate::footprint::FootprintIndex;

verus! {

/// The window-and-distance test of the perimeter scan: dc lies in the
/// half-open 256-by-256 window around (x, z) and within squared 2D
/// distance 16384 of it.
pub open spec fn window_dist_ok(x: int, z: int, dx: int, dz: int) -> bool {
    &&& x - 128 <= dx < x + 128
    &&& z - 128 <= dz < z + 128
    &&& (x - dx) * (x - dx) + (z - dz) * (z - dz) <= 16384
}

/// A 2D point lies in the perimeter when some structure-containing column
/// is inside its window and within distance 128 of it.
pub open spec fn in_perimeter(x: int, z: int) -> bool {
    exists|dx: int, dz: int| #[trigger] window_dist_ok(x, z, dx, dz)
        && in_building_column(dx, dz)
}

/// Whether (x, z) lies within the perimeter, deciding column membership
/// directly by scanning the height range at each window coordinate.
pub fn is_in_perimeter(x: i16, z: i16) -> (r: bool)
    ensures
        r == in_perimeter(x as int, z as int),
{
    let xi: i64 = x as i64;
    let zi: i64 = z as i64;
    let mut dx: i64 = xi - 128;
    while dx < xi + 128
        invariant
            xi == x as int,
            zi == z as int,
            -32768 <= xi <= 32767,
            -32768 <= zi <= 32767,
            xi - 128 <= dx <= xi + 128,
            forall|ax: int, az: int| xi - 128 <= ax < dx
                ==> !(#[trigger] window_dist_ok(xi as int, zi as int, ax, az)
                    && in_building_column(ax, az)),
        decreases xi + 128 - dx,
    {
        let mut dz: i64 = zi - 128;
        while dz < zi + 128
            invariant
                xi == x as int,
                zi == z as int,
                -32768 <= xi <= 32767,
                -32768 <= zi <= 32767,
                xi - 128 <= dx < xi + 128,
                zi - 128 <= dz <= zi + 128,
                forall|ax: int, az: int| xi - 128 <= ax < dx
                    ==> !(#[trigger] window_dist_ok(xi as int, zi as int, ax, az)
                        && in_building_column(ax, az)),
                forall|az: int| zi - 128 <= az < dz
                    ==> !(#[trigger] window_dist_ok(xi as int, zi as int, dx as int, az)
                        && in_building_column(dx as int, az)),
            decreases zi + 128 - dz,
    {
            let ddx: i64 = xi - dx;
            let ddz: i64 = zi - dz;
            proof {
                lemma_sq_le_sq(ddx as int, 128);
                lemma_sq_le_sq(ddz as int, 128);
                lemma_sq_nonneg(ddx as int);
                lemma_sq_nonneg(ddz as int);
            }
            let d2: i64 = ddx * ddx + ddz * ddz;
            if d2 <= 16384 {
                if is_in_building_column_at(dx, dz) {
                    assert(window_dist_ok(xi as int, zi as int, dx as int, dz as int));
                    return true;
                }
            }
            dz = dz + 1;
        }
        dx = dx + 1;
    }
    proof {
        assert forall|ax: int, az: int|
            !(#[trigger] window_dist_ok(xi as int, zi as int, ax, az)
                && in_building_column(ax, az)) by {
            if window_dist_ok(xi as int, zi as int, ax, az) {
                assert(xi - 128 <= ax < xi + 128);
            }
        }
    }
    false
}

/// A 2D point lies in the indexed perimeter when some column recorded by
/// the footprint index is inside its window and within distance 128.
pub open spec fn in_perimeter_indexed(idx: FootprintIndex, x: int, z: int) -> bool {
    exists|dx: int, dz: int| #[trigger] window_dist_ok(x, z, dx, dz)
        && idx.has_col(dx, dz)
}

/// Whether (x, z) lies within the perimeter, deciding column membership
/// by lookup in a precomputed footprint index.
pub fn is_in_perimeter_of(idx: &FootprintIndex, x: i16, z: i16) -> (r: bool)
    ensures
        r == in_perimeter_indexed(*idx, x as int, z as int),
{
    let xi: i64 = x as i64;
    let zi: i64 = z as i64;
    let mut dx: i64 = xi - 128;
    while dx < xi + 128
        invariant
            xi == x as int,
            zi == z as int,
            -32768 <= xi <= 32767,
            -32768 <= zi <= 32767,
            xi - 128 <= dx <= xi + 128,
            forall|ax: int, az: int| xi - 128 <= ax < dx
                ==> !(#[trigger] window_dist_ok(xi as int, zi as int, ax, az)
                    && idx.has_col(ax, az)),
        decreases xi + 128 - dx,
    {
        let mut dz: i64 = zi - 128;
        while dz < zi + 128
            invariant
                xi == x as int,
                zi == z as int,
                -32768 <= xi <= 32767,
                -32768 <= zi <= 32767,
                xi - 128 <= dx < xi + 128,
                zi - 128 <= dz <= zi + 128,
                forall|ax: int, az: int| xi - 128 <= ax < dx
                    ==> !(#[trigger] window_dist_ok(xi as int, zi as int, ax, az)
                        && idx.has_col(ax, az)),
                forall|az: int| zi - 128 <= az < dz
                    ==> !(#[trigger] window_dist_ok(xi as int, zi as int, dx as int, az)
                        && idx.has_col(dx as int, az)),
            decreases zi + 128 - dz,
        {
            let ddx: i64 = xi - dx;
            let ddz: i64 = zi - dz;
            proof {
                lemma_sq_le_sq(ddx as int, 128);
                lemma_sq_le_sq(ddz as int, 128);
                lemma_sq_nonneg(ddx as int);
                lemma_sq_nonneg(ddz as int);
            }
            let d2: i64 = ddx * ddx + ddz * ddz;
            if d2 <= 16384 {
                if idx.contains_col(dx, dz) {
                    assert(window_dist_ok(xi as int, zi as int, dx as int, dz as int));
                    return true;
                }
            }
            dz = dz + 1;
        }
        dx = dx + 1;
    }
    proof {
        assert forall|ax: int, az: int|
            !(#[trigger] window_dist_ok(xi as int, zi as int, ax, az)
                && idx.has_col(ax, az)) by {
            if window_dist_ok(xi as int, zi as int, ax, az) {
                assert(xi - 128 <= ax < xi + 128);
            }
        }
    }
    false
}

/// Mode equivalence: on a complete footprint index, indexed-mode and
/// direct-mode perimeter evaluation agree on every point.
pub proof fn lemma_mode_agreement(idx: FootprintIndex, x: int, z: int)
    requires
        idx.complete(),
    ensures
        in_perimeter_indexed(idx, x, z) == in_perimeter(x, z),
{
    if in_perimeter_indexed(idx, x, z) {
        let (dx, dz) = choose|dx: int, dz: int|
            #[trigger] window_dist_ok(x, z, dx, dz) && idx.has_col(dx, dz);
        assert(in_building_column(dx, dz));
        assert(window_dist_ok(x, z, dx, dz) && in_building_column(dx, dz));
    }
    if in_perimeter(x, z) {
        let (dx, dz) = choose|dx: int, dz: int|
            #[trigger] window_dist_ok(x, z, dx, dz) && in_building_column(dx, dz);
        assert(idx.has_col(dx, dz));
        assert(window_dist_ok(x, z, dx, dz) && idx.has_col(dx, dz));
    }
}

/// The structure is a subset of its own perimeter: wherever the structure
/// contains a point at some height, the perimeter contains that column
/// (the column is within distance 0 of itself).
///
/// A contained point may lie outside the scanned height range -36..140;
/// clamping its height to that range stays inside the structure, so the
/// law holds for every contained point.
pub proof fn lemma_building_within_perimeter(x: int, y: int, z: int)
    requires
        in_building(x, y, z),
    ensures
        in_perimeter(x, z),
{
    let yc: int = if y < -36 { -36 } else if y >= 140 { 139 } else { y };
    assert(in_building(x, yc, z)) by {
        assert forall|i: int| 0 <= i < 24 implies
            #[trigger] anchor_dist_sq(x, yc, z, i) <= 16384 by {
            let ay = anchor(i).1;
            assert(35 <= ay <= 68);
            assert(anchor_dist_sq(x, y, z, i) <= 16384);
            if yc != y {
                lemma_sq_le_sq(yc - ay, if y - ay >= 0 { y - ay } else { ay - y });
                lemma_sq_flip(y - ay);
            }
        }
        assert forall|i: int| 0 <= i < 16 implies
            #[trigger] anchor_dist_sq(x, yc, z, i) >= 576 by {
            let ay = anchor(i).1;
            assert(64 <= ay <= 68);
            assert(anchor_dist_sq(x, y, z, i) >= 576);
            if yc != y {
                assert(yc - ay <= -71 || yc - ay >= 71);
                lemma_sq_le_sq(71, if yc - ay >= 0 { yc - ay } else { ay - yc });
                lemma_sq_flip(yc - ay);
                lemma_sq_nonneg(x - anchor(i).0);
                lemma_sq_nonneg(z - anchor(i).2);
            }
        }
    }
    assert(in_building_column(x, z));
    assert(window_dist_ok(x, z, x, z)) by {
        assert((x - x) * (x - x) + (z - z) * (z - z) == 0);
    }
}

} // verus!
