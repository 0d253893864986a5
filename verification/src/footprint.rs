//! The footprint index: a precomputed set of the structure-containing
//! columns of a bounding rectangle, for bulk perimeter queries.
//!
//! Membership is exact integer equality on the 2D coordinate pair, held as
//! a hash set of packed keys. The index is built once by a sequential scan
//! and is read-only afterwards.

use vstd::prelude::*;
use std::collections::HashSet;
use crate::geometry::in_building_column;
use crate::geometry::is_in_building_column_at;
use crate::geometry::lemma_column_box;

verus! {

broadcast use vstd::std_specs::hash::group_hash_axioms;

/// The packed hash key of the column (x, z): both coordinates shifted to
/// be nonnegative, x in the high half and z in the low half.
pub open spec fn col_key(x: int, z: int) -> int {
    (x + 32768) * 65536 + (z + 32768)
}

/// A precomputed set of structure-containing columns.
pub struct FootprintIndex {
    cols: HashSet<u64>,
}

impl FootprintIndex {
    /// Whether the index records (x, z) as a structure-containing column.
    /// Only coordinates of the 16-bit range can be recorded.
    pub closed spec fn has_col(self, x: int, z: int) -> bool {
        &&& -32768 <= x < 32768
        &&& -32768 <= z < 32768
        &&& self.cols@.contains(col_key(x, z) as u64)
    }

    /// The index records exactly the structure-containing columns: the
    /// state reached when the scanned rectangle covers the whole
    /// structure.
    pub open spec fn complete(self) -> bool {
        forall|x: int, z: int| #![trigger self.has_col(x, z)]
            #![trigger in_building_column(x, z)]
            self.has_col(x, z) <==> in_building_column(x, z)
    }

    /// Membership query. Coordinates outside the 16-bit range are never
    /// recorded and answer false.
    pub fn contains_col(&self, x: i64, z: i64) -> (r: bool)
        ensures
            r == self.has_col(x as int, z as int),
    {
        if x < -32768 || x >= 32768 || z < -32768 || z >= 32768 {
            return false;
        }
        let k: u64 = ((x + 32768) * 65536 + (z + 32768)) as u64;
        self.cols.contains(&k)
    }
}

/// Distinct in-range columns pack to distinct keys.
proof fn lemma_col_key_distinct(x1: int, z1: int, x2: int, z2: int)
    requires
        -32768 <= x1 < 32768,
        -32768 <= z1 < 32768,
        -32768 <= x2 < 32768,
        -32768 <= z2 < 32768,
        x1 != x2 || z1 != z2,
    ensures
        col_key(x1, z1) as u64 != col_key(x2, z2) as u64,
{
    assert(0 <= col_key(x1, z1) < 0x1_0000_0000);
    assert(0 <= col_key(x2, z2) < 0x1_0000_0000);
    if x1 == x2 {
        assert(col_key(x1, z1) != col_key(x2, z2));
    } else {
        assert(col_key(x1, z1) - col_key(x2, z2)
            == (x1 - x2) * 65536 + (z1 - z2));
        assert(col_key(x1, z1) != col_key(x2, z2));
    }
}

/// Builds the footprint index of the rectangle [min_x, max_x) by
/// [min_z, max_z): it records exactly the structure-containing columns of
/// that rectangle, found by scanning the fixed height range at every
/// coordinate. The scan completes in full before the index is returned,
/// and the result is read-only from then on.
pub fn build_footprint_index(min_x: i16, max_x: i16, min_z: i16, max_z: i16)
    -> (idx: FootprintIndex)
    ensures
        forall|x: int, z: int| #![trigger idx.has_col(x, z)]
            idx.has_col(x, z) <==> (min_x <= x < max_x && min_z <= z < max_z
                && in_building_column(x, z)),
{
    let mut cols: HashSet<u64> = HashSet::new();
    let min_xi: i64 = min_x as i64;
    let max_xi: i64 = max_x as i64;
    let min_zi: i64 = min_z as i64;
    let max_zi: i64 = max_z as i64;
    let mut z: i64 = min_zi;
    while z < max_zi
        invariant
            min_xi == min_x as int,
            max_xi == max_x as int,
            min_zi == min_z as int,
            max_zi == max_z as int,
            min_zi <= z <= max_zi || z == min_zi,
            -32768 <= min_xi <= 32768,
            -32768 <= max_xi <= 32768,
            -32768 <= min_zi <= 32768,
            -32768 <= max_zi <= 32768,
            forall|cx: int, cz: int| #![trigger col_key(cx, cz)]
                -32768 <= cx < 32768 && -32768 <= cz < 32768
                ==> (cols@.contains(col_key(cx, cz) as u64)
                    <==> (min_xi <= cx < max_xi && min_zi <= cz < z
                        && in_building_column(cx, cz))),
        decreases max_zi - z,
    {
        let mut x: i64 = min_xi;
        while x < max_xi
            invariant
                min_xi == min_x as int,
                max_xi == max_x as int,
                min_zi == min_z as int,
                max_zi == max_z as int,
                min_zi <= z < max_zi,
                min_xi <= x <= max_xi || x == min_xi,
                -32768 <= min_xi <= 32768,
                -32768 <= max_xi <= 32768,
                -32768 <= min_zi <= 32768,
                -32768 <= max_zi <= 32768,
                forall|cx: int, cz: int| #![trigger col_key(cx, cz)]
                    -32768 <= cx < 32768 && -32768 <= cz < 32768
                    ==> (cols@.contains(col_key(cx, cz) as u64)
                        <==> ((min_xi <= cx < max_xi && min_zi <= cz < z
                                && in_building_column(cx, cz))
                            || (min_xi <= cx < x && cz == z
                                && in_building_column(cx, cz)))),
            decreases max_xi - x,
        {
            if is_in_building_column_at(x, z) {
                let k: u64 = ((x + 32768) * 65536 + (z + 32768)) as u64;
                proof {
                    assert(0 <= col_key(x as int, z as int) < 0x1_0000_0000);
                    assert(k == col_key(x as int, z as int) as u64);
                }
                let ghost old_cols = cols@;
                cols.insert(k);
                proof {
                    assert(cols@ == old_cols.insert(k));
                    assert forall|cx: int, cz: int|
                        -32768 <= cx < 32768 && -32768 <= cz < 32768
                        implies (cols@.contains(col_key(cx, cz) as u64)
                            <==> (old_cols.contains(col_key(cx, cz) as u64)
                                || (cx == x as int && cz == z as int))) by {
                        if cx == x as int && cz == z as int {
                            assert(cols@.contains(k));
                        } else {
                            lemma_col_key_distinct(cx, cz, x as int, z as int);
                        }
                    }
                }
            }
            x = x + 1;
        }
        z = z + 1;
    }
    FootprintIndex { cols }
}

/// When the scanned rectangle covers the structure's whole bounding box,
/// the built index is complete: it records exactly the
/// structure-containing columns, wherever they lie.
pub proof fn lemma_covering_scan_complete(idx: FootprintIndex,
    min_x: int, max_x: int, min_z: int, max_z: int)
    requires
        forall|x: int, z: int| #![trigger idx.has_col(x, z)]
            idx.has_col(x, z) <==> (min_x <= x < max_x && min_z <= z < max_z
                && in_building_column(x, z)),
        min_x <= 4246,
        4480 < max_x,
        min_z <= -4224,
        -4112 < max_z,
    ensures
        idx.complete(),
{
    assert forall|x: int, z: int| #![trigger idx.has_col(x, z)]
        #![trigger in_building_column(x, z)]
        idx.has_col(x, z) <==> in_building_column(x, z) by {
        if in_building_column(x, z) {
            lemma_column_box(x, z);
        }
    }
}

} // verus!
