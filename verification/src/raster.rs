//! The grid rasterizer: evaluates the containment or perimeter predicate
//! over a coordinate rectangle and produces a row-major intensity grid
//! (z-major, x-minor), 255 for a hit and 0 otherwise.
//!
//! The perimeter raster is computed in two phases: the footprint index is
//! precomputed in full, then every pixel is evaluated independently
//! against the finished index, so the pixel values depend only on the
//! pixel's coordinate and never on evaluation order.

use vstd::prelude::*;
use rayon::iter::IntoParallelIterator;
use rayon::iter::ParallelIterator;
use crate::geometry::in_building;
use crate::footprint::FootprintIndex;
use crate::footprint::build_footprint_index;
use crate::footprint::lemma_covering_scan_complete;
use crate::perimeter::in_perimeter;
use crate::perimeter::in_perimeter_indexed;
use crate::perimeter::is_in_perimeter_of;
use crate::perimeter::lemma_mode_agreement;
use vstd::arithmetic::div_mod::lemma_fundamental_div_mod_converse;

verus! {

/// The intensity written for a predicate value: maximal for true,
/// minimal for false.
pub open spec fn pixel_on(b: bool) -> u8 {
    if b { 255 } else { 0 }
}

/// The building raster of the rectangle [min_x, min_x + w) by
/// [min_z, min_z + h) at height y, row-major with x minor.
pub open spec fn building_grid_spec(y: int, min_x: int, min_z: int, w: int, h: int)
    -> Seq<u8> {
    Seq::new((w * h) as nat, |k: int|
        pixel_on(in_building(min_x + k % w, y, min_z + k / w)))
}

/// The perimeter raster of the rectangle [min_x, min_x + w) by
/// [min_z, min_z + h) against a footprint index, row-major with x minor.
pub open spec fn perimeter_grid_spec(idx: FootprintIndex, min_x: int, min_z: int,
    w: int, h: int) -> Seq<u8> {
    Seq::new((w * h) as nat, |k: int|
        pixel_on(in_perimeter_indexed(idx, min_x + k % w, min_z + k / w)))
}

/// Multiplying by a nonnegative number preserves order.
proof fn lemma_mul_le(a: int, b: int, c: int)
    requires
        a <= b,
        0 <= c,
    ensures
        a * c <= b * c,
{
    assert(a * c <= b * c) by (nonlinear_arith)
        requires a <= b, 0 <= c;
}

/// One more row of width b adds b cells, and the grid area is the same
/// in either factor order.
proof fn lemma_row_step(a: int, b: int)
    ensures
        (a + 1) * b == a * b + b,
        a * b == b * a,
{
    assert((a + 1) * b == a * b + b) by (nonlinear_arith);
    assert(a * b == b * a) by (nonlinear_arith);
}

/// Rasterizes the containment oracle at height y over the rectangle
/// [min_x, max_x) by [min_z, max_z). The output is fully determined by
/// the arguments: the pixel at row-major position (z - min_z) * w +
/// (x - min_x) is 255 exactly when (x, y, z) is contained.
pub fn building_grid(y: i16, min_x: i16, max_x: i16, min_z: i16, max_z: i16)
    -> (g: Vec<u8>)
    requires
        min_x <= max_x,
        min_z <= max_z,
        (max_x - min_x) * (max_z - min_z) <= usize::MAX,
    ensures
        g@ == building_grid_spec(y as int, min_x as int, min_z as int,
            (max_x - min_x) as int, (max_z - min_z) as int),
{
    let yi: i64 = y as i64;
    let min_xi: i64 = min_x as i64;
    let max_xi: i64 = max_x as i64;
    let min_zi: i64 = min_z as i64;
    let max_zi: i64 = max_z as i64;
    let w: i64 = max_xi - min_xi;
    let h: i64 = max_zi - min_zi;
    let ghost gspec = building_grid_spec(y as int, min_x as int, min_z as int,
        w as int, h as int);
    let mut g: Vec<u8> = Vec::new();
    let mut z: i64 = min_zi;
    while z < max_zi
        invariant
            yi == y as int,
            min_xi == min_x as int,
            max_xi == max_x as int,
            min_zi == min_z as int,
            max_zi == max_z as int,
            w == max_xi - min_xi,
            h == max_zi - min_zi,
            0 <= w,
            0 <= h,
            -32768 <= min_xi <= 32768,
            -32768 <= max_xi <= 32768,
            -32768 <= min_zi <= 32768,
            -32768 <= max_zi <= 32768,
            -32768 <= yi <= 32767,
            w * h <= usize::MAX,
            min_zi <= z <= max_zi,
            gspec == building_grid_spec(y as int, min_x as int, min_z as int,
                w as int, h as int),
            g@.len() == (z - min_zi) * w,
            forall|k: int| 0 <= k < g@.len() ==> g@[k] == gspec[k],
        decreases max_zi - z,
    {
        let mut x: i64 = min_xi;
        proof {
            lemma_mul_le(z - min_zi + 1, h as int, w as int);
        }
        while x < max_xi
            invariant
                yi == y as int,
                min_xi == min_x as int,
                max_xi == max_x as int,
                min_zi == min_z as int,
                max_zi == max_z as int,
                w == max_xi - min_xi,
                h == max_zi - min_zi,
                0 <= w,
                0 <= h,
                -32768 <= min_xi <= 32768,
                -32768 <= max_xi <= 32768,
                -32768 <= min_zi <= 32768,
                -32768 <= max_zi <= 32768,
                -32768 <= yi <= 32767,
                w * h <= usize::MAX,
                min_zi <= z < max_zi,
                min_xi <= x <= max_xi,
                (z - min_zi + 1) * w <= w * h,
                gspec == building_grid_spec(y as int, min_x as int, min_z as int,
                    w as int, h as int),
                g@.len() == (z - min_zi) * w + (x - min_xi),
                forall|k: int| 0 <= k < g@.len() ==> g@[k] == gspec[k],
            decreases max_xi - x,
        {
            let hit = crate::geometry::is_in_building_at(x, yi, z);
            let pix: u8 = if hit { 255 } else { 0 };
            proof {
                let k0 = g@.len() as int;
                lemma_row_step(z - min_zi, w as int);
                assert(k0 < (z - min_zi + 1) * (w as int));
                assert(0 <= k0 < (w as int) * (h as int));
                lemma_fundamental_div_mod_converse(k0, w as int,
                    z - min_zi, x - min_xi);
                assert(gspec[k0] == pixel_on(in_building(x as int, y as int, z as int)));
            }
            g.push(pix);
            x = x + 1;
        }
        proof {
            lemma_row_step(z - min_zi, w as int);
        }
        z = z + 1;
    }
    proof {
        lemma_row_step(h as int, w as int);
        assert(g@.len() == (h as int) * (w as int));
        assert(g@.len() == gspec.len());
        assert(g@ =~= gspec);
    }
    g
}

/// Relies on rayon's parallel iterator bridge: `map` applies its closure
/// to every window coordinate, and collecting into a `Vec` keeps the
/// traversal order of the rectangle, so the output is the same row-major
/// grid the sequential scan would produce, whatever the partitioning of
/// the work. The closure only calls the verified indexed perimeter test.
#[verifier::external_body]
fn perimeter_pixels_parallel(idx: &FootprintIndex, min_x: i16, max_x: i16,
    min_z: i16, max_z: i16) -> (g: Vec<u8>)
    requires
        min_x <= max_x,
        min_z <= max_z,
    ensures
        g@ == perimeter_grid_spec(*idx, min_x as int, min_z as int,
            (max_x - min_x) as int, (max_z - min_z) as int),
{
    (min_z..max_z)
        .into_par_iter()
        .flat_map(|z| (min_x..max_x).into_par_iter().map(move |x| [x, z]))
        .map(|[x, z]| if is_in_perimeter_of(idx, x, z) { u8::MAX } else { u8::MIN })
        .collect()
}

/// Rasterizes the perimeter oracle in indexed mode over the rectangle
/// [min_x, max_x) by [min_z, max_z), evaluating the pixels in parallel
/// against the finished index. The output is fully determined by the
/// index and the rectangle; on a complete index the pixel at row-major
/// position (z - min_z) * w + (x - min_x) is 255 exactly when (x, z) is
/// in the perimeter.
pub fn perimeter_grid(idx: &FootprintIndex, min_x: i16, max_x: i16,
    min_z: i16, max_z: i16) -> (g: Vec<u8>)
    requires
        min_x <= max_x,
        min_z <= max_z,
    ensures
        g@ == perimeter_grid_spec(*idx, min_x as int, min_z as int,
            (max_x - min_x) as int, (max_z - min_z) as int),
        idx.complete() ==> g@ == Seq::new(
            (((max_x - min_x) as int) * ((max_z - min_z) as int)) as nat,
            |k: int| pixel_on(in_perimeter(min_x as int + k % ((max_x - min_x) as int),
                min_z as int + k / ((max_x - min_x) as int)))),
{
    let g = perimeter_pixels_parallel(idx, min_x, max_x, min_z, max_z);
    proof {
        if idx.complete() {
            let w = (max_x - min_x) as int;
            let h = (max_z - min_z) as int;
            let direct = Seq::new((w * h) as nat, |k: int|
                pixel_on(in_perimeter(min_x as int + k % w, min_z as int + k / w)));
            assert forall|k: int| 0 <= k < (w * h) as nat implies
                g@[k] == direct[k] by {
                lemma_mode_agreement(*idx, min_x as int + k % w, min_z as int + k / w);
            }
            assert(g@ =~= direct);
        }
    }
    g
}

} // verus!
