//! Ground-vector decoding of airborne velocity payloads.
//!
//! The east-west and north-south components are exact integers; the ground
//! speed is the vector magnitude rounded to the nearest knot, and the track
//! is resolved to whole degrees (carried in hundredths of a degree) through
//! an integer tangent table.
use vstd::prelude::*;
use crate::calc::{bits_value, lemma_bits_value_bound, msg_bit, get_bit, range_value};

verus! {

/// The tangent of `d + 1/2` degrees, scaled by 65536, for `d` below 45.
pub open spec fn tan_half_scaled(d: int) -> int {
    if d == 0 {
        572
    } else if d == 1 {
        1716
    } else if d == 2 {
        2861
    } else if d == 3 {
        4008
    } else if d == 4 {
        5158
    } else if d == 5 {
        6310
    } else if d == 6 {
        7467
    } else if d == 7 {
        8628
    } else if d == 8 {
        9794
    } else if d == 9 {
        10967
    } else if d == 10 {
        12146
    } else if d == 11 {
        13333
    } else if d == 12 {
        14529
    } else if d == 13 {
        15734
    } else if d == 14 {
        16949
    } else if d == 15 {
        18175
    } else if d == 16 {
        19413
    } else if d == 17 {
        20663
    } else if d == 18 {
        21928
    } else if d == 19 {
        23208
    } else if d == 20 {
        24503
    } else if d == 21 {
        25815
    } else if d == 22 {
        27146
    } else if d == 23 {
        28496
    } else if d == 24 {
        29866
    } else if d == 25 {
        31259
    } else if d == 26 {
        32675
    } else if d == 27 {
        34116
    } else if d == 28 {
        35583
    } else if d == 29 {
        37078
    } else if d == 30 {
        38604
    } else if d == 31 {
        40161
    } else if d == 32 {
        41751
    } else if d == 33 {
        43377
    } else if d == 34 {
        45042
    } else if d == 35 {
        46746
    } else if d == 36 {
        48494
    } else if d == 37 {
        50288
    } else if d == 38 {
        52130
    } else if d == 39 {
        54024
    } else if d == 40 {
        55973
    } else if d == 41 {
        57981
    } else if d == 42 {
        60053
    } else if d == 43 {
        62191
    } else {
        64402
    }
}

/// Looks up the scaled tangent of `d + 1/2` degrees.
fn tan_half(d: u32) -> (r: u64)
    requires
        d < 45,
    ensures
        r == tan_half_scaled(d as int),
{
    if d == 0 {
        572
    } else if d == 1 {
        1716
    } else if d == 2 {
        2861
    } else if d == 3 {
        4008
    } else if d == 4 {
        5158
    } else if d == 5 {
        6310
    } else if d == 6 {
        7467
    } else if d == 7 {
        8628
    } else if d == 8 {
        9794
    } else if d == 9 {
        10967
    } else if d == 10 {
        12146
    } else if d == 11 {
        13333
    } else if d == 12 {
        14529
    } else if d == 13 {
        15734
    } else if d == 14 {
        16949
    } else if d == 15 {
        18175
    } else if d == 16 {
        19413
    } else if d == 17 {
        20663
    } else if d == 18 {
        21928
    } else if d == 19 {
        23208
    } else if d == 20 {
        24503
    } else if d == 21 {
        25815
    } else if d == 22 {
        27146
    } else if d == 23 {
        28496
    } else if d == 24 {
        29866
    } else if d == 25 {
        31259
    } else if d == 26 {
        32675
    } else if d == 27 {
        34116
    } else if d == 28 {
        35583
    } else if d == 29 {
        37078
    } else if d == 30 {
        38604
    } else if d == 31 {
        40161
    } else if d == 32 {
        41751
    } else if d == 33 {
        43377
    } else if d == 34 {
        45042
    } else if d == 35 {
        46746
    } else if d == 36 {
        48494
    } else if d == 37 {
        50288
    } else if d == 38 {
        52130
    } else if d == 39 {
        54024
    } else if d == 40 {
        55973
    } else if d == 41 {
        57981
    } else if d == 42 {
        60053
    } else if d == 43 {
        62191
    } else {
        64402
    }
}

/// The smallest whole degree `d` at or after `from` whose half-degree
/// tangent boundary lies above the ratio `ax / ay`, capped at 45.
pub open spec fn atan_scan(ax: int, ay: int, from: int) -> int
    decreases 45 - from,
{
    if from >= 45 {
        45
    } else if ax * 65536 < ay * tan_half_scaled(from) {
        from
    } else {
        atan_scan(ax, ay, from + 1)
    }
}

/// The arctangent of `ax / ay` rounded to whole degrees, for a vector in
/// the first octant.
fn atan_octant(ax: u32, ay: u32) -> (r: u32)
    requires
        ax <= 1000000,
        ay <= 1000000,
    ensures
        r == atan_scan(ax as int, ay as int, 0),
        r <= 45,
{
    let mut d: u32 = 0;
    while d < 45
        invariant
            d <= 45,
            ax <= 1000000,
            ay <= 1000000,
            atan_scan(ax as int, ay as int, 0) == atan_scan(ax as int, ay as int, d as int),
        decreases 45 - d,
    {
        if (ax as u64) * 65536 < (ay as u64) * tan_half(d) {
            return d;
        }
        d += 1;
    }
    45
}

/// The whole-degree track of a ground vector, measured clockwise from
/// north; east and north magnitudes with their direction flags.
pub open spec fn track_angle_deg(ex: int, west: bool, ny: int, south: bool) -> int {
    if ex == 0 && ny == 0 {
        0
    } else {
        let base = if ex <= ny {
            atan_scan(ex, ny, 0)
        } else {
            90 - atan_scan(ny, ex, 0)
        };
        let a = if !west && !south {
            base
        } else if !west && south {
            180 - base
        } else if west && south {
            180 + base
        } else {
            360 - base
        };
        if a == 360 {
            0
        } else {
            a
        }
    }
}

/// Computes the nearest-integer square root of `n`.
pub fn sqrt_round(n: u32) -> (r: u32)
    ensures
        r * r <= n + r,
        n < r * r + r + 1,
{
    let mut f: u32 = 0;
    proof {
        assert(1 * 1 <= 0x1_0000_0000int);
    }
    while (f as u64 + 1) * (f as u64 + 1) <= n as u64
        invariant
            f * f <= n,
            f <= 0xFFFF,
            (f + 1) * (f + 1) <= 0x1_0000_0000int,
        decreases n - f,
    {
        proof {
            let ff = f as int;
            assert((ff + 1) * (ff + 1) <= n ==> ff + 1 <= n && ff + 1 <= 0xFFFF)
                by (nonlinear_arith)
                requires
                    n <= 0xFFFF_FFFF,
                    0 <= ff,
            ;
        }
        f += 1;
        proof {
            let ff = f as int;
            assert((ff + 1) * (ff + 1) <= 0x1_0000_0000int) by (nonlinear_arith)
                requires
                    0 <= ff <= 0xFFFF,
            ;
        }
    }
    let fsq = f * f;
    proof {
        let ff = f as int;
        assert((ff + 1) * (ff + 1) == ff * ff + 2 * ff + 1) by (nonlinear_arith);
    }
    if n - fsq > f {
        f + 1
    } else {
        f
    }
}

/// The raw east-west velocity field of an airborne velocity payload.
pub open spec fn ew_field(m: Seq<u32>) -> int {
    bits_value(m, 47, 56)
}

/// The raw north-south velocity field of an airborne velocity payload.
pub open spec fn ns_field(m: Seq<u32>) -> int {
    bits_value(m, 58, 67)
}

/// Decodes the ground track and ground speed of a velocity payload.
///
/// A zero component field means no velocity information, and both results
/// are absent.  Otherwise the components are `field - 1` knots, four times
/// that for the supersonic subtype; the track is the vector's direction in
/// hundredths of a degree at whole-degree resolution, and the speed its
/// magnitude rounded to the nearest knot.
pub fn track_and_groundspeed(message: &[u32], supersonic: bool) -> (r: (Option<u32>, Option<u32>))
    requires
        message@.len() == 28,
    ensures
        r.0 is Some <==> (ew_field(message@) != 0 && ns_field(message@) != 0),
        r.1 is Some <==> (ew_field(message@) != 0 && ns_field(message@) != 0),
        r.0 is Some ==> ({
            let f: int = if supersonic {
                4
            } else {
                1
            };
            let ex = (ew_field(message@) - 1) * f;
            let ny = (ns_field(message@) - 1) * f;
            (r.0)->0 == 100 * track_angle_deg(
                ex,
                msg_bit(message@, 46) == 1,
                ny,
                msg_bit(message@, 57) == 1,
            )
        }),
        r.1 is Some ==> ({
            let f: int = if supersonic {
                4
            } else {
                1
            };
            let ex = (ew_field(message@) - 1) * f;
            let ny = (ns_field(message@) - 1) * f;
            let n = ex * ex + ny * ny;
            let gs = (r.1)->0 as int;
            gs * gs <= n + gs && n < gs * gs + gs + 1
        }),
{
    proof {
        lemma_bits_value_bound(message@, 47, 56);
        lemma_bits_value_bound(message@, 58, 67);
        vstd::arithmetic::power2::lemma2_to64();
    }
    let ew = match range_value(message, 47, 56) {
        Some(v) => v,
        None => {
            proof {
                assert(false);
            }
            0
        },
    };
    let ns = match range_value(message, 58, 67) {
        Some(v) => v,
        None => {
            proof {
                assert(false);
            }
            0
        },
    };
    if ew == 0 || ns == 0 {
        return (None, None);
    }
    let factor: u32 = if supersonic {
        4
    } else {
        1
    };
    let ex = (ew - 1) * factor;
    let ny = (ns - 1) * factor;
    let west = get_bit(message, 46) == 1;
    let south = get_bit(message, 57) == 1;
    let deg: u32 = if ex == 0 && ny == 0 {
        0
    } else {
        let base = if ex <= ny {
            atan_octant(ex, ny)
        } else {
            90 - atan_octant(ny, ex)
        };
        let a = if !west && !south {
            base
        } else if !west && south {
            180 - base
        } else if west && south {
            180 + base
        } else {
            360 - base
        };
        if a == 360 {
            0
        } else {
            a
        }
    };
    proof {
        let exi = ex as int;
        let nyi = ny as int;
        assert(exi * exi + nyi * nyi <= 4092 * 4092 * 2) by (nonlinear_arith)
            requires
                0 <= exi <= 4092,
                0 <= nyi <= 4092,
        ;
    }
    let gs = sqrt_round(ex * ex + ny * ny);
    (Some(100 * deg), Some(gs))
}

} // verus!
