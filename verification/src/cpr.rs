//! Compact Position Reporting: global recovery of latitude and longitude
//! from an even and an odd encoded sample.
//!
//! All angles are carried in millionths of a degree, so every step is
//! exact integer arithmetic; rounding is to the nearest millionth.
use vstd::prelude::*;

verus! {

/// The number of longitude zones at a latitude, from the standard zone
/// geometry; the argument is the absolute latitude in millionths of a
/// degree.
pub open spec fn nl_value(a: int) -> int {
    if a < 10470471 {
        59
    } else if a < 14828174 {
        58
    } else if a < 18186264 {
        57
    } else if a < 21029395 {
        56
    } else if a < 23545045 {
        55
    } else if a < 25829247 {
        54
    } else if a < 27938987 {
        53
    } else if a < 29911357 {
        52
    } else if a < 31772097 {
        51
    } else if a < 33539934 {
        50
    } else if a < 35228996 {
        49
    } else if a < 36850251 {
        48
    } else if a < 38412419 {
        47
    } else if a < 39922567 {
        46
    } else if a < 41386518 {
        45
    } else if a < 42809140 {
        44
    } else if a < 44194550 {
        43
    } else if a < 45546267 {
        42
    } else if a < 46867333 {
        41
    } else if a < 48160391 {
        40
    } else if a < 49427764 {
        39
    } else if a < 50671502 {
        38
    } else if a < 51893425 {
        37
    } else if a < 53095162 {
        36
    } else if a < 54278175 {
        35
    } else if a < 55443784 {
        34
    } else if a < 56593188 {
        33
    } else if a < 57727474 {
        32
    } else if a < 58847638 {
        31
    } else if a < 59954593 {
        30
    } else if a < 61049178 {
        29
    } else if a < 62132167 {
        28
    } else if a < 63204275 {
        27
    } else if a < 64266165 {
        26
    } else if a < 65318453 {
        25
    } else if a < 66361710 {
        24
    } else if a < 67396468 {
        23
    } else if a < 68423220 {
        22
    } else if a < 69442426 {
        21
    } else if a < 70454511 {
        20
    } else if a < 71459865 {
        19
    } else if a < 72458845 {
        18
    } else if a < 73451774 {
        17
    } else if a < 74438934 {
        16
    } else if a < 75420563 {
        15
    } else if a < 76396844 {
        14
    } else if a < 77367895 {
        13
    } else if a < 78333741 {
        12
    } else if a < 79294282 {
        11
    } else if a < 80249232 {
        10
    } else if a < 81198013 {
        9
    } else if a < 82139570 {
        8
    } else if a < 83071994 {
        7
    } else if a < 83991736 {
        6
    } else if a < 84891662 {
        5
    } else if a < 85755416 {
        4
    } else if a < 86535370 {
        3
    } else if a < 87000000 {
        2
    } else {
        1
    }
}

/// Looks up the number of longitude zones at a latitude.
pub fn nl_lookup(a: u64) -> (r: u32)
    ensures
        r == nl_value(a as int),
        1 <= r <= 59,
{
    if a < 10470471 {
        59
    } else if a < 14828174 {
        58
    } else if a < 18186264 {
        57
    } else if a < 21029395 {
        56
    } else if a < 23545045 {
        55
    } else if a < 25829247 {
        54
    } else if a < 27938987 {
        53
    } else if a < 29911357 {
        52
    } else if a < 31772097 {
        51
    } else if a < 33539934 {
        50
    } else if a < 35228996 {
        49
    } else if a < 36850251 {
        48
    } else if a < 38412419 {
        47
    } else if a < 39922567 {
        46
    } else if a < 41386518 {
        45
    } else if a < 42809140 {
        44
    } else if a < 44194550 {
        43
    } else if a < 45546267 {
        42
    } else if a < 46867333 {
        41
    } else if a < 48160391 {
        40
    } else if a < 49427764 {
        39
    } else if a < 50671502 {
        38
    } else if a < 51893425 {
        37
    } else if a < 53095162 {
        36
    } else if a < 54278175 {
        35
    } else if a < 55443784 {
        34
    } else if a < 56593188 {
        33
    } else if a < 57727474 {
        32
    } else if a < 58847638 {
        31
    } else if a < 59954593 {
        30
    } else if a < 61049178 {
        29
    } else if a < 62132167 {
        28
    } else if a < 63204275 {
        27
    } else if a < 64266165 {
        26
    } else if a < 65318453 {
        25
    } else if a < 66361710 {
        24
    } else if a < 67396468 {
        23
    } else if a < 68423220 {
        22
    } else if a < 69442426 {
        21
    } else if a < 70454511 {
        20
    } else if a < 71459865 {
        19
    } else if a < 72458845 {
        18
    } else if a < 73451774 {
        17
    } else if a < 74438934 {
        16
    } else if a < 75420563 {
        15
    } else if a < 76396844 {
        14
    } else if a < 77367895 {
        13
    } else if a < 78333741 {
        12
    } else if a < 79294282 {
        11
    } else if a < 80249232 {
        10
    } else if a < 81198013 {
        9
    } else if a < 82139570 {
        8
    } else if a < 83071994 {
        7
    } else if a < 83991736 {
        6
    } else if a < 84891662 {
        5
    } else if a < 85755416 {
        4
    } else if a < 86535370 {
        3
    } else if a < 87000000 {
        2
    } else {
        1
    }
}


/// Floor division of a possibly negative numerator by a positive divisor.
pub open spec fn floor_div(a: int, b: int) -> int
    recommends
        b > 0,
{
    a / b
}

/// Computes the floor division of machine integers.
fn floor_div_i64(a: i64, b: i64) -> (r: i64)
    requires
        0 < b <= 1000000000,
        -1000000000000000 <= a <= 1000000000000000,
    ensures
        r == floor_div(a as int, b as int),
        a >= 0 ==> 0 <= r && r <= a,
        a < 0 ==> a <= r && r <= 0,
{
    if a >= 0 {
        let q = (a as u64) / (b as u64);
        proof {
            vstd::arithmetic::div_mod::lemma_fundamental_div_mod(a as int, b as int);
            assert(q <= (b as int) * (q as int)) by (nonlinear_arith)
                requires
                    b >= 1,
                    q >= 0,
            ;
        }
        q as i64
    } else {
        let n = (-a) as u64;
        let q = (n + (b as u64) - 1) / (b as u64);
        proof {
            let ni = n as int;
            let bi = b as int;
            let qi = q as int;
            assert(qi == (ni + bi - 1) / bi);
            vstd::arithmetic::div_mod::lemma_fundamental_div_mod(ni + bi - 1, bi);
            let r2 = (ni + bi - 1) % bi;
            vstd::arithmetic::div_mod::lemma_mod_bound(ni + bi - 1, bi);
            assert(ni + bi - 1 == bi * qi + r2);
            assert(bi * qi - ni == bi - 1 - r2);
            assert(0 <= bi * qi - ni < bi);
            assert(qi <= ni) by (nonlinear_arith)
                requires
                    bi * qi <= ni + bi - 1,
                    bi >= 1,
                    qi >= 0,
                    ni >= 1,
            ;
            assert(a as int == (-qi) * bi + (bi * qi - ni)) by (nonlinear_arith)
                requires
                    a as int == -ni,
            ;
            // a == (-q) * b + (q * b - n), and that remainder lies in [0, b)
            vstd::arithmetic::div_mod::lemma_fundamental_div_mod_converse(
                a as int,
                bi,
                -qi,
                bi * qi - ni,
            );
        }
        -(q as i64)
    }
}

/// The latitude zone index shared by an even and an odd sample, shifted
/// into the positive range by a multiple of both zone counts (3540 whole
/// zones, 464025600 = 3540 * 131072); only its residues modulo 60 and 59
/// matter, and the shift leaves both untouched.
pub open spec fn lat_zone_pos(lat_e: int, lat_o: int) -> int {
    (59 * lat_e + 65536 + 464025600 - 60 * lat_o) / 131072
}

/// The latitude that the even sample resolves to, in millionths of a
/// degree, before the hemisphere adjustment.
pub open spec fn lat_even_raw(lat_e: int, lat_o: int) -> int {
    (6000000 * ((lat_zone_pos(lat_e, lat_o) % 60) * 131072 + lat_e) + 65536) / 131072
}

/// The latitude that the odd sample resolves to, in millionths of a
/// degree, before the hemisphere adjustment.
pub open spec fn lat_odd_raw(lat_e: int, lat_o: int) -> int {
    (360000000 * ((lat_zone_pos(lat_e, lat_o) % 59) * 131072 + lat_o) + 3866624) / 7733248
}

/// Moves a decoded angle from the transmitted range into the signed
/// hemisphere convention.
pub open spec fn southify(a: int) -> int {
    if a >= 270000000 {
        a - 360000000
    } else {
        a
    }
}

/// The globally decoded position of an even and an odd airborne sample,
/// in millionths of a degree, taking the more recent parity as
/// authoritative; `None` when the samples straddle a longitude-zone
/// boundary or resolve outside the valid latitude band.
#[verifier::opaque]
pub open spec fn cpr_global_value(
    lat_e: int,
    lon_e: int,
    lat_o: int,
    lon_o: int,
    recent_odd: bool,
) -> Option<(i64, i64)> {
    let le = southify(lat_even_raw(lat_e, lat_o));
    let lo = southify(lat_odd_raw(lat_e, lat_o));
    let nle = nl_value(if le < 0 { -le } else { le });
    let nlo = nl_value(if lo < 0 { -lo } else { lo });
    if nle != nlo {
        None
    } else {
        let lat = if recent_odd { lo } else { le };
        if lat < -90000000 || lat > 90000000 {
            None
        } else {
            let nl = nle;
            let ni = if recent_odd {
                if nl - 1 < 1 { 1 } else { nl - 1 }
            } else {
                nl
            };
            let mpos = (lon_e * (nl - 1) + 65536 + ni * 8388608 - lon_o * nl) / 131072;
            let mni = mpos % ni;
            let xz = if recent_odd { lon_o } else { lon_e };
            let lon0 = (360000000 * (mni * 131072 + xz) + ni * 65536) / (ni * 131072);
            let lon = if lon0 >= 180000000 { lon0 - 360000000 } else { lon0 };
            Some(((lat as i64), (lon as i64)))
        }
    }
}

/// Resolves the global airborne position of an even/odd pair of compact
/// position reports.
///
/// Inputs are the raw 17-bit encoded values; the result is latitude and
/// longitude in millionths of a degree.  The decode fails exactly when the
/// two samples disagree on the longitude-zone count or the authoritative
/// latitude falls outside plus or minus 90 degrees; both failures mark an
/// inconsistent pairing, not a position.
#[verifier::rlimit(80)]
pub fn cpr_location(
    lat_even: u32,
    lon_even: u32,
    lat_odd: u32,
    lon_odd: u32,
    recent_odd: bool,
) -> (r: Option<(i64, i64)>)
    requires
        lat_even < 0x20000,
        lon_even < 0x20000,
        lat_odd < 0x20000,
        lon_odd < 0x20000,
    ensures
        r == cpr_global_value(
            lat_even as int,
            lon_even as int,
            lat_odd as int,
            lon_odd as int,
            recent_odd,
        ),
{
    proof {
        reveal(cpr_global_value);
    }
    let a: u64 = 59 * (lat_even as u64) + 65536 + 464025600;
    let b: u64 = 60 * (lat_odd as u64);
    let jpos: u64 = (a - b) / 131072;
    let j60: u64 = jpos % 60;
    let j59: u64 = jpos % 59;
    let le_raw: u64 = (6000000 * (j60 * 131072 + lat_even as u64) + 65536) / 131072;
    let lo_raw: u64 = (360000000 * (j59 * 131072 + lat_odd as u64) + 3866624) / 7733248;
    let le: i64 = if le_raw >= 270000000 {
        le_raw as i64 - 360000000
    } else {
        le_raw as i64
    };
    let lo: i64 = if lo_raw >= 270000000 {
        lo_raw as i64 - 360000000
    } else {
        lo_raw as i64
    };
    proof {
        assert(le as int == southify(lat_even_raw(lat_even as int, lat_odd as int)));
        assert(lo as int == southify(lat_odd_raw(lat_even as int, lat_odd as int)));
    }
    let nle = nl_lookup((if le < 0 { -le } else { le }) as u64);
    let nlo = nl_lookup((if lo < 0 { -lo } else { lo }) as u64);
    if nle != nlo {
        return None;
    }
    let lat: i64 = if recent_odd {
        lo
    } else {
        le
    };
    if lat < -90000000 || lat > 90000000 {
        return None;
    }
    let nl = nle;
    let ni: u32 = if recent_odd {
        if nl - 1 < 1 {
            1
        } else {
            nl - 1
        }
    } else {
        nl
    };
    proof {
        let lei = lon_even as int;
        let loi = lon_odd as int;
        let nli = nl as int;
        assert(lei * (nli - 1) <= 131071 * 58 && loi * nli <= 131071 * 59) by (nonlinear_arith)
            requires
                0 <= lei < 0x20000,
                0 <= loi < 0x20000,
                1 <= nli <= 59,
        ;
    }
    let a2: u64 = (lon_even as u64) * ((nl - 1) as u64) + 65536 + (ni as u64) * 8388608;
    let b2: u64 = (lon_odd as u64) * (nl as u64);
    let mpos: u64 = (a2 - b2) / 131072;
    let mni: u64 = mpos % (ni as u64);
    let xz: u64 = if recent_odd {
        lon_odd as u64
    } else {
        lon_even as u64
    };
    let lon0: u64 = (360000000 * (mni * 131072 + xz) + (ni as u64) * 65536) / ((ni as u64)
        * 131072);
    let lon: i64 = if lon0 >= 180000000 {
        lon0 as i64 - 360000000
    } else {
        lon0 as i64
    };
    Some((lat, lon))
}

/// The surface decode of an even/odd pair: the same zone algorithm on a
/// quarter-size grid, disambiguated against a reference position, all in
/// millionths of a degree.
#[verifier::opaque]
pub open spec fn cpr_surface_value(
    lat_e: int,
    lon_e: int,
    lat_o: int,
    lon_o: int,
    recent_odd: bool,
    ref_lat: int,
    ref_lon: int,
) -> Option<(i64, i64)> {
    let le = (1500000 * ((lat_zone_pos(lat_e, lat_o) % 60) * 131072 + lat_e) + 65536) / 131072;
    let lo = (90000000 * ((lat_zone_pos(lat_e, lat_o) % 59) * 131072 + lat_o) + 3866624)
        / 7733248;
    let c = if recent_odd { lo } else { le };
    let k = floor_div(ref_lat - c + 45000000, 90000000);
    let lat = c + 90000000 * k;
    if lat < -90000000 || lat > 90000000 {
        None
    } else {
        let nle = nl_value(if le + 90000000 * floor_div(ref_lat - le + 45000000, 90000000) < 0 {
            -(le + 90000000 * floor_div(ref_lat - le + 45000000, 90000000))
        } else {
            le + 90000000 * floor_div(ref_lat - le + 45000000, 90000000)
        });
        let nlo = nl_value(if lo + 90000000 * floor_div(ref_lat - lo + 45000000, 90000000) < 0 {
            -(lo + 90000000 * floor_div(ref_lat - lo + 45000000, 90000000))
        } else {
            lo + 90000000 * floor_div(ref_lat - lo + 45000000, 90000000)
        });
        if nle != nlo {
            None
        } else {
            let nl = nle;
            let ni = if recent_odd {
                if nl - 1 < 1 { 1 } else { nl - 1 }
            } else {
                nl
            };
            let mpos = (lon_e * (nl - 1) + 65536 + ni * 8388608 - lon_o * nl) / 131072;
            let mni = mpos % ni;
            let xz = if recent_odd { lon_o } else { lon_e };
            let lon0 = (90000000 * (mni * 131072 + xz) + ni * 65536) / (ni * 131072);
            let kl = floor_div(ref_lon - lon0 + 45000000, 90000000);
            let lon = lon0 + 90000000 * kl;
            if lon < -180000000 || lon > 180000000 {
                None
            } else {
                Some(((lat as i64), (lon as i64)))
            }
        }
    }
}

/// Resolves the surface position of an even/odd pair of compact position
/// reports against a reference position that settles the 90-degree zone
/// ambiguity.
#[verifier::rlimit(80)]
pub fn cpr_location_surface(
    lat_even: u32,
    lon_even: u32,
    lat_odd: u32,
    lon_odd: u32,
    recent_odd: bool,
    ref_lat: i64,
    ref_lon: i64,
) -> (r: Option<(i64, i64)>)
    requires
        lat_even < 0x20000,
        lon_even < 0x20000,
        lat_odd < 0x20000,
        lon_odd < 0x20000,
        -180000000 <= ref_lat <= 180000000,
        -180000000 <= ref_lon <= 180000000,
    ensures
        r == cpr_surface_value(
            lat_even as int,
            lon_even as int,
            lat_odd as int,
            lon_odd as int,
            recent_odd,
            ref_lat as int,
            ref_lon as int,
        ),
{
    proof {
        reveal(cpr_surface_value);
    }
    let a: u64 = 59 * (lat_even as u64) + 65536 + 464025600;
    let b: u64 = 60 * (lat_odd as u64);
    let jpos: u64 = (a - b) / 131072;
    let j60: u64 = jpos % 60;
    let j59: u64 = jpos % 59;
    let le: i64 = ((1500000 * (j60 * 131072 + lat_even as u64) + 65536) / 131072) as i64;
    let lo: i64 = ((90000000 * (j59 * 131072 + lat_odd as u64) + 3866624) / 7733248) as i64;
    let c: i64 = if recent_odd {
        lo
    } else {
        le
    };
    let k = floor_div_i64(ref_lat - c + 45000000, 90000000);
    let lat: i64 = c + 90000000 * k;
    if lat < -90000000 || lat > 90000000 {
        return None;
    }
    let ke = floor_div_i64(ref_lat - le + 45000000, 90000000);
    let late: i64 = le + 90000000 * ke;
    let ko = floor_div_i64(ref_lat - lo + 45000000, 90000000);
    let lato: i64 = lo + 90000000 * ko;
    let nle = nl_lookup((if late < 0 { -late } else { late }) as u64);
    let nlo = nl_lookup((if lato < 0 { -lato } else { lato }) as u64);
    if nle != nlo {
        return None;
    }
    let nl = nle;
    let ni: u32 = if recent_odd {
        if nl - 1 < 1 {
            1
        } else {
            nl - 1
        }
    } else {
        nl
    };
    proof {
        let lei = lon_even as int;
        let loi = lon_odd as int;
        let nli = nl as int;
        assert(lei * (nli - 1) <= 131071 * 58 && loi * nli <= 131071 * 59) by (nonlinear_arith)
            requires
                0 <= lei < 0x20000,
                0 <= loi < 0x20000,
                1 <= nli <= 59,
        ;
    }
    let a2: u64 = (lon_even as u64) * ((nl - 1) as u64) + 65536 + (ni as u64) * 8388608;
    let b2: u64 = (lon_odd as u64) * (nl as u64);
    let mpos: u64 = (a2 - b2) / 131072;
    let mni: u64 = mpos % (ni as u64);
    let xz: u64 = if recent_odd {
        lon_odd as u64
    } else {
        lon_even as u64
    };
    let lon0u: u64 = (90000000 * (mni * 131072 + xz) + (ni as u64) * 65536) / ((ni as u64)
        * 131072);
    let lon0: i64 = lon0u as i64;
    let kl = floor_div_i64(ref_lon - lon0 + 45000000, 90000000);
    let lon: i64 = lon0 + 90000000 * kl;
    if lon < -180000000 || lon > 180000000 {
        return None;
    }
    Some((lat, lon))
}

/// Which of two samples arrived more recently never changes the decoded
/// longitude zone: a successful global decode settles on the same
/// zone count either way, and failure from disagreeing zone counts is
/// likewise shared.
pub proof fn lemma_cpr_recency_zone(lat_e: int, lon_e: int, lat_o: int, lon_o: int)
    ensures
        ({
            let le = southify(lat_even_raw(lat_e, lat_o));
            let lo = southify(lat_odd_raw(lat_e, lat_o));
            let nle = nl_value(if le < 0 { -le } else { le });
            let nlo = nl_value(if lo < 0 { -lo } else { lo });
            &&& (cpr_global_value(lat_e, lon_e, lat_o, lon_o, false) is Some ==> nle == nlo)
            &&& (cpr_global_value(lat_e, lon_e, lat_o, lon_o, true) is Some ==> nle == nlo)
            &&& (nle != nlo ==> cpr_global_value(lat_e, lon_e, lat_o, lon_o, false) is None
                && cpr_global_value(lat_e, lon_e, lat_o, lon_o, true) is None)
        }),
{
    reveal(cpr_global_value);
}

} // verus!

