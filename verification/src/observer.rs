//! The observer's position, parsed from its configuration string.
//!
//! Coordinates are held in millionths of a degree, as everywhere else in
//! the library; the observer is threaded explicitly to whoever needs it
//! rather than held in process-wide state.
use vstd::prelude::*;

verus! {

/// A geographic position in millionths of a degree.
pub struct Coordinates {
    pub lat: i64,
    pub lon: i64,
}

/// The largest fraction already collected when the next digit weight is
/// `mult`: each weight is used at most once, top down.
pub open spec fn frac_limit(mult: int) -> int {
    if mult == 100000 {
        0
    } else if mult == 10000 {
        900000
    } else if mult == 1000 {
        990000
    } else if mult == 100 {
        999000
    } else if mult == 10 {
        999900
    } else if mult == 1 {
        999990
    } else {
        999999
    }
}

/// Scans one unsigned decimal number into millionths: digits before the
/// dot count whole units, the first six digits after it count fractions,
/// later ones are dropped; spaces are skipped and anything else fails.
/// An integer part above one thousand degrees fails as out of range.
pub open spec fn micro_scan(s: Seq<char>, ipart: int, frac: int, mult: int, seen_dot: bool) -> Option<int>
    decreases s.len(),
{
    if s.len() == 0 {
        Some(ipart * 1000000 + frac)
    } else {
        let u = s.first() as u32;
        if u == 32 {
            micro_scan(s.drop_first(), ipart, frac, mult, seen_dot)
        } else if 48 <= u <= 57 {
            if !seen_dot {
                if ipart >= 1000 {
                    None
                } else {
                    micro_scan(s.drop_first(), ipart * 10 + (u - 48), frac, mult, seen_dot)
                }
            } else {
                micro_scan(s.drop_first(), ipart, frac + (u - 48) * mult, mult / 10, seen_dot)
            }
        } else if s.first() == '.' && !seen_dot {
            micro_scan(s.drop_first(), ipart, frac, mult, true)
        } else {
            None
        }
    }
}

/// The millionths value of one signed decimal coordinate string, leading
/// spaces skipped.
pub open spec fn decimal_micro(s: Seq<char>) -> Option<int>
    decreases s.len(),
{
    if s.len() == 0 {
        None
    } else if s.first() == ' ' {
        decimal_micro(s.drop_first())
    } else if s.first() == '-' {
        match micro_scan(s.drop_first(), 0, 0, 100000, false) {
            Some(v) => Some(-v),
            None => None,
        }
    } else {
        micro_scan(s, 0, 0, 100000, false)
    }
}

/// Whatever a successful scan yields stays within a bounded band.
proof fn lemma_micro_scan_bound(s: Seq<char>, ipart: int, frac: int, mult: int, seen_dot: bool)
    requires
        0 <= ipart <= 9999,
        0 <= frac <= frac_limit(mult),
        mult == 100000 || mult == 10000 || mult == 1000 || mult == 100 || mult == 10 || mult == 1
            || mult == 0,
    ensures
        match micro_scan(s, ipart, frac, mult, seen_dot) {
            Some(v) => 0 <= v <= 10000999999,
            None => true,
        },
    decreases s.len(),
{
    if s.len() > 0 {
        let u = s.first() as u32;
        if u == 32 {
            lemma_micro_scan_bound(s.drop_first(), ipart, frac, mult, seen_dot);
        } else if 48 <= u <= 57 {
            if !seen_dot {
                if ipart < 1000 {
                    lemma_micro_scan_bound(
                        s.drop_first(),
                        ipart * 10 + (u - 48),
                        frac,
                        mult,
                        seen_dot,
                    );
                }
            } else {
                lemma_micro_scan_bound(
                    s.drop_first(),
                    ipart,
                    frac + (u - 48) * mult,
                    mult / 10,
                    seen_dot,
                );
            }
        } else if s.first() == '.' && !seen_dot {
            lemma_micro_scan_bound(s.drop_first(), ipart, frac, mult, true);
        }
    }
}

/// Parses one unsigned coordinate body.
fn scan_micro(s: &str, from: usize) -> (r: Option<i64>)
    requires
        from <= s@.len(),
    ensures
        r is Some <==> micro_scan(s@.skip(from as int), 0, 0, 100000, false) is Some,
        r is Some ==> r->0 == micro_scan(s@.skip(from as int), 0, 0, 100000, false)->0,
        r is Some ==> 0 <= r->0 <= 10000999999,
{
    let n = s.unicode_len();
    let mut ipart: u64 = 0;
    let mut frac: u64 = 0;
    let mut mult: u64 = 100000;
    let mut seen_dot = false;
    let mut i: usize = from;
    proof {
        lemma_micro_scan_bound(s@.skip(from as int), 0, 0, 100000, false);
    }
    while i < n
        invariant
            from <= i <= n,
            n == s@.len(),
            ipart <= 9999,
            frac <= frac_limit(mult as int),
            mult == 100000 || mult == 10000 || mult == 1000 || mult == 100 || mult == 10 || mult
                == 1 || mult == 0,
            micro_scan(s@.skip(from as int), 0, 0, 100000, false) == micro_scan(
                s@.skip(i as int),
                ipart as int,
                frac as int,
                mult as int,
                seen_dot,
            ),
        decreases n - i,
    {
        let c = s.get_char(i);
        let u = c as u32;
        proof {
            assert(s@.skip(i as int).first() == s@[i as int]);
            assert(s@.skip(i as int).drop_first() =~= s@.skip(i + 1));
        }
        if u == 32 {
        } else if 48 <= u && u <= 57 {
            if !seen_dot {
                if ipart >= 1000 {
                    return None;
                }
                ipart = ipart * 10 + (u - 48) as u64;
            } else {
                frac = frac + ((u - 48) as u64) * mult;
                mult = mult / 10;
            }
        } else if c == '.' && !seen_dot {
            seen_dot = true;
        } else {
            return None;
        }
        i += 1;
    }
    proof {
        assert(s@.skip(n as int) =~= Seq::<char>::empty());
    }
    Some((ipart * 1000000 + frac) as i64)
}

/// The position of the first comma of a string, or a negative number.
pub open spec fn first_comma(s: Seq<char>) -> int
    decreases s.len(),
{
    if s.len() == 0 {
        -1
    } else if s.first() == ',' {
        0
    } else {
        let r = first_comma(s.drop_first());
        if r < 0 {
            -1
        } else {
            r + 1
        }
    }
}

/// Parses the observer coordinates out of a `latitude,longitude`
/// configuration string.
///
/// The string must hold exactly one comma with a plain decimal number on
/// each side (exponent forms are not parsed); on success the returned
/// pair carries both values in millionths of a degree, and nothing is
/// parsed otherwise.  The parsed position
/// replaces the process-wide observer state the name once suggested: the
/// caller threads it to whoever needs it.
pub fn set_observer_coords_from_str(coord_str: &str) -> (r: Option<Coordinates>)
    ensures
        ({
            let s = coord_str@;
            let k = first_comma(s);
            &&& (k < 0 ==> r is None)
            &&& (k >= 0 ==> ((r is Some) <==> (decimal_micro(s.take(k)) is Some && decimal_micro(
                s.skip(k + 1),
            ) is Some)))
            &&& (k >= 0 && r is Some ==> (r->0).lat == decimal_micro(s.take(k))->0 && (
            r->0).lon == decimal_micro(s.skip(k + 1))->0)
        }),
{
    let n = coord_str.unicode_len();
    let mut k: usize = 0;
    proof {
        assert(coord_str@.skip(0) =~= coord_str@);
    }
    while k < n && coord_str.get_char(k) != ','
        invariant
            k <= n,
            n == coord_str@.len(),
            first_comma(coord_str@) == if first_comma(coord_str@.skip(k as int)) < 0 {
                -1int
            } else {
                k + first_comma(coord_str@.skip(k as int))
            },
            forall|j: int| 0 <= j < k ==> coord_str@[j] != ',',
        decreases n - k,
    {
        proof {
            assert(coord_str@.skip(k as int).first() == coord_str@[k as int]);
            assert(coord_str@.skip(k as int).drop_first() =~= coord_str@.skip(k + 1));
        }
        k += 1;
    }
    if k >= n {
        proof {
            assert(coord_str@.skip(n as int) =~= Seq::<char>::empty());
        }
        return None;
    }
    proof {
        assert(coord_str@.skip(k as int).first() == coord_str@[k as int]);
        assert(first_comma(coord_str@.skip(k as int)) == 0);
    }
    let lat = parse_part(coord_str, 0, k);
    let lon = match scan_signed(coord_str, k + 1) {
        Some(v) => Some(v),
        None => None,
    };
    match (lat, lon) {
        (Some(a), Some(b)) => Some(Coordinates { lat: a, lon: b }),
        _ => None,
    }
}

/// Parses the signed coordinate between two positions.
fn parse_part(s: &str, from: usize, to: usize) -> (r: Option<i64>)
    requires
        from <= to <= s@.len(),
    ensures
        r is Some <==> decimal_micro(s@.subrange(from as int, to as int)) is Some,
        r is Some ==> r->0 == decimal_micro(s@.subrange(from as int, to as int))->0,
        r is Some ==> -10000999999 <= r->0 <= 10000999999,
{
    let part = s.substring_char(from, to);
    proof {
        assert(part@.skip(0) =~= part@);
    }
    scan_signed(part, 0)
}

/// Parses a signed coordinate from a position to the end.
fn scan_signed(s: &str, from: usize) -> (r: Option<i64>)
    requires
        from <= s@.len(),
    ensures
        r is Some <==> decimal_micro(s@.skip(from as int)) is Some,
        r is Some ==> r->0 == decimal_micro(s@.skip(from as int))->0,
        r is Some ==> -10000999999 <= r->0 <= 10000999999,
{
    let n = s.unicode_len();
    let mut start = from;
    while start < n && s.get_char(start) == ' '
        invariant
            from <= start <= n,
            n == s@.len(),
            decimal_micro(s@.skip(from as int)) == decimal_micro(s@.skip(start as int)),
        decreases n - start,
    {
        proof {
            assert(s@.skip(start as int).first() == s@[start as int]);
            assert(s@.skip(start as int).drop_first() =~= s@.skip(start + 1));
        }
        start += 1;
    }
    if start >= n {
        proof {
            assert(s@.skip(n as int) =~= Seq::<char>::empty());
        }
        return None;
    }
    proof {
        assert(s@.skip(start as int).first() == s@[start as int]);
        assert(s@.skip(start as int).drop_first() =~= s@.skip(start + 1));
    }
    if s.get_char(start) == '-' {
        match scan_micro(s, start + 1) {
            Some(v) => Some(-v),
            None => None,
        }
    } else {
        scan_micro(s, start)
    }
}

} // verus!
