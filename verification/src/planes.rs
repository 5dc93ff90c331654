//! The live aircraft table: one record per ICAO address, merged on every
//! accepted message and swept of stale entries.
use vstd::prelude::*;
use vstd::seq_lib::lemma_multiset_commutative;
use crate::calc::bits_value;
use crate::frames::DF;
use crate::header::DisplayFlags;
use crate::plane::{fast_updated_from, row_chars, seeded_plane, updated_from, Plane};

verus! {

/// How long an aircraft may go unheard before a sweep removes it, in
/// seconds.
pub const IDLE_THRESHOLD: u64 = 60;

/// How many updates pass between sweeps.
pub const CLEANUP_INTERVAL: u32 = 10;

/// The table of live aircraft, keyed by ICAO address.
pub struct Planes {
    pub aircrafts: Vec<(u32, Plane)>,
}

/// Whether an entry is still fresh at time `now`: strictly less than
/// `idle` seconds since its last update, with a clock that went backwards
/// reading as zero.
pub open spec fn entry_fresh(e: (u32, Plane), now: int, idle: int) -> bool {
    (if now >= e.1.timestamp {
        now - e.1.timestamp
    } else {
        0
    }) < idle
}

/// The sorting key an ordering character assigns to an entry.
pub open spec fn order_key(c: char, e: (u32, Plane)) -> int {
    if c == 'a' || c == 'A' {
        match e.1.altitude {
            Some(x) => x as int,
            None => -1,
        }
    } else if c == 'c' {
        (e.1.category.0 as int) * 0x100000000 + (e.1.category.1 as int)
    } else if c == 'C' {
        -((e.1.category.0 as int) * 2 + (e.1.category.1 as int))
    } else if c == 'N' {
        e.1.lat as int
    } else if c == 'S' {
        -(e.1.lat as int)
    } else if c == 'W' {
        e.1.lon as int
    } else if c == 'E' {
        -(e.1.lon as int)
    } else if c == 's' {
        match e.1.squawk {
            Some(x) => x as int,
            None => -1,
        }
    } else if c == 'V' {
        -(match e.1.vrate {
            Some(x) => x as int,
            None => 0,
        })
    } else if c == 'v' {
        match e.1.vrate {
            Some(x) => x as int,
            None => 0,
        }
    } else {
        e.0 as int
    }
}

/// Whether a sequence of entries is ordered by a key, ascending.
pub open spec fn sorted_by_key(s: Seq<(u32, Plane)>, c: char) -> bool {
    forall|i: int, j: int|
        0 <= i < j < s.len() ==> order_key(c, s[i]) <= order_key(c, s[j])
}

/// The rendered rows of a sequence of entries, one line each.
pub open spec fn rows_chars(s: Seq<(u32, Plane)>, wide: bool, now: int) -> Seq<char>
    decreases s.len(),
{
    if s.len() == 0 {
        Seq::empty()
    } else {
        rows_chars(s.drop_last(), wide, now) + row_chars(s.last().1, wide, now) + seq!['\n']
    }
}

/// Computes the sorting key of an entry.
fn order_key_of(c: char, e: &(u32, Plane)) -> (r: i128)
    requires
        e.1.wf(),
    ensures
        r == order_key(c, *e),
{
    if c == 'a' || c == 'A' {
        match e.1.altitude {
            Some(x) => x as i128,
            None => -1,
        }
    } else if c == 'c' {
        (e.1.category.0 as i128) * 0x100000000 + (e.1.category.1 as i128)
    } else if c == 'C' {
        -((e.1.category.0 as i128) * 2 + (e.1.category.1 as i128))
    } else if c == 'N' {
        e.1.lat as i128
    } else if c == 'S' {
        -(e.1.lat as i128)
    } else if c == 'W' {
        e.1.lon as i128
    } else if c == 'E' {
        -(e.1.lon as i128)
    } else if c == 's' {
        match e.1.squawk {
            Some(x) => x as i128,
            None => -1,
        }
    } else if c == 'V' {
        -(match e.1.vrate {
            Some(x) => x as i128,
            None => 0,
        })
    } else if c == 'v' {
        match e.1.vrate {
            Some(x) => x as i128,
            None => 0,
        }
    } else {
        e.0 as i128
    }
}

/// Copies one record field by field.
fn clone_plane(p: &Plane) -> (r: Plane)
    ensures
        r == *p,
{
    Plane {
        icao: p.icao,
        category: p.category,
        ais: match &p.ais {
            Some(s) => Some(s.clone()),
            None => None,
        },
        altitude: p.altitude,
        altitude_gnss: p.altitude_gnss,
        altitude_source: p.altitude_source,
        squawk: p.squawk,
        surveillance_status: p.surveillance_status,
        threat_encounter: p.threat_encounter,
        vrate: p.vrate,
        cpr_even_lat: p.cpr_even_lat,
        cpr_even_lon: p.cpr_even_lon,
        cpr_even_time: p.cpr_even_time,
        cpr_odd_lat: p.cpr_odd_lat,
        cpr_odd_lon: p.cpr_odd_lon,
        cpr_odd_time: p.cpr_odd_time,
        lat: p.lat,
        lon: p.lon,
        grspeed: p.grspeed,
        ground_movement: p.ground_movement,
        track: p.track,
        temperature: p.temperature,
        timestamp: p.timestamp,
        position_timestamp: p.position_timestamp,
        last_type_code: p.last_type_code,
        last_df: p.last_df,
        adsb_version: p.adsb_version,
        capability: p.capability,
    }
}

/// A multiset-preserving insertion at a position.
proof fn lemma_to_multiset_insert(s: Seq<(u32, Plane)>, j: int, e: (u32, Plane))
    requires
        0 <= j <= s.len(),
    ensures
        s.insert(j, e).to_multiset() =~= s.to_multiset().insert(e),
{
    broadcast use vstd::seq_lib::group_to_multiset_ensures;

    let a = s.subrange(0, j);
    a.to_multiset_ensures();
    let b = s.subrange(j, s.len() as int);
    assert(s.insert(j, e) == a.push(e) + b);
    lemma_multiset_commutative(a.push(e), b);
    lemma_multiset_commutative(a, b);
    assert(s =~= a + b);
    assert(a.push(e).to_multiset() =~= a.to_multiset().insert(e));
    assert(s.insert(j, e).to_multiset() =~= a.to_multiset().insert(e).add(b.to_multiset()));
    assert(a.to_multiset().insert(e).add(b.to_multiset()) =~= a.to_multiset().add(
        b.to_multiset(),
    ).insert(e));
}

/// One stable insertion-sort pass over the entries by one ordering key.
fn sort_pass(v: Vec<(u32, Plane)>, c: char) -> (r: Vec<(u32, Plane)>)
    requires
        forall|i: int| 0 <= i < v@.len() ==> (#[trigger] v@[i]).1.wf(),
    ensures
        r@.to_multiset() == v@.to_multiset(),
        r@.len() == v@.len(),
        sorted_by_key(r@, c),
        forall|i: int| 0 <= i < r@.len() ==> (#[trigger] r@[i]).1.wf(),
{
    broadcast use vstd::seq_lib::group_to_multiset_ensures;

    let ghost orig = v@;
    let mut src = v;
    let mut out: Vec<(u32, Plane)> = Vec::new();
    while src.len() > 0
        invariant
            out@.to_multiset().add(src@.to_multiset()) =~= orig.to_multiset(),
            out@.len() + src@.len() == orig.len(),
            sorted_by_key(out@, c),
            forall|i: int| 0 <= i < out@.len() ==> (#[trigger] out@[i]).1.wf(),
            forall|i: int| 0 <= i < src@.len() ==> (#[trigger] src@[i]).1.wf(),
        decreases src@.len(),
    {
        let ghost src_old = src@;
        let e = src.remove(0);
        proof {
            src_old.to_multiset_ensures();
            assert(src@ == src_old.remove(0));
            assert(src_old.remove(0).to_multiset() =~= src_old.to_multiset().remove(src_old[0]));
            assert(src@.to_multiset() =~= src_old.to_multiset().remove(e));
        }
        let key = order_key_of(c, &e);
        let mut j = out.len();
        while j > 0 && order_key_of(c, &out[j - 1]) > key
            invariant
                j <= out@.len(),
                key == order_key(c, e),
                sorted_by_key(out@, c),
                forall|i: int| 0 <= i < out@.len() ==> (#[trigger] out@[i]).1.wf(),
                forall|i: int| j <= i < out@.len() ==> order_key(c, #[trigger] out@[i]) > key,
            decreases j,
        {
            j = j - 1;
        }
        let ghost out_old = out@;
        out.insert(j, e);
        proof {
            lemma_to_multiset_insert(out_old, j as int, e);
            out_old.insert_ensures(j as int, e);
            assert(sorted_by_key(out@, c)) by {
                assert forall|a: int, b: int|
                    0 <= a < b < out@.len() implies order_key(c, out@[a]) <= order_key(
                    c,
                    out@[b],
                ) by {
                    if a < j && b == j {
                        assert(out@[a] == out_old[a]);
                    } else if a == j {
                        assert(out@[b] == out_old[b - 1]);
                    } else if a < j && b > j {
                        assert(out@[a] == out_old[a] && out@[b] == out_old[b - 1]);
                    } else if a > j {
                        assert(out@[a] == out_old[a - 1] && out@[b] == out_old[b - 1]);
                    }
                }
            }
            assert(out@.to_multiset().add(src@.to_multiset()) =~= orig.to_multiset()) by {
                src_old.to_multiset_ensures();
                out_old.to_multiset_ensures();
                assert(src_old.contains(e)) by {
                    assert(src_old[0] == e);
                }
                assert(src_old.to_multiset().count(e) > 0);
                assert(out@.to_multiset() =~= out_old.to_multiset().insert(e));
                assert forall|x: (u32, Plane)|
                    out@.to_multiset().add(src@.to_multiset()).count(x)
                        == orig.to_multiset().count(x) by {
                    assert(out@.to_multiset().count(x) == out_old.to_multiset().count(x) + (
                    if x == e {
                        1int
                    } else {
                        0int
                    }));
                    assert(src@.to_multiset().count(x) == src_old.to_multiset().count(x) - (
                    if x == e {
                        1int
                    } else {
                        0int
                    }));
                }
            }
        }
    }
    out
}

/// Reverses the entries, for the descending orderings.
fn reverse_entries(v: Vec<(u32, Plane)>) -> (r: Vec<(u32, Plane)>)
    requires
        forall|i: int| 0 <= i < v@.len() ==> (#[trigger] v@[i]).1.wf(),
    ensures
        r@ == v@.reverse(),
        r@.to_multiset() == v@.to_multiset(),
        forall|i: int| 0 <= i < r@.len() ==> (#[trigger] r@[i]).1.wf(),
{
    let mut src = v;
    let mut out: Vec<(u32, Plane)> = Vec::new();
    let ghost orig = src@;
    while src.len() > 0
        invariant
            out@.len() + src@.len() == orig.len(),
            src@ == orig.take(src@.len() as int),
            forall|i: int| 0 <= i < out@.len() ==> out@[i] == orig[orig.len() - 1 - i],
            forall|i: int| 0 <= i < orig.len() ==> (#[trigger] orig[i]).1.wf(),
        decreases src@.len(),
    {
        match src.pop() {
            Some(e) => {
                out.push(e);
            },
            None => {},
        }
    }
    proof {
        assert(out@ =~= orig.reverse());
        orig.lemma_reverse_to_multiset();
    }
    out
}

impl Planes {
    /// The table's well-formedness: records are well formed and no
    /// address appears twice.
    pub open spec fn wf(&self) -> bool {
        &&& forall|i: int|
            0 <= i < self.aircrafts@.len() ==> (#[trigger] self.aircrafts@[i]).1.wf()
        &&& forall|i: int, j: int|
            0 <= i < j < self.aircrafts@.len() ==> self.aircrafts@[i].0 != self.aircrafts@[j].0
    }

    /// Whether the table holds an entry for an address.
    pub open spec fn contains_icao(&self, icao: u32) -> bool {
        exists|i: int| 0 <= i < self.aircrafts@.len() && (#[trigger] self.aircrafts@[i]).0 == icao
    }

    /// The position of an address's entry; meaningful only while the
    /// table holds the address.
    pub open spec fn entry_index(&self, icao: u32) -> int {
        choose|i: int|
            0 <= i < self.aircrafts@.len() && (#[trigger] self.aircrafts@[i]).0 == icao
    }

    /// The record the table holds for an address; meaningful only while
    /// the table holds the address.
    pub open spec fn plane_of(&self, icao: u32) -> Plane {
        self.aircrafts@[self.entry_index(icao)].1
    }

    /// In a well-formed table the entry at any index is the one its own
    /// address looks up.
    pub proof fn lemma_plane_of_index(&self, i: int)
        requires
            self.wf(),
            0 <= i < self.aircrafts@.len(),
        ensures
            self.contains_icao(self.aircrafts@[i].0),
            self.plane_of(self.aircrafts@[i].0) == self.aircrafts@[i].1,
            self.entry_index(self.aircrafts@[i].0) == i,
    {
        let icao = self.aircrafts@[i].0;
        assert(self.contains_icao(icao));
        let j = self.entry_index(icao);
        assert(0 <= j < self.aircrafts@.len() && self.aircrafts@[j].0 == icao);
        if j != i {
            assert(self.aircrafts@[i].0 != self.aircrafts@[j].0);
        }
    }

    /// An empty table.
    pub fn new() -> (r: Self)
        ensures
            r.wf(),
            r.aircrafts@.len() == 0,
    {
        Planes { aircrafts: Vec::new() }
    }

    /// Finds the index of an address.
    fn find(&self, icao: u32) -> (r: Option<usize>)
        ensures
            r is Some ==> 0 <= r->0 < self.aircrafts@.len() && self.aircrafts@[r->0 as int].0
                == icao,
            r is None ==> !self.contains_icao(icao),
    {
        let mut i: usize = 0;
        while i < self.aircrafts.len()
            invariant
                i <= self.aircrafts@.len(),
                forall|j: int| 0 <= j < i ==> (#[trigger] self.aircrafts@[j]).0 != icao,
            decreases self.aircrafts@.len() - i,
        {
            if self.aircrafts[i].0 == icao {
                return Some(i);
            }
            i += 1;
        }
        None
    }

    /// Merges one accepted message into the record of its address,
    /// creating the record on first contact.
    ///
    /// Every other entry is left exactly as it was; the touched entry
    /// carries the new timestamp, and a field that the message does not
    /// carry keeps its old value, so the merge never clears previously
    /// learned state.
    pub fn update_aircraft(
        &mut self,
        downlink: &DF,
        message: &[u32],
        df: u32,
        icao: u32,
        use_update_method: bool,
        relaxed: bool,
        now: u64,
    )
        requires
            old(self).wf(),
            crate::valid_message(message@),
            df == bits_value(message@, 1, 5),
        ensures
            final(self).wf(),
            final(self).contains_icao(icao),
            old(self).contains_icao(icao) ==> final(self).aircrafts@.len() == old(self).aircrafts@.len(),
            !old(self).contains_icao(icao) ==> final(self).aircrafts@.len() == old(self).aircrafts@.len() + 1,
            forall|j: int|
                0 <= j < old(self).aircrafts@.len() && (#[trigger] old(self).aircrafts@[j]).0
                    != icao ==> final(self).aircrafts@[j] == old(self).aircrafts@[j],
            forall|j: int|
                0 <= j < final(self).aircrafts@.len() && (#[trigger] final(self).aircrafts@[j]).0 == icao ==> final(self).aircrafts@[j].1.timestamp == now,
            forall|j: int|
                0 <= j < old(self).aircrafts@.len() && (#[trigger] old(self).aircrafts@[j]).0
                    == icao ==> {
                    let p0 = old(self).aircrafts@[j].1;
                    let p1 = final(self).aircrafts@[j].1;
                    &&& (p0.squawk is Some ==> p1.squawk is Some)
                    &&& (p0.ais is Some ==> p1.ais is Some)
                    &&& (p0.temperature is Some ==> p1.temperature is Some)
                    &&& (p0.position_timestamp is Some ==> p1.position_timestamp is Some)
                    &&& (p0.altitude_gnss is Some ==> p1.altitude_gnss is Some)
                    &&& (p0.adsb_version is Some ==> p1.adsb_version is Some)
                    &&& p1.icao == p0.icao
                },
            old(self).contains_icao(icao) ==> (if df < 20 && !use_update_method {
                fast_updated_from(
                    old(self).plane_of(icao),
                    final(self).plane_of(icao),
                    *downlink,
                    now,
                )
            } else {
                updated_from(
                    old(self).plane_of(icao),
                    final(self).plane_of(icao),
                    message@,
                    df,
                    relaxed,
                    now,
                )
            }),
            !old(self).contains_icao(icao) ==> updated_from(
                seeded_plane(icao, now),
                final(self).plane_of(icao),
                message@,
                df,
                relaxed,
                now,
            ),
    {
        let found = self.find(icao);
        match found {
            Some(i) => {
                let ghost before = self.aircrafts@;
                let mut entry = self.aircrafts.remove(i);
                if df < 20 && !use_update_method {
                    entry.1.update_from_downlink(downlink, now);
                } else {
                    entry.1.update(message, df, relaxed, now);
                }
                let ghost eg = entry;
                self.aircrafts.insert(i, entry);
                proof {
                    assert(self.aircrafts@ =~= before.update(i as int, eg));
                    assert(self.aircrafts@[i as int].0 == icao);
                    old(self).lemma_plane_of_index(i as int);
                    self.lemma_plane_of_index(i as int);
                }
            },
            None => {
                let plane = Plane::from_message(message, df, icao, relaxed, now);
                self.aircrafts.push((icao, plane));
                proof {
                    assert(self.aircrafts@[self.aircrafts@.len() - 1].0 == icao);
                    self.lemma_plane_of_index(self.aircrafts@.len() - 1);
                }
            },
        }
    }

    /// Removes every entry that has gone unheard for at least `idle`
    /// seconds: exactly the fresh entries survive, in their old order.
    pub fn evict(&mut self, now: u64, idle: u64)
        requires
            old(self).wf(),
        ensures
            final(self).wf(),
            final(self).aircrafts@ == old(self).aircrafts@.filter(
                |e: (u32, Plane)| entry_fresh(e, now as int, idle as int),
            ),
    {
        let ghost orig = self.aircrafts@;
        let ghost pred = |e: (u32, Plane)| entry_fresh(e, now as int, idle as int);
        let mut kept: Vec<(u32, Plane)> = Vec::new();
        let mut i: usize = 0;
        proof {
            reveal(Seq::filter);
            assert(orig.take(0) =~= Seq::<(u32, Plane)>::empty());
            assert(orig.take(0).filter(pred) =~= Seq::<(u32, Plane)>::empty());
        }
        while i < self.aircrafts.len()
            invariant
                i <= self.aircrafts@.len(),
                self.aircrafts@ == orig,
                old(self).wf(),
                orig == old(self).aircrafts@,
                pred == (|e: (u32, Plane)| entry_fresh(e, now as int, idle as int)),
                kept@ == orig.take(i as int).filter(pred),
                forall|a: int|
                    0 <= a < kept@.len() ==> exists|j: int|
                        0 <= j < i && #[trigger] kept@[a] == orig[j],
                forall|a: int, b: int| 0 <= a < b < kept@.len() ==> kept@[a].0 != kept@[b].0,
            decreases self.aircrafts@.len() - i,
        {
            let e = &self.aircrafts[i];
            let elapsed = if now >= e.1.timestamp {
                now - e.1.timestamp
            } else {
                0
            };
            let ghost prefix = orig.take(i as int);
            let ghost kept_old = kept@;
            proof {
                reveal(Seq::filter);
                assert(orig.take(i + 1).drop_last() =~= prefix);
                assert(orig.take(i + 1).last() == orig[i as int]);
            }
            if elapsed < idle {
                let copy = (e.0, clone_plane(&e.1));
                kept.push(copy);
                proof {
                    assert forall|a: int|
                        0 <= a < kept@.len() implies exists|j: int|
                            0 <= j < i + 1 && #[trigger] kept@[a] == orig[j] by {
                        if a < kept_old.len() {
                            assert(kept@[a] == kept_old[a]);
                            let j = choose|j: int| 0 <= j < i && kept_old[a] == orig[j];
                            assert(kept@[a] == orig[j]);
                        } else {
                            assert(kept@[a] == orig[i as int]);
                        }
                    }
                    assert forall|a: int, b: int|
                        0 <= a < b < kept@.len() implies kept@[a].0 != kept@[b].0 by {
                        if b == kept@.len() - 1 {
                            let j = choose|j: int| 0 <= j < i && kept_old[a] == orig[j];
                            assert(kept@[a] == orig[j]);
                            assert(kept@[b] == orig[i as int]);
                            assert(orig[j].0 != orig[i as int].0);
                        }
                    }
                }
            }
            i += 1;
            proof {
                reveal(Seq::filter);
                assert(kept@ =~= orig.take(i as int).filter(pred));
            }
        }
        proof {
            assert(orig.take(orig.len() as int) =~= orig);
        }
        self.aircrafts = kept;
    }

    /// Eviction law: after a sweep at `now`, every surviving entry is
    /// fresh within the threshold, and every entry that was fresh
    /// survives; an aircraft unheard for the threshold or longer is gone.
    pub proof fn lemma_eviction(pre: Planes, post: Planes, now: u64, idle: u64)
        requires
            pre.wf(),
            post.aircrafts@ == pre.aircrafts@.filter(
                |e: (u32, Plane)| entry_fresh(e, now as int, idle as int),
            ),
        ensures
            forall|j: int|
                0 <= j < post.aircrafts@.len() ==> entry_fresh(
                    #[trigger] post.aircrafts@[j],
                    now as int,
                    idle as int,
                ),
            forall|i: int|
                0 <= i < pre.aircrafts@.len() && entry_fresh(
                    #[trigger] pre.aircrafts@[i],
                    now as int,
                    idle as int,
                ) ==> post.aircrafts@.contains(pre.aircrafts@[i]),
    {
        broadcast use vstd::prelude::Seq::lemma_filter_pred;
        broadcast use vstd::prelude::Seq::lemma_filter_contains;

    }

    /// Counts one more update and runs the periodic sweep with the fixed
    /// idle threshold once enough updates have passed.
    pub fn cleanup(&mut self, cleanup_count: &mut u32, now: u64)
        requires
            old(self).wf(),
            *old(cleanup_count) < 0xFFFF_FFFF,
        ensures
            final(self).wf(),
            *old(cleanup_count) > CLEANUP_INTERVAL ==> final(self).aircrafts@ == old(self).aircrafts@.filter(
                |e: (u32, Plane)| entry_fresh(e, now as int, IDLE_THRESHOLD as int),
            ) && *final(cleanup_count) == 1,
            *old(cleanup_count) <= CLEANUP_INTERVAL ==> final(self).aircrafts@ == old(self).aircrafts@ && *final(cleanup_count) == *old(cleanup_count) + 1,
    {
        if *cleanup_count > CLEANUP_INTERVAL {
            self.evict(now, IDLE_THRESHOLD);
            *cleanup_count = 0;
        }
        *cleanup_count = *cleanup_count + 1;
    }

    /// A snapshot of the table, ordered by address.
    pub fn snapshot(&self) -> (r: Vec<(u32, Plane)>)
        requires
            self.wf(),
        ensures
            r@.to_multiset() == self.aircrafts@.to_multiset(),
            r@.len() == self.aircrafts@.len(),
            sorted_by_key(r@, 'i'),
            forall|i: int| 0 <= i < r@.len() ==> (#[trigger] r@[i]).1.wf(),
    {
        let mut copy: Vec<(u32, Plane)> = Vec::new();
        let mut i: usize = 0;
        while i < self.aircrafts.len()
            invariant
                i <= self.aircrafts@.len(),
                self.wf(),
                copy@ == self.aircrafts@.take(i as int),
            decreases self.aircrafts@.len() - i,
        {
            let e = &self.aircrafts[i];
            let c = (e.0, clone_plane(&e.1));
            copy.push(c);
            proof {
                assert(copy@ =~= self.aircrafts@.take(i + 1));
            }
            i += 1;
        }
        proof {
            assert(copy@ =~= self.aircrafts@);
        }
        sort_pass(copy, 'i')
    }

    /// The snapshot re-ordered by each requested ordering character in
    /// turn, an upper-case altitude ordering meaning descending.
    pub fn ordered_snapshot(&self, order_by: &str) -> (r: Vec<(u32, Plane)>)
        requires
            self.wf(),
        ensures
            r@.to_multiset() == self.aircrafts@.to_multiset(),
            r@.len() == self.aircrafts@.len(),
            forall|i: int| 0 <= i < r@.len() ==> (#[trigger] r@[i]).1.wf(),
    {
        let mut rows = self.snapshot();
        let n = order_by.unicode_len();
        let mut k: usize = 0;
        while k < n
            invariant
                rows@.to_multiset() == self.aircrafts@.to_multiset(),
                rows@.len() == self.aircrafts@.len(),
                forall|i: int| 0 <= i < rows@.len() ==> (#[trigger] rows@[i]).1.wf(),
                n == order_by@.len(),
                k <= n,
            decreases n - k,
        {
            let c = order_by.get_char(k);
            if c == 'a' || c == 'c' || c == 'N' || c == 'S' || c == 'W' || c == 'E' || c == 's'
                || c == 'V' || c == 'v' || c == 'C' {
                rows = sort_pass(rows, c);
            } else if c == 'A' {
                rows = sort_pass(rows, c);
                rows = reverse_entries(rows);
            }
            k += 1;
        }
        rows
    }

    /// Renders the whole table, one row per aircraft, in the requested
    /// order.
    pub fn render(&self, order_by: &str, display_flags: &DisplayFlags, now: u64) -> (r: String)
        requires
            self.wf(),
    {
        let rows = self.ordered_snapshot(order_by);
        render_rows(&rows, display_flags.extra(), now)
    }
}

/// Renders a sequence of entries as newline-terminated table rows.
pub fn render_rows(rows: &Vec<(u32, Plane)>, wide: bool, now: u64) -> (r: String)
    requires
        forall|i: int| 0 <= i < rows@.len() ==> (#[trigger] rows@[i]).1.wf(),
    ensures
        r@ == rows_chars(rows@, wide, now as int),
{
    let mut s = String::new();
    let mut i: usize = 0;
    proof {
        assert(rows_chars(rows@.take(0), wide, now as int) =~= Seq::<char>::empty());
    }
    while i < rows.len()
        invariant
            i <= rows@.len(),
            forall|j: int| 0 <= j < rows@.len() ==> (#[trigger] rows@[j]).1.wf(),
            s@ == rows_chars(rows@.take(i as int), wide, now as int),
        decreases rows@.len() - i,
    {
        let e = &rows[i];
        let row = e.1.row(wide, now);
        s.append(row.as_str());
        s.append("\n");
        proof {
            reveal_strlit("\n");
            assert(rows@.take(i + 1).drop_last() =~= rows@.take(i as int));
            assert(rows@.take(i + 1).last() == rows@[i as int]);
            assert(s@ =~= rows_chars(rows@.take(i + 1), wide, now as int));
        }
        i += 1;
    }
    proof {
        assert(rows@.take(rows@.len() as int) =~= rows@);
    }
    s
}

} // verus!
