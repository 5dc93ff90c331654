//! The per-aircraft record and the merge of decoded frames into it.
use vstd::prelude::*;
use crate::altitude;
use crate::altitude::altitude_of;
use crate::bds;
use crate::calc::{bits_value, msg_bit};
use crate::cpr;
use crate::fields;
use crate::frames::{classify_value, DF};
use crate::message::get_message_type;

verus! {

/// The mutable, long-lived state of one aircraft.
///
/// Angles are in hundredths of a degree, positions in millionths of a
/// degree with zero meaning unknown, temperatures in hundredths of a
/// degree Celsius, times in whole seconds.
pub struct Plane {
    pub icao: u32,
    pub category: (u32, u32),
    pub ais: Option<String>,
    pub altitude: Option<u32>,
    pub altitude_gnss: Option<u32>,
    pub altitude_source: char,
    pub squawk: Option<u32>,
    pub surveillance_status: char,
    pub threat_encounter: Option<char>,
    pub vrate: Option<i32>,
    pub cpr_even_lat: u32,
    pub cpr_even_lon: u32,
    pub cpr_even_time: u64,
    pub cpr_odd_lat: u32,
    pub cpr_odd_lon: u32,
    pub cpr_odd_time: u64,
    pub lat: i64,
    pub lon: i64,
    pub grspeed: Option<u32>,
    pub ground_movement: Option<u32>,
    pub track: Option<u32>,
    pub temperature: Option<i32>,
    pub timestamp: u64,
    pub position_timestamp: Option<u64>,
    pub last_type_code: u32,
    pub last_df: u32,
    pub adsb_version: Option<u32>,
    pub capability: u32,
}

/// A record that knows nothing yet, stamped at `now`.
pub open spec fn fresh_plane(now: u64) -> Plane {
    Plane {
        icao: 0,
        category: (0u32, 0u32),
        ais: None,
        altitude: None,
        altitude_gnss: None,
        altitude_source: ' ',
        squawk: None,
        surveillance_status: ' ',
        threat_encounter: None,
        vrate: None,
        cpr_even_lat: 0,
        cpr_even_lon: 0,
        cpr_even_time: now,
        cpr_odd_lat: 0,
        cpr_odd_lon: 0,
        cpr_odd_time: now,
        lat: 0,
        lon: 0,
        grspeed: None,
        ground_movement: None,
        track: None,
        temperature: None,
        timestamp: now,
        position_timestamp: None,
        last_type_code: 0,
        last_df: 0,
        adsb_version: None,
        capability: 0,
    }
}

/// A fresh record claimed for one address.
pub open spec fn seeded_plane(icao: u32, now: u64) -> Plane {
    Plane { icao, ..fresh_plane(now) }
}

impl Plane {
    /// The well-formedness of a record: stored position samples fit their
    /// 17-bit fields and the resolved position lies in its valid bands.
    pub open spec fn wf(&self) -> bool {
        &&& self.cpr_even_lat < 0x20000
        &&& self.cpr_even_lon < 0x20000
        &&& self.cpr_odd_lat < 0x20000
        &&& self.cpr_odd_lon < 0x20000
        &&& -90000000 <= self.lat <= 90000000
        &&& -180000000 <= self.lon <= 180000000
    }

    /// A fresh record with nothing known, stamped with the current time.
    pub fn new(now: u64) -> (r: Self)
        ensures
            r == fresh_plane(now),
            r.wf(),
            r.icao == 0,
            r.timestamp == now,
            r.ais is None,
            r.altitude is None,
            r.altitude_gnss is None,
            r.squawk is None,
            r.threat_encounter is None,
            r.vrate is None,
            r.lat == 0 && r.lon == 0,
            r.position_timestamp is None,
            r.category == (0u32, 0u32),
            r.cpr_even_lat == 0 && r.cpr_odd_lat == 0,
            r.cpr_even_lon == 0 && r.cpr_odd_lon == 0,
            r.grspeed is None,
            r.ground_movement is None,
            r.track is None,
            r.temperature is None,
            r.adsb_version is None,
            r.last_df == 0 && r.last_type_code == 0,
    {
        Plane {
            icao: 0,
            category: (0, 0),
            ais: None,
            altitude: None,
            altitude_gnss: None,
            altitude_source: ' ',
            squawk: None,
            surveillance_status: ' ',
            threat_encounter: None,
            vrate: None,
            cpr_even_lat: 0,
            cpr_even_lon: 0,
            cpr_even_time: now,
            cpr_odd_lat: 0,
            cpr_odd_lon: 0,
            cpr_odd_time: now,
            lat: 0,
            lon: 0,
            grspeed: None,
            ground_movement: None,
            track: None,
            temperature: None,
            timestamp: now,
            position_timestamp: None,
            last_type_code: 0,
            last_df: 0,
            adsb_version: None,
            capability: 0,
        }
    }

    /// Seeds a record from the first message of a previously unseen
    /// address.
    pub fn from_message(message: &[u32], df: u32, icao: u32, relaxed: bool, now: u64) -> (r: Self)
        requires
            crate::valid_message(message@),
            df == bits_value(message@, 1, 5),
        ensures
            r.wf(),
            r.icao == icao,
            r.timestamp == now,
            r.last_df == df,
            updated_from(seeded_plane(icao, now), r, message@, df, relaxed, now),
    {
        let mut plane = Plane::new(now);
        plane.icao = icao;
        proof {
            assert(plane == seeded_plane(icao, now));
        }
        plane.update(message, df, relaxed, now);
        plane
    }

    /// Merges one accepted message into the record.
    ///
    /// The timestamp moves to `now` whatever the message carries; each
    /// field changes exactly as its frame type dictates and is otherwise
    /// left alone, so a message that does not carry a field never clears
    /// it.
    #[verifier::rlimit(100)]
    pub fn update(&mut self, message: &[u32], df: u32, relaxed: bool, now: u64)
        requires
            old(self).wf(),
            crate::valid_message(message@),
            df == bits_value(message@, 1, 5),
        ensures
            final(self).wf(),
            final(self).timestamp == now,
            final(self).last_df == df,
            final(self).icao == old(self).icao,
            final(self).capability == old(self).capability,
            updated_from(*old(self), *final(self), message@, df, relaxed, now),
    {
        self.timestamp = now;
        self.last_df = df;
        if df == 4 {
            if let Some(a) = altitude::altitude(message, df) {
                self.altitude = Some(a);
            }
            self.altitude_source = ' ';
        }
        if df == 5 || df == 21 {
            self.squawk = fields::squawk(message);
        }
        if (df == 17 || df == 18) && message.len() == 28 {
            self.update_extended(message, df, now);
        }
        if (df == 20 || df == 21) && message.len() == 28 {
            let reg = crate::frames::classify(message, relaxed);
            if reg.0 == 2 && reg.1 == 0 {
                self.ais = fields::ais(message);
            }
            if reg.0 == 3 && reg.1 == 0 {
                self.threat_encounter = fields::threat_encounter(message);
            }
            if reg.0 == 4 && reg.1 == 4 {
                if let Some(meteo) = bds::is_bds_4_4(message) {
                    self.temperature = meteo.temp;
                }
            }
            if reg.0 == 4 && reg.1 == 5 {
                if let Some(t) = bds::is_bds_4_5(message) {
                    self.temperature = Some(t);
                }
            }
        }
    }

    /// Re-resolves the position from the stored even and odd samples,
    /// when both are present and close enough in time; an airborne
    /// payload decodes globally, a surface payload against the last
    /// known position.
    #[verifier::rlimit(100)]
    fn resolve_position(&mut self, message: &[u32], tc: u32, form: u32, now: u64)
        requires
            old(self).wf(),
            crate::valid_message(message@),
            message@.len() == 28,
            5 <= tc <= 18,
        ensures
            final(self).wf(),
            final(self).cpr_even_lat == old(self).cpr_even_lat,
            final(self).cpr_even_lon == old(self).cpr_even_lon,
            final(self).cpr_even_time == old(self).cpr_even_time,
            final(self).cpr_odd_lat == old(self).cpr_odd_lat,
            final(self).cpr_odd_lon == old(self).cpr_odd_lon,
            final(self).cpr_odd_time == old(self).cpr_odd_time,
            final(self).timestamp == old(self).timestamp,
            final(self).last_df == old(self).last_df,
            final(self).last_type_code == old(self).last_type_code,
            final(self).icao == old(self).icao,
            final(self).capability == old(self).capability,
            final(self).squawk == old(self).squawk,
            final(self).threat_encounter == old(self).threat_encounter,
            final(self).temperature == old(self).temperature,
            final(self).ais == old(self).ais,
            final(self).category == old(self).category,
            final(self).altitude == old(self).altitude,
            final(self).altitude_gnss == old(self).altitude_gnss,
            final(self).altitude_source == old(self).altitude_source,
            final(self).surveillance_status == old(self).surveillance_status,
            final(self).vrate == old(self).vrate,
            final(self).grspeed == old(self).grspeed,
            final(self).ground_movement == old(self).ground_movement,
            final(self).adsb_version == old(self).adsb_version,
            ({
                let m = message@;
                let et = old(self).cpr_even_time as int;
                let ot = old(self).cpr_odd_time as int;
                let age = if et >= ot {
                    et - ot
                } else {
                    ot - et
                };
                let ready = old(self).cpr_even_lat != 0 && old(self).cpr_odd_lat != 0 && old(self).cpr_even_lon != 0 && old(self).cpr_odd_lon != 0 && age < 10;
                let resolved = if tc <= 8 {
                    if old(self).lat != 0 || old(self).lon != 0 {
                        crate::cpr::cpr_surface_value(
                            old(self).cpr_even_lat as int,
                            old(self).cpr_even_lon as int,
                            old(self).cpr_odd_lat as int,
                            old(self).cpr_odd_lon as int,
                            form == 1,
                            old(self).lat as int,
                            old(self).lon as int,
                        )
                    } else {
                        None
                    }
                } else {
                    crate::cpr::cpr_global_value(
                        old(self).cpr_even_lat as int,
                        old(self).cpr_even_lon as int,
                        old(self).cpr_odd_lat as int,
                        old(self).cpr_odd_lon as int,
                        form == 1,
                    )
                };
                let good = ready && resolved is Some && -90000000 <= (resolved->0).0 <= 90000000
                    && -180000000 <= (resolved->0).1 <= 180000000;
                &&& (good ==> final(self).lat == (resolved->0).0 && final(self).lon == (
                resolved->0).1 && final(self).position_timestamp == Some(now))
                &&& (!good ==> final(self).lat == old(self).lat && final(self).lon == old(self).lon && final(self).position_timestamp == old(self).position_timestamp)
                &&& (ready && tc <= 8 ==> final(self).track == crate::fields::ground_track_value(
                    m,
                ))
                &&& (!(ready && tc <= 8) ==> final(self).track == old(self).track)
            }),
    {
        let te = self.cpr_even_time;
        let to = self.cpr_odd_time;
        let age = if te >= to {
            te - to
        } else {
            to - te
        };
        if self.cpr_even_lat != 0 && self.cpr_odd_lat != 0 && self.cpr_even_lon != 0
            && self.cpr_odd_lon != 0 && age < 10 {
            let resolved: Option<(i64, i64)> = if tc <= 8 {
                self.track = fields::ground_track(message);
                if self.lat != 0 || self.lon != 0 {
                    cpr::cpr_location_surface(
                        self.cpr_even_lat,
                        self.cpr_even_lon,
                        self.cpr_odd_lat,
                        self.cpr_odd_lon,
                        form == 1,
                        self.lat,
                        self.lon,
                    )
                } else {
                    None
                }
            } else {
                cpr::cpr_location(
                    self.cpr_even_lat,
                    self.cpr_even_lon,
                    self.cpr_odd_lat,
                    self.cpr_odd_lon,
                    form == 1,
                )
            };
            if let Some((lat, lon)) = resolved {
                if -90000000 <= lat && lat <= 90000000 && -180000000 <= lon && lon <= 180000000 {
                    self.lat = lat;
                    self.lon = lon;
                    self.position_timestamp = Some(now);
                }
            }
        }
    }

    /// Merges one extended squitter payload into the record; the caller
    /// has already stamped the envelope fields.
    #[verifier::rlimit(100)]
    fn update_extended(&mut self, message: &[u32], df: u32, now: u64)
        requires
            old(self).wf(),
            crate::valid_message(message@),
            message@.len() == 28,
        ensures
            final(self).wf(),
            final(self).timestamp == old(self).timestamp,
            final(self).last_df == old(self).last_df,
            final(self).icao == old(self).icao,
            final(self).capability == old(self).capability,
            final(self).squawk == old(self).squawk,
            final(self).threat_encounter == old(self).threat_encounter,
            final(self).temperature == old(self).temperature,
            ({
                let m = message@;
                let tc = (((m[8] << 1u32) | (m[9] >> 3u32)) as u32);
                let st = ((m[9] & 7) as u32);
                &&& final(self).last_type_code == tc
                &&& (5 <= tc <= 8 ==> final(self).altitude is None)
                &&& (9 <= tc <= 18 ==> final(self).altitude == altitude_of(m, df))
                &&& (!(5 <= tc <= 18) ==> final(self).altitude == old(self).altitude)
                &&& (1 <= tc <= 4 ==> final(self).ais is Some && final(self).ais->0@
                    == fields::ais_seq(m, fields::ais_trim_len(m, 8)) && final(self).category == (
                tc as u32, st as u32))
                &&& (!(1 <= tc <= 4) ==> final(self).ais == old(self).ais && final(self).category
                    == old(self).category)
                &&& (5 <= tc <= 18 && msg_bit(m, 54) == 0 ==> final(self).cpr_even_lat
                    == bits_value(m, 55, 71) && final(self).cpr_even_lon == bits_value(m, 72, 88)
                    && final(self).cpr_even_time == now && final(self).cpr_odd_lat == old(self).cpr_odd_lat
                    && final(self).cpr_odd_lon == old(self).cpr_odd_lon && final(self).cpr_odd_time
                    == old(self).cpr_odd_time)
                &&& (5 <= tc <= 18 && msg_bit(m, 54) == 1 ==> final(self).cpr_odd_lat
                    == bits_value(m, 55, 71) && final(self).cpr_odd_lon == bits_value(m, 72, 88)
                    && final(self).cpr_odd_time == now && final(self).cpr_even_lat == old(self).cpr_even_lat
                    && final(self).cpr_even_lon == old(self).cpr_even_lon && final(self).cpr_even_time
                    == old(self).cpr_even_time)
                &&& (!(5 <= tc <= 18) ==> final(self).cpr_even_lat == old(self).cpr_even_lat
                    && final(self).cpr_even_lon == old(self).cpr_even_lon && final(self).cpr_even_time
                    == old(self).cpr_even_time && final(self).cpr_odd_lat == old(self).cpr_odd_lat
                    && final(self).cpr_odd_lon == old(self).cpr_odd_lon && final(self).cpr_odd_time
                    == old(self).cpr_odd_time)
                &&& (5 <= tc <= 8 ==> final(self).ground_movement
                    == fields::ground_movement_value(bits_value(m, 38, 44) as u32))
                &&& ((9 <= tc <= 18 || 20 <= tc <= 22) ==> final(self).surveillance_status
                    == fields::surveillance_status_value(m))
                &&& (tc == 19 ==> final(self).vrate == fields::vertical_rate_value(m))
                &&& (tc != 19 ==> final(self).vrate == old(self).vrate)
                &&& (20 <= tc <= 22 ==> final(self).altitude_gnss == Some(
                    (bits_value(m, 41, 52) as u32),
                ))
                &&& (tc == 31 ==> final(self).adsb_version == Some(
                    (bits_value(m, 41, 43) as u32),
                ))
                &&& (tc != 31 ==> final(self).adsb_version == old(self).adsb_version)
                &&& (!(5 <= tc <= 18) ==> final(self).lat == old(self).lat && final(self).lon
                    == old(self).lon && final(self).position_timestamp == old(self).position_timestamp)
                &&& (5 <= tc <= 18 ==> ({
                    let et = final(self).cpr_even_time as int;
                    let ot = final(self).cpr_odd_time as int;
                    let age = if et >= ot {
                        et - ot
                    } else {
                        ot - et
                    };
                    let ready = final(self).cpr_even_lat != 0 && final(self).cpr_odd_lat != 0
                        && final(self).cpr_even_lon != 0 && final(self).cpr_odd_lon != 0 && age
                        < 10;
                    let resolved = if tc <= 8 {
                        if old(self).lat != 0 || old(self).lon != 0 {
                            crate::cpr::cpr_surface_value(
                                final(self).cpr_even_lat as int,
                                final(self).cpr_even_lon as int,
                                final(self).cpr_odd_lat as int,
                                final(self).cpr_odd_lon as int,
                                msg_bit(m, 54) == 1,
                                old(self).lat as int,
                                old(self).lon as int,
                            )
                        } else {
                            None
                        }
                    } else {
                        crate::cpr::cpr_global_value(
                            final(self).cpr_even_lat as int,
                            final(self).cpr_even_lon as int,
                            final(self).cpr_odd_lat as int,
                            final(self).cpr_odd_lon as int,
                            msg_bit(m, 54) == 1,
                        )
                    };
                    let good = ready && resolved is Some && -90000000 <= (resolved->0).0
                        <= 90000000 && -180000000 <= (resolved->0).1 <= 180000000;
                    &&& (good ==> final(self).lat == (resolved->0).0 && final(self).lon == (
                    resolved->0).1 && final(self).position_timestamp == Some(now))
                    &&& (!good ==> final(self).lat == old(self).lat && final(self).lon == old(self).lon && final(self).position_timestamp == old(self).position_timestamp)
                }))
                &&& (!(5 <= tc <= 8 || tc == 19) ==> final(self).track == old(self).track
                    && final(self).grspeed == old(self).grspeed)
                &&& (tc == 19 && st == 3 ==> final(self).track == crate::fields::heading_value(
                    m,
                ))
                &&& (old(self).position_timestamp is Some ==> final(self).position_timestamp
                    is Some)
                &&& (old(self).altitude_gnss is Some ==> final(self).altitude_gnss is Some)
                &&& (old(self).adsb_version is Some ==> final(self).adsb_version is Some)
                &&& (old(self).ais is Some ==> final(self).ais is Some)
            }),
    {
        let (message_type, message_subtype) = get_message_type(message);
        self.last_type_code = message_type;
        if 1 <= message_type && message_type <= 4 {
            self.ais = fields::ais(message);
            self.category = (message_type, message_subtype);
        } else if 5 <= message_type && message_type <= 18 {
            let (cpr_form, cpr_lat, cpr_lon) = fields::cpr(message);
            if cpr_form == 0 {
                self.cpr_even_lat = cpr_lat;
                self.cpr_even_lon = cpr_lon;
                self.cpr_even_time = now;
            } else {
                self.cpr_odd_lat = cpr_lat;
                self.cpr_odd_lon = cpr_lon;
                self.cpr_odd_time = now;
            }
            if 5 <= message_type && message_type <= 8 {
                self.ground_movement = fields::ground_movement(message);
                self.altitude = None;
                self.altitude_source = '\u{2070}';
            } else {
                self.altitude = altitude::altitude(message, df);
                self.altitude_source = ' ';
                self.surveillance_status = fields::surveillance_status(message);
            }
            self.resolve_position(message, message_type, cpr_form, now);
        } else if message_type == 19 {
            self.vrate = fields::vertical_rate(message);
            if let Some(alt) = self.altitude {
                if let Some(delta) = altitude::altitude_delta(message) {
                    let sum = alt as i64 + delta as i64;
                    if sum >= 0 && sum <= 0xFFFF_FFFF {
                        self.altitude_gnss = Some(sum as u32);
                    }
                }
            }
            if message_subtype == 1 {
                let (track, grspeed) = crate::velocity::track_and_groundspeed(message, false);
                self.track = track;
                self.grspeed = grspeed;
            } else if message_subtype == 2 {
                let (track, grspeed) = crate::velocity::track_and_groundspeed(message, true);
                self.track = track;
                self.grspeed = grspeed;
            } else if message_subtype == 3 || message_subtype == 4 {
                self.track = fields::heading(message);
                self.altitude_source = '"';
            }
        } else if 20 <= message_type && message_type <= 22 {
            self.altitude_gnss = altitude::altitude_gnss(message);
            self.surveillance_status = fields::surveillance_status(message);
        } else if message_type == 31 {
            self.adsb_version = fields::version(message);
        }
    }

    /// Merges a decoded short frame without re-reading the message, as the
    /// fast path for the surveillance formats does.
    pub fn update_from_downlink(&mut self, dl: &DF, now: u64)
        requires
            old(self).wf(),
        ensures
            final(self).wf(),
            final(self).timestamp == now,
            fast_updated_from(*old(self), *final(self), *dl, now),
    {
        self.timestamp = now;
        match dl {
            DF::SRT(s) => {
                if s.icao.is_some() {
                    if matches!(s.df, Some(4u32)) && s.altitude.is_some() {
                        self.altitude = s.altitude;
                        self.altitude_source = ' ';
                    }
                    if matches!(s.df, Some(5u32)) && s.squawk.is_some() {
                        self.squawk = s.squawk;
                    }
                    if matches!(s.df, Some(11u32)) {
                        if let Some(v) = s.capability {
                            self.capability = v;
                        }
                    }
                }
            },
            _ => {},
        }
    }
}

/// How a decoded short frame carries a record from `pre` to `post` on the
/// fast path: the timestamp moves to `now`, the altitude, squawk and
/// capability a short frame carries are copied from it, and every other
/// field keeps its old value.
pub open spec fn fast_updated_from(pre: Plane, post: Plane, dl: DF, now: u64) -> bool {
    &&& post.wf()
    &&& post.timestamp == now
    &&& post.icao == pre.icao
    &&& post.category == pre.category
    &&& post.ais == pre.ais
    &&& post.altitude_gnss == pre.altitude_gnss
    &&& post.surveillance_status == pre.surveillance_status
    &&& post.threat_encounter == pre.threat_encounter
    &&& post.vrate == pre.vrate
    &&& post.cpr_even_lat == pre.cpr_even_lat
    &&& post.cpr_even_lon == pre.cpr_even_lon
    &&& post.cpr_even_time == pre.cpr_even_time
    &&& post.cpr_odd_lat == pre.cpr_odd_lat
    &&& post.cpr_odd_lon == pre.cpr_odd_lon
    &&& post.cpr_odd_time == pre.cpr_odd_time
    &&& post.lat == pre.lat
    &&& post.lon == pre.lon
    &&& post.grspeed == pre.grspeed
    &&& post.ground_movement == pre.ground_movement
    &&& post.track == pre.track
    &&& post.temperature == pre.temperature
    &&& post.position_timestamp == pre.position_timestamp
    &&& post.last_type_code == pre.last_type_code
    &&& post.last_df == pre.last_df
    &&& post.adsb_version == pre.adsb_version
    &&& match dl {
        DF::SRT(s) => {
            let take_alt = s.icao is Some && s.df == Some(4u32) && s.altitude is Some;
            let take_squawk = s.icao is Some && s.df == Some(5u32) && s.squawk is Some;
            let take_cap = s.icao is Some && s.df == Some(11u32) && s.capability is Some;
            &&& post.altitude == (if take_alt {
                s.altitude
            } else {
                pre.altitude
            })
            &&& post.altitude_source == (if take_alt {
                ' '
            } else {
                pre.altitude_source
            })
            &&& post.squawk == (if take_squawk {
                s.squawk
            } else {
                pre.squawk
            })
            &&& post.capability == (if take_cap {
                s.capability->0
            } else {
                pre.capability
            })
        },
        _ => {
            &&& post.altitude == pre.altitude
            &&& post.altitude_source == pre.altitude_source
            &&& post.squawk == pre.squawk
            &&& post.capability == pre.capability
        },
    }
}


/// How one accepted message carries a record from `pre` to `post`: the
/// timestamp moves to `now` whatever the message carries, every field the
/// message's frame type carries is written from the message, and every
/// other field keeps its old value.
pub open spec fn updated_from(
    pre: Plane,
    post: Plane,
    m: Seq<u32>,
    df: u32,
    relaxed: bool,
    now: u64,
) -> bool {
    let es = (df == 17 || df == 18) && m.len() == 28;
    let comm = (df == 20 || df == 21) && m.len() == 28;
    let tc = if es {
        (((m[8] << 1u32) | (m[9] >> 3u32)) as u32)
    } else {
        0u32
    };
    let st = if es {
        ((m[9] & 7) as u32)
    } else {
        0u32
    };
    let reg = classify_value(m, relaxed);
    &&& post.wf()
    &&& post.timestamp == now
    &&& post.last_df == df
    &&& post.icao == pre.icao
    &&& post.capability == pre.capability
    &&& post.last_type_code == (if es {
        tc as u32
    } else {
        pre.last_type_code
    })
    &&& (df == 4 ==> post.altitude == (if altitude_of(m, df) is Some {
        altitude_of(m, df)
    } else {
        pre.altitude
    }))
    &&& (es && 5 <= tc <= 8 ==> post.altitude is None)
    &&& (es && 9 <= tc <= 18 ==> post.altitude == altitude_of(m, df))
    &&& (!(df == 4 || (es && 5 <= tc <= 18)) ==> post.altitude == pre.altitude)
    &&& ((df == 5 || df == 21) && (m.len() == 14 || m.len() == 28) ==> post.squawk == Some(
        fields::squawk_value(m),
    ))
    &&& (!(df == 5 || df == 21) ==> post.squawk == pre.squawk)
    &&& ((es && 1 <= tc <= 4) || (comm && reg == (2u32, 0u32)) ==> post.ais is Some
        && post.ais->0@ == fields::ais_seq(m, fields::ais_trim_len(m, 8)))
    &&& (!((es && 1 <= tc <= 4) || (comm && reg == (2u32, 0u32))) ==> post.ais == pre.ais)
    &&& (es && 1 <= tc <= 4 ==> post.category == (tc as u32, st as u32))
    &&& (!(es && 1 <= tc <= 4) ==> post.category == pre.category)
    &&& (es && 5 <= tc <= 18 && msg_bit(m, 54) == 0 ==> post.cpr_even_lat == bits_value(
        m,
        55,
        71,
    ) && post.cpr_even_lon == bits_value(m, 72, 88) && post.cpr_even_time == now
        && post.cpr_odd_lat == pre.cpr_odd_lat && post.cpr_odd_lon == pre.cpr_odd_lon
        && post.cpr_odd_time == pre.cpr_odd_time)
    &&& (es && 5 <= tc <= 18 && msg_bit(m, 54) == 1 ==> post.cpr_odd_lat == bits_value(
        m,
        55,
        71,
    ) && post.cpr_odd_lon == bits_value(m, 72, 88) && post.cpr_odd_time == now
        && post.cpr_even_lat == pre.cpr_even_lat && post.cpr_even_lon == pre.cpr_even_lon
        && post.cpr_even_time == pre.cpr_even_time)
    &&& (!(es && 5 <= tc <= 18) ==> post.cpr_even_lat == pre.cpr_even_lat && post.cpr_even_lon
        == pre.cpr_even_lon && post.cpr_even_time == pre.cpr_even_time && post.cpr_odd_lat
        == pre.cpr_odd_lat && post.cpr_odd_lon == pre.cpr_odd_lon && post.cpr_odd_time
        == pre.cpr_odd_time)
    &&& (es && 5 <= tc <= 8 ==> post.ground_movement == fields::ground_movement_value(
        bits_value(m, 38, 44) as u32,
    ))
    &&& (es && (9 <= tc <= 18 || 20 <= tc <= 22) ==> post.surveillance_status
        == fields::surveillance_status_value(m))
    &&& (es && tc == 19 ==> post.vrate == fields::vertical_rate_value(m))
    &&& (!(es && tc == 19) ==> post.vrate == pre.vrate)
    &&& (es && 20 <= tc <= 22 ==> post.altitude_gnss == Some((bits_value(m, 41, 52) as u32)))
    &&& (es && tc == 31 ==> post.adsb_version == Some((bits_value(m, 41, 43) as u32)))
    &&& (!(es && tc == 31) ==> post.adsb_version == pre.adsb_version)
    &&& (comm && reg == (3u32, 0u32) ==> post.threat_encounter == fields::threat_encounter_value(
        m,
    ))
    &&& (!(comm && reg == (3u32, 0u32)) ==> post.threat_encounter == pre.threat_encounter)
    &&& (comm && reg == (4u32, 4u32) ==> post.temperature == Some((bds::bds_4_4_temp(m) as i32)))
    &&& (comm && reg == (4u32, 5u32) ==> post.temperature == Some((bds::bds_4_5_temp(m) as i32)))
    &&& (!(comm && (reg == (4u32, 4u32) || reg == (4u32, 5u32))) ==> post.temperature
        == pre.temperature)
    &&& (!(es && 5 <= tc <= 18) ==> post.lat == pre.lat && post.lon == pre.lon
        && post.position_timestamp == pre.position_timestamp)
    &&& (es && 5 <= tc <= 18 ==> ({
        let et = post.cpr_even_time as int;
        let ot = post.cpr_odd_time as int;
        let age = if et >= ot {
            et - ot
        } else {
            ot - et
        };
        let ready = post.cpr_even_lat != 0 && post.cpr_odd_lat != 0 && post.cpr_even_lon != 0
            && post.cpr_odd_lon != 0 && age < 10;
        let resolved = if tc <= 8 {
            if pre.lat != 0 || pre.lon != 0 {
                crate::cpr::cpr_surface_value(
                    post.cpr_even_lat as int,
                    post.cpr_even_lon as int,
                    post.cpr_odd_lat as int,
                    post.cpr_odd_lon as int,
                    msg_bit(m, 54) == 1,
                    pre.lat as int,
                    pre.lon as int,
                )
            } else {
                None
            }
        } else {
            crate::cpr::cpr_global_value(
                post.cpr_even_lat as int,
                post.cpr_even_lon as int,
                post.cpr_odd_lat as int,
                post.cpr_odd_lon as int,
                msg_bit(m, 54) == 1,
            )
        };
        let good = ready && resolved is Some && -90000000 <= (resolved->0).0 <= 90000000
            && -180000000 <= (resolved->0).1 <= 180000000;
        &&& (good ==> post.lat == (resolved->0).0 && post.lon == (resolved->0).1
            && post.position_timestamp == Some(now))
        &&& (!good ==> post.lat == pre.lat && post.lon == pre.lon && post.position_timestamp
            == pre.position_timestamp)
    }))
    &&& (!(es && (5 <= tc <= 8 || tc == 19)) ==> post.track == pre.track && post.grspeed
        == pre.grspeed)
    &&& (es && tc == 19 && st == 3 ==> post.track == crate::fields::heading_value(m))
    &&& (pre.position_timestamp is Some ==> post.position_timestamp is Some)
    &&& (pre.altitude_gnss is Some ==> post.altitude_gnss is Some)
    &&& (pre.temperature is Some ==> post.temperature is Some)
    &&& (pre.squawk is Some ==> post.squawk is Some)
    &&& (pre.adsb_version is Some ==> post.adsb_version is Some)
}

/// The marker characters the table prints verbatim; anything else shows
/// as a blank.
pub open spec fn marker_of(c: char) -> char {
    if c == '\u{2070}' || c == '"' || c == 'A' || c == 'T' || c == 'S' || c == 't' || c == 'L'
        || c == 'M' || c == 'H' || c == 'J' || c == 'R' {
        c
    } else {
        ' '
    }
}

/// Renders one marker character.
fn marker_str(c: char) -> (r: &'static str)
    ensures
        r@ =~= seq![marker_of(c)],
{
    let s: &'static str = if c == '\u{2070}' {
        "\u{2070}"
    } else if c == '"' {
        "\""
    } else if c == 'A' {
        "A"
    } else if c == 'T' {
        "T"
    } else if c == 'S' {
        "S"
    } else if c == 't' {
        "t"
    } else if c == 'L' {
        "L"
    } else if c == 'M' {
        "M"
    } else if c == 'H' {
        "H"
    } else if c == 'J' {
        "J"
    } else if c == 'R' {
        "R"
    } else {
        " "
    };
    proof {
        reveal_strlit("\u{2070}");
        reveal_strlit("\"");
        reveal_strlit("A");
        reveal_strlit("T");
        reveal_strlit("S");
        reveal_strlit("t");
        reveal_strlit("L");
        reveal_strlit("M");
        reveal_strlit("H");
        reveal_strlit("J");
        reveal_strlit("R");
        reveal_strlit(" ");
    }
    s
}

/// A numeric cell: a space and the right-aligned number, or all blank
/// when absent.
pub open spec fn cell_u32(v: Option<u32>, w: int) -> Seq<char> {
    match v {
        Some(x) => crate::fmt::char_run(' ', 1) + crate::fmt::pad_left(
            crate::fmt::dec_chars(x as int),
            ' ',
            w,
        ),
        None => crate::fmt::char_run(' ', w + 1),
    }
}

/// Renders a numeric cell.
fn cell_u32_str(v: Option<u32>, w: usize) -> (r: String)
    requires
        w <= 40,
    ensures
        r@ == cell_u32(v, w as int),
{
    match v {
        Some(x) => {
            let digits = crate::fmt::format_u64(x as u64);
            let padded = crate::fmt::padded_left(digits.as_str(), w, false);
            let mut s = String::new();
            s.append(" ");
            s.append(padded.as_str());
            proof {
                reveal_strlit(" ");
                assert(s@ =~= cell_u32(v, w as int));
            }
            s
        },
        None => {
            let s = crate::fmt::padded_left("", w + 1, false);
            proof {
                reveal_strlit("");
                assert(s@ =~= cell_u32(v, w as int));
            }
            s
        },
    }
}

/// A fixed-point angle with five decimals, from millionths of a degree.
pub open spec fn fixed5_chars(micro: int) -> Seq<char> {
    let mag = if micro < 0 {
        -micro
    } else {
        micro
    };
    let d5 = crate::bds::round_div(mag, 10);
    (if micro < 0 {
        seq!['-']
    } else {
        Seq::empty()
    }) + crate::fmt::dec_chars(d5 / 100000) + seq!['.'] + crate::fmt::pad_left(
        crate::fmt::dec_chars(d5 % 100000),
        '0',
        5,
    )
}

/// Renders a fixed-point angle with five decimals.
fn fixed5_str(micro: i64) -> (r: String)
    requires
        -360000000 <= micro <= 360000000,
    ensures
        r@ == fixed5_chars(micro as int),
{
    let mag: i64 = if micro < 0 {
        -micro
    } else {
        micro
    };
    let d5 = crate::bds::round_div_i64(mag, 10);
    let mut s = String::new();
    if micro < 0 {
        s.append("-");
    }
    let ip = crate::fmt::format_u64((d5 / 100000) as u64);
    s.append(ip.as_str());
    s.append(".");
    let fp = crate::fmt::format_u64((d5 % 100000) as u64);
    let fpp = crate::fmt::padded_left(fp.as_str(), 5, true);
    s.append(fpp.as_str());
    proof {
        reveal_strlit("-");
        reveal_strlit(".");
        assert(s@ =~= fixed5_chars(micro as int));
    }
    s
}

/// A temperature cell with one decimal, from hundredths of a degree.
pub open spec fn temp_chars(centi: int) -> Seq<char> {
    let mag = if centi < 0 {
        -centi
    } else {
        centi
    };
    (if centi < 0 {
        seq!['-']
    } else {
        Seq::empty()
    }) + crate::fmt::dec_chars(mag / 100) + seq!['.'] + crate::fmt::dec_chars(mag % 100 / 10)
}

/// Renders a temperature with one decimal.
fn temp_str(centi: i32) -> (r: String)
    ensures
        r@ == temp_chars(centi as int),
{
    let mag: i64 = if centi < 0 {
        -(centi as i64)
    } else {
        centi as i64
    };
    let mut s = String::new();
    if centi < 0 {
        s.append("-");
    }
    let ip = crate::fmt::format_u64((mag / 100) as u64);
    s.append(ip.as_str());
    s.append(".");
    let fp = crate::fmt::format_u64((mag % 100 / 10) as u64);
    s.append(fp.as_str());
    proof {
        reveal_strlit("-");
        reveal_strlit(".");
        assert(s@ =~= temp_chars(centi as int));
    }
    s
}

/// The address, altitude and altitude-source columns of a row.
pub open spec fn row_a_chars(p: Plane) -> Seq<char> {
    crate::fmt::pad_left(crate::fmt::hex_chars(p.icao as int), '0', 6) + crate::fmt::char_run(
        ' ',
        3,
    ) + cell_u32(p.altitude, 5) + seq![marker_of(p.altitude_source)]
}

/// The squawk, advisory, wake-category and callsign columns of a row.
pub open spec fn row_b_chars(p: Plane) -> Seq<char> {
    (match p.squawk {
        Some(x) => crate::fmt::pad_left(crate::fmt::dec_chars(x as int), '0', 4),
        None => crate::fmt::char_run(' ', 4),
    }) + seq![
        match p.threat_encounter {
            Some(c) => marker_of(c),
            None => ' ',
        },
    ] + seq![
        match crate::icao::wtc_of(p.category) {
            Some(c) => marker_of(c),
            None => ' ',
        },
    ] + (match p.ais {
        Some(a) => crate::fmt::char_run(' ', 1) + a@ + crate::fmt::char_run(' ', 8 - a@.len()),
        None => crate::fmt::char_run(' ', 9),
    })
}

/// The position, speed, track and vertical-rate columns of a row.
pub open spec fn row_c_chars(p: Plane) -> Seq<char> {
    (if p.lat != 0 && p.lon != 0 {
        crate::fmt::char_run(' ', 1) + crate::fmt::pad_left(fixed5_chars(p.lat as int), ' ', 9)
            + crate::fmt::char_run(' ', 1) + crate::fmt::pad_left(
            fixed5_chars(p.lon as int),
            ' ',
            11,
        )
    } else {
        crate::fmt::char_run(' ', 22)
    }) + cell_u32(p.grspeed, 4) + cell_u32(
        match p.track {
            Some(t) => Some((crate::bds::round_div(t as int, 100) as u32)),
            None => None,
        },
        3,
    ) + (match p.vrate {
        Some(v) => crate::fmt::char_run(' ', 1) + crate::fmt::pad_left(
            crate::fmt::dec_chars_signed(v as int),
            ' ',
            5,
        ),
        None => crate::fmt::char_run(' ', 6),
    })
}

/// The narrow columns of a table row, from the address through the
/// vertical rate.
pub open spec fn row_base_chars(p: Plane) -> Seq<char> {
    row_a_chars(p) + row_b_chars(p) + row_c_chars(p)
}

/// The GNSS altitude, temperature and category wide columns.
pub open spec fn row_w1_chars(p: Plane) -> Seq<char> {
    cell_u32(p.altitude_gnss, 5) + (match p.temperature {
        Some(t) => crate::fmt::char_run(' ', 1) + crate::fmt::pad_left(
            temp_chars(t as int),
            ' ',
            5,
        ),
        None => crate::fmt::char_run(' ', 6),
    }) + crate::fmt::char_run(' ', 1) + crate::fmt::dec_chars(p.category.0 as int)
        + crate::fmt::dec_chars(p.category.1 as int)
}

/// The format, type-code, version, status and position-age wide columns.
pub open spec fn row_w2_chars(p: Plane, now: int) -> Seq<char> {
    (if p.last_df != 0 {
        crate::fmt::char_run(' ', 1) + crate::fmt::pad_left(
            crate::fmt::dec_chars(p.last_df as int),
            ' ',
            2,
        )
    } else {
        crate::fmt::char_run(' ', 3)
    }) + (if p.last_type_code != 0 {
        crate::fmt::char_run(' ', 1) + crate::fmt::pad_left(
            crate::fmt::dec_chars(p.last_type_code as int),
            ' ',
            2,
        )
    } else {
        crate::fmt::char_run(' ', 3)
    }) + (match p.adsb_version {
        Some(v) => crate::fmt::char_run(' ', 1) + crate::fmt::dec_chars(v as int),
        None => crate::fmt::char_run(' ', 2),
    }) + crate::fmt::char_run(' ', 1) + seq![marker_of(p.surveillance_status)] + (
    match p.position_timestamp {
        Some(ts) => crate::fmt::char_run(' ', 1) + crate::fmt::pad_left(
            crate::fmt::dec_chars(
                if now >= ts {
                    now - ts
                } else {
                    0
                },
            ),
            ' ',
            3,
        ),
        None => crate::fmt::char_run(' ', 4),
    })
}

/// The wide columns of a table row.
pub open spec fn row_wide_chars(p: Plane, now: int) -> Seq<char> {
    row_w1_chars(p) + row_w2_chars(p, now)
}

/// The whole table row of one aircraft: every column in the fixed order,
/// the wide columns only when `wide` is set.
pub open spec fn row_chars(p: Plane, wide: bool, now: int) -> Seq<char> {
    let lc = if now >= p.timestamp {
        now - p.timestamp
    } else {
        0
    };
    row_base_chars(p) + (if wide {
        row_wide_chars(p, now)
    } else {
        Seq::empty()
    }) + crate::fmt::char_run(' ', 1) + crate::fmt::pad_left(crate::fmt::dec_chars(lc), ' ', 2)
}

impl Plane {
    /// Renders the address, altitude and source columns.
    fn row_a(&self) -> (r: String)
        ensures
            r@ == row_a_chars(*self),
    {
        let mut s = String::new();
        let hexs = crate::fmt::format_hex_u64(self.icao as u64);
        let hexp = crate::fmt::padded_left(hexs.as_str(), 6, true);
        s.append(hexp.as_str());
        s.append("   ");
        let altc = cell_u32_str(self.altitude, 5);
        s.append(altc.as_str());
        s.append(marker_str(self.altitude_source));
        proof {
            reveal_strlit("   ");
            assert(s@ =~= row_a_chars(*self));
        }
        s
    }

    /// Renders the squawk, advisory, wake-category and callsign columns.
    fn row_b(&self) -> (r: String)
        ensures
            r@ == row_b_chars(*self),
    {
        let mut s = String::new();
        match self.squawk {
            Some(x) => {
                let d = crate::fmt::format_u64(x as u64);
                let dp = crate::fmt::padded_left(d.as_str(), 4, true);
                s.append(dp.as_str());
            },
            None => {
                s.append("    ");
            },
        }
        match self.threat_encounter {
            Some(c) => {
                s.append(marker_str(c));
            },
            None => {
                s.append(" ");
            },
        }
        match crate::icao::icao_wtc(&self.category) {
            Some(c) => {
                s.append(marker_str(c));
            },
            None => {
                s.append(" ");
            },
        }
        match &self.ais {
            Some(a) => {
                s.append(" ");
                let ap = crate::fmt::padded_right(a.as_str(), 8);
                s.append(ap.as_str());
            },
            None => {
                s.append("         ");
            },
        }
        proof {
            reveal_strlit("    ");
            reveal_strlit(" ");
            reveal_strlit("         ");
            assert(s@ =~= row_b_chars(*self));
        }
        s
    }

    /// Renders the position, speed, track and vertical-rate columns.
    fn row_c(&self) -> (r: String)
        requires
            self.wf(),
        ensures
            r@ == row_c_chars(*self),
    {
        let mut s = String::new();
        if self.lat != 0 && self.lon != 0 {
            s.append(" ");
            let la = fixed5_str(self.lat);
            let lap = crate::fmt::padded_left(la.as_str(), 9, false);
            s.append(lap.as_str());
            s.append(" ");
            let lo = fixed5_str(self.lon);
            let lop = crate::fmt::padded_left(lo.as_str(), 11, false);
            s.append(lop.as_str());
        } else {
            s.append("                      ");
        }
        let gsc = cell_u32_str(self.grspeed, 4);
        s.append(gsc.as_str());
        let trk: Option<u32> = match self.track {
            Some(t) => Some(crate::bds::round_div_i64(t as i64, 100) as u32),
            None => None,
        };
        let trc = cell_u32_str(trk, 3);
        s.append(trc.as_str());
        match self.vrate {
            Some(v) => {
                s.append(" ");
                let d = crate::fmt::format_i64(v as i64);
                let dp = crate::fmt::padded_left(d.as_str(), 5, false);
                s.append(dp.as_str());
            },
            None => {
                s.append("      ");
            },
        }
        proof {
            reveal_strlit(" ");
            reveal_strlit("                      ");
            reveal_strlit("      ");
            assert(s@ =~= row_c_chars(*self));
        }
        s
    }

    /// Renders the narrow columns of this record's row.
    fn row_base(&self) -> (r: String)
        requires
            self.wf(),
        ensures
            r@ == row_base_chars(*self),
    {
        let mut s = self.row_a();
        let b = self.row_b();
        s.append(b.as_str());
        let c = self.row_c();
        s.append(c.as_str());
        proof {
            assert(s@ =~= row_base_chars(*self));
        }
        s
    }

    /// Renders the GNSS altitude, temperature and category columns.
    fn row_w1(&self) -> (r: String)
        ensures
            r@ == row_w1_chars(*self),
    {
        let mut s = String::new();
        let gn = cell_u32_str(self.altitude_gnss, 5);
        s.append(gn.as_str());
        match self.temperature {
            Some(t) => {
                s.append(" ");
                let ts = temp_str(t);
                let tp = crate::fmt::padded_left(ts.as_str(), 5, false);
                s.append(tp.as_str());
            },
            None => {
                s.append("      ");
            },
        }
        s.append(" ");
        let c0 = crate::fmt::format_u64(self.category.0 as u64);
        s.append(c0.as_str());
        let c1 = crate::fmt::format_u64(self.category.1 as u64);
        s.append(c1.as_str());
        proof {
            reveal_strlit(" ");
            reveal_strlit("      ");
            assert(s@ =~= row_w1_chars(*self));
        }
        s
    }

    /// Renders the format, type-code, version, status and age columns.
    #[verifier::rlimit(100)]
    fn row_w2(&self, now: u64) -> (r: String)
        ensures
            r@ == row_w2_chars(*self, now as int),
    {
        let mut s = String::new();
        if self.last_df != 0 {
            s.append(" ");
            let d = crate::fmt::format_u64(self.last_df as u64);
            let dp = crate::fmt::padded_left(d.as_str(), 2, false);
            s.append(dp.as_str());
        } else {
            s.append("   ");
        }
        if self.last_type_code != 0 {
            s.append(" ");
            let d = crate::fmt::format_u64(self.last_type_code as u64);
            let dp = crate::fmt::padded_left(d.as_str(), 2, false);
            s.append(dp.as_str());
        } else {
            s.append("   ");
        }
        match self.adsb_version {
            Some(v) => {
                s.append(" ");
                let d = crate::fmt::format_u64(v as u64);
                s.append(d.as_str());
            },
            None => {
                s.append("  ");
            },
        }
        s.append(" ");
        s.append(marker_str(self.surveillance_status));
        match self.position_timestamp {
            Some(ts) => {
                s.append(" ");
                let age = if now >= ts {
                    now - ts
                } else {
                    0
                };
                let d = crate::fmt::format_u64(age);
                let dp = crate::fmt::padded_left(d.as_str(), 3, false);
                s.append(dp.as_str());
            },
            None => {
                s.append("    ");
            },
        }
        proof {
            reveal_strlit(" ");
            reveal_strlit("   ");
            reveal_strlit("  ");
            reveal_strlit("    ");
            assert(s@ =~= row_w2_chars(*self, now as int));
        }
        s
    }

    /// Renders the wide columns of this record's row.
    fn row_wide(&self, now: u64) -> (r: String)
        ensures
            r@ == row_wide_chars(*self, now as int),
    {
        let mut s = self.row_w1();
        let b = self.row_w2(now);
        s.append(b.as_str());
        proof {
            assert(s@ =~= row_wide_chars(*self, now as int));
        }
        s
    }

    /// Renders this record as one table row.
    pub fn row(&self, wide: bool, now: u64) -> (r: String)
        requires
            self.wf(),
        ensures
            r@ == row_chars(*self, wide, now as int),
    {
        let mut s = self.row_base();
        if wide {
            let w = self.row_wide(now);
            s.append(w.as_str());
        }
        s.append(" ");
        let lc = if now >= self.timestamp {
            now - self.timestamp
        } else {
            0
        };
        let d = crate::fmt::format_u64(lc);
        let dp = crate::fmt::padded_left(d.as_str(), 2, false);
        s.append(dp.as_str());
        proof {
            reveal_strlit(" ");
            assert(s@ =~= row_chars(*self, wide, now as int));
        }
        s
    }
}

/// What the table can render one row at a time.
pub trait SimpleDisplay: Sized {
    /// Renders one row, with the wide columns when asked.
    fn simple_display(&self, wide: bool, now: u64) -> String;
}

impl SimpleDisplay for Plane {
    fn simple_display(&self, wide: bool, now: u64) -> String {
        if self.cpr_even_lat < 0x20000 && self.cpr_even_lon < 0x20000 && self.cpr_odd_lat
            < 0x20000 && self.cpr_odd_lon < 0x20000 && -90000000 <= self.lat && self.lat
            <= 90000000 && -180000000 <= self.lon && self.lon <= 180000000 {
            self.row(wide, now)
        } else {
            String::new()
        }
    }
}

/// A borrowed item paired with the wide-column choice, ready to render.
pub struct SimpleDisplayWrapper<'a, T: SimpleDisplay>(pub &'a T, pub bool);

impl<'a, T: SimpleDisplay> SimpleDisplayWrapper<'a, T> {
    /// Renders the wrapped item.
    pub fn render(&self, now: u64) -> String {
        self.0.simple_display(self.1, now)
    }
}

/// Renders one row of anything the table can show.
pub fn format_simple_display<T: SimpleDisplay>(item: &T, wide: bool, now: u64) -> String {
    SimpleDisplayWrapper(item, wide).render(now)
}

} // verus!
