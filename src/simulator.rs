use vstd::prelude::*;
use vstd::string::StringExecFns;
use crate::aircraft::{
    advance_aircraft, advanced, displace, displaced, in_flight_bounds, valid_draws, AdsbEvent, Aircraft, Draws,
    UnitVec, MAX_ALTITUDE, MAX_NIC, MIN_ALTITUDE, UNIT,
};
use crate::encode::{frame_text, position_frame, velocity_frame, FRAME_HEX_LEN};
use crate::hex::{decimal, format_decimal, format_upper_hex, is_upper_hex, lemma_upper_hex_injective, upper_hex};

verus! {

/// Owns the population of simulated aircraft and the centre it is spread around.
pub struct AdsbSimulator {
    aircrafts: Vec<Aircraft>,
    center_lat: i64,
    center_lng: i64,
}

/// Number of airline codes that callsigns cycle through.
pub const AIRLINE_COUNT: usize = 10;

/// The airline code of callsign slot `k`.
pub open spec fn airline_code(k: nat) -> Seq<char> {
    if k == 0 {
        "CZ"@
    } else if k == 1 {
        "CA"@
    } else if k == 2 {
        "MU"@
    } else if k == 3 {
        "BZ"@
    } else if k == 4 {
        "FM"@
    } else if k == 5 {
        "ZH"@
    } else if k == 6 {
        "HU"@
    } else if k == 7 {
        "SC"@
    } else if k == 8 {
        "3U"@
    } else {
        "GS"@
    }
}

/// The address of aircraft `i`. From index 2041 on it no longer fits in 24
/// bits: the id then has more than six digits, and a message keeps only the
/// low 24 bits of it. This is an accepted limitation of large populations.
pub open spec fn mock_address(i: nat) -> nat {
    0x780000 + i * 0x1111
}

/// The callsign of aircraft `i`: an airline code and a four-digit number.
pub open spec fn mock_callsign(i: nat) -> Seq<char> {
    airline_code(i % 10) + decimal(1000 + (i * 111) % 9000)
}

/// Distance of aircraft `i` from the centre, in ten-millionths of a degree:
/// from 0.15° to 0.6°, picked by a hash of the index.
pub open spec fn spread_distance(i: nat) -> nat {
    1_500_000 + 450 * ((i * 7919 + 104729) % 10000)
}

/// `a` is aircraft `i` of a population spread around the centre, placed along `dir`.
pub open spec fn is_mock_aircraft(a: Aircraft, i: nat, center_lat: i64, center_lng: i64, dir: UnitVec) -> bool {
    &&& a.id@ == upper_hex(mock_address(i), 6)
    &&& a.callsign@ == mock_callsign(i)
    &&& a.lat == displaced(center_lat, spread_distance(i) as int, dir.north, UNIT as int)
    &&& a.lng == displaced(center_lng, spread_distance(i) as int, dir.east, UNIT as int)
    &&& a.altitude == 5000 + (i * 2749) % 7001
    &&& a.speed == 400 + (i * 3571) % 250
    &&& a.heading == (i * 6997 + 99991) % 360
    &&& a.nic == 5 + i % 7
}

/// `e` is the position (`position`) or the velocity message of `a`.
pub open spec fn is_event_for(e: AdsbEvent, a: Aircraft, position: bool) -> bool {
    &&& e.aircraft_id@ == a.id@
    &&& if position {
        e.hex_message@ == frame_text(position_frame(a)) && e.message_type@ == "position"@
    } else {
        e.hex_message@ == frame_text(velocity_frame(a)) && e.message_type@ == "velocity"@
    }
}

fn airline(k: usize) -> (r: &'static str)
    requires
        k < AIRLINE_COUNT,
    ensures
        r@ == airline_code(k as nat),
{
    match k {
        0 => "CZ",
        1 => "CA",
        2 => "MU",
        3 => "BZ",
        4 => "FM",
        5 => "ZH",
        6 => "HU",
        7 => "SC",
        8 => "3U",
        _ => "GS",
    }
}

/// Builds aircraft `i` of a population around the centre, placed along `dir`.
fn mock_aircraft(i: usize, center_lat: i64, center_lng: i64, dir: UnitVec) -> (a: Aircraft)
    ensures
        is_mock_aircraft(a, i as nat, center_lat, center_lng, dir),
{
    let k: u128 = i as u128;
    let seed: u128 = (k * 7919 + 104729) % 10000;
    let distance: u32 = (1_500_000 + 450 * seed) as u32;
    let lat = displace(center_lat, distance, dir.north, UNIT as i128);
    let lng = displace(center_lng, distance, dir.east, UNIT as i128);
    let flight_num: u64 = (1000 + (k * 111) % 9000) as u64;
    let mut callsign = String::from_str(airline(i % AIRLINE_COUNT));
    let number = format_decimal(flight_num);
    callsign.append(number.as_str());
    let icao = format_upper_hex(0x780000 + k * 0x1111, 6);
    Aircraft {
        id: icao,
        callsign,
        lat,
        lng,
        altitude: (5000 + (k * 2749) % 7001) as u32,
        speed: (400 + (k * 3571) % 250) as u32,
        heading: ((k * 6997 + 99991) % 360) as u32,
        nic: (5 + k % 7) as u8,
    }
}

/// `after` is `before` after one tick, for some values that the tick may draw,
/// moving along the entry of `course` for its heading.
pub open spec fn ticked(before: Aircraft, after: Aircraft, course: Seq<UnitVec>) -> bool {
    exists|d: Draws| valid_draws(d) && #[trigger] advanced(before, after, course[(before.heading % 360) as int], d)
}

/// After one tick, altitude and heading are within their bounds, and a signal
/// quality that was within [0, 11] stays there.
pub proof fn lemma_tick_bounds(before: Aircraft, after: Aircraft, course: Seq<UnitVec>)
    requires
        ticked(before, after, course),
    ensures
        MIN_ALTITUDE <= after.altitude <= MAX_ALTITUDE,
        after.heading < 360,
        before.nic <= MAX_NIC ==> after.nic <= MAX_NIC,
{
    let d = choose|d: Draws| valid_draws(d) && #[trigger] advanced(before, after, course[(before.heading % 360) as int], d);
}

/// An aircraft whose signal quality starts within [0, 11] has, after any
/// positive number of ticks, its altitude in [3000, 12000], its heading in
/// [0, 360) and its signal quality in [0, 11]: `states[k + 1]` is `states[k]`
/// after one tick.
pub proof fn lemma_ticks_stay_in_bounds(states: Seq<Aircraft>, course: Seq<UnitVec>)
    requires
        states.len() >= 1,
        states[0].nic <= MAX_NIC,
        forall|k: int| 0 <= k < states.len() - 1 ==> ticked(#[trigger] states[k], states[k + 1], course),
    ensures
        forall|k: int| 1 <= k < states.len() ==> in_flight_bounds(#[trigger] states[k]),
    decreases states.len(),
{
    if states.len() > 1 {
        let prefix = states.drop_last();
        assert forall|k: int| 0 <= k < prefix.len() - 1 implies ticked(#[trigger] prefix[k], prefix[k + 1], course) by {
            assert(ticked(states[k], states[k + 1], course));
        }
        lemma_ticks_stay_in_bounds(prefix, course);
        let last = states.len() - 1;
        assert(ticked(states[last - 1], states[last], course));
        lemma_tick_bounds(states[last - 1], states[last], course);
        if last - 1 >= 1 {
            assert(in_flight_bounds(prefix[last - 1]));
        }
        assert forall|k: int| 1 <= k < states.len() implies in_flight_bounds(#[trigger] states[k]) by {
            if k < last {
                assert(in_flight_bounds(prefix[k]));
            }
        }
    }
}

/// Relies on `SystemTime::elapsed` of `UNIX_EPOCH`: the time since the Unix
/// epoch, absent when the clock reads before it.
#[verifier::external_body]
fn time_since_epoch() -> (r: Option<std::time::Duration>) {
    std::time::UNIX_EPOCH.elapsed().ok()
}

/// Relies on `Duration::subsec_nanos`: the fractional part of a duration in
/// nanoseconds, always below one billion.
pub assume_specification[ core::time::Duration::subsec_nanos ](d: &core::time::Duration) -> (r: u32)
    ensures
        r < 1_000_000_000,
;

/// The sub-second part of the wall clock in nanoseconds; zero when the clock
/// reads before the Unix epoch.
fn clock_subsec_nanos() -> (r: u32)
    ensures
        r < 1_000_000_000,
{
    match time_since_epoch() {
        Some(d) => d.subsec_nanos(),
        None => 0,
    }
}

/// The thousandths that nanoseconds `n` give.
pub open spec fn thousandths(n: int) -> int {
    n % 1000
}

/// The number in [min, max] that nanoseconds `n` pick.
pub open spec fn picked(n: int, min: int, max: int) -> int {
    min + n % (max - min + 1)
}

/// A roll in thousandths, taken from the clock's nanoseconds.
fn rand_simple() -> (r: u32)
    ensures
        r < 1000,
        exists|n: int| 0 <= n < 1_000_000_000 && r == #[trigger] thousandths(n),
{
    roll_from_nanos(clock_subsec_nanos())
}

/// The roll in thousandths that a clock reading of `nanos` gives.
pub fn roll_from_nanos(nanos: u32) -> (r: u32)
    ensures
        r == thousandths(nanos as int),
{
    nanos % 1000
}

/// A number in [min, max], taken from the clock's nanoseconds.
pub fn rand_range(min: i32, max: i32) -> (r: i32)
    requires
        min <= max,
    ensures
        min <= r <= max,
        exists|n: int| 0 <= n < 1_000_000_000 && r == #[trigger] picked(n, min as int, max as int),
{
    let nanos = clock_subsec_nanos();
    pick_from_nanos(nanos, min, max)
}

/// The number in [min, max] that a clock reading of `nanos` picks.
pub fn pick_from_nanos(nanos: u32, min: i32, max: i32) -> (r: i32)
    requires
        min <= max,
    ensures
        r == picked(nanos as int, min as int, max as int),
        min <= r <= max,
{
    let span: i64 = max as i64 - min as i64 + 1;
    let r: i64 = min as i64 + (nanos as i64) % span;
    r as i32
}

impl AdsbSimulator {
    /// The current population, in order.
    pub closed spec fn fleet(&self) -> Seq<Aircraft> {
        self.aircrafts@
    }

    /// The centre latitude, in ten-millionths of a degree.
    pub closed spec fn center_lat_spec(&self) -> i64 {
        self.center_lat
    }

    /// The centre longitude, in ten-millionths of a degree.
    pub closed spec fn center_lng_spec(&self) -> i64 {
        self.center_lng
    }

    /// An empty simulator around the given centre (ten-millionths of a degree).
    pub fn new(center_lat: i64, center_lng: i64) -> (r: Self)
        ensures
            r.fleet().len() == 0,
            r.center_lat_spec() == center_lat,
            r.center_lng_spec() == center_lng,
    {
        AdsbSimulator { aircrafts: Vec::new(), center_lat, center_lng }
    }

    /// Replaces the population by `count` aircraft; aircraft `i` is placed
    /// along `spread[i]` at its hashed distance from the centre.
    pub fn generate_mock_aircrafts(&mut self, count: usize, spread: &Vec<UnitVec>)
        requires
            spread@.len() == count,
        ensures
            final(self).fleet().len() == count,
            final(self).center_lat_spec() == old(self).center_lat_spec(),
            final(self).center_lng_spec() == old(self).center_lng_spec(),
            forall|i: int|
                0 <= i < count ==> is_mock_aircraft(
                    #[trigger] final(self).fleet()[i],
                    i as nat,
                    old(self).center_lat_spec(),
                    old(self).center_lng_spec(),
                    spread@[i],
                ),
            forall|i: int, j: int|
                0 <= i < count && 0 <= j < count && i != j ==> #[trigger] final(self).fleet()[i].id@
                    != #[trigger] final(self).fleet()[j].id@,
            forall|i: int|
                0 <= i < count ==> 5 <= #[trigger] final(self).fleet()[i].nic <= MAX_NIC,
            forall|i: int|
                0 <= i < count ==> MIN_ALTITUDE <= #[trigger] final(self).fleet()[i].altitude
                    <= MAX_ALTITUDE,
    {
        let mut fleet: Vec<Aircraft> = Vec::new();
        let mut i: usize = 0;
        while i < count
            invariant
                i <= count,
                spread@.len() == count,
                fleet@.len() == i,
                forall|j: int|
                    0 <= j < i ==> is_mock_aircraft(
                        #[trigger] fleet@[j],
                        j as nat,
                        self.center_lat,
                        self.center_lng,
                        spread@[j],
                    ),
            decreases count - i,
        {
            let a = mock_aircraft(i, self.center_lat, self.center_lng, spread[i]);
            fleet.push(a);
            i = i + 1;
        }
        self.aircrafts = fleet;
        assert forall|i: int, j: int|
            0 <= i < count && 0 <= j < count && i != j implies #[trigger] self.fleet()[i].id@
            != #[trigger] self.fleet()[j].id@ by {
            if self.fleet()[i].id@ == self.fleet()[j].id@ {
                lemma_upper_hex_injective(mock_address(i as nat), mock_address(j as nat), 6);
            }
        }
    }

    /// Advances every aircraft by one tick, in place, with values drawn from
    /// the clock; `course[h]` is the direction of travel for heading `h`.
    pub fn update_positions(&mut self, course: &Vec<UnitVec>)
        requires
            course@.len() == 360,
        ensures
            final(self).fleet().len() == old(self).fleet().len(),
            final(self).center_lat_spec() == old(self).center_lat_spec(),
            final(self).center_lng_spec() == old(self).center_lng_spec(),
            forall|i: int|
                0 <= i < old(self).fleet().len() ==> ticked(
                    old(self).fleet()[i],
                    #[trigger] final(self).fleet()[i],
                    course@,
                ),
            forall|i: int|
                0 <= i < old(self).fleet().len() ==> {
                    let a = #[trigger] final(self).fleet()[i];
                    &&& MIN_ALTITUDE <= a.altitude <= MAX_ALTITUDE
                    &&& a.heading < 360
                    &&& old(self).fleet()[i].nic <= MAX_NIC ==> a.nic <= MAX_NIC
                },
    {
        let ghost before = self.aircrafts@;
        let n = self.aircrafts.len();
        let mut i: usize = 0;
        while i < n
            invariant
                i <= n,
                n == before.len(),
                course@.len() == 360,
                self.aircrafts@.len() == n,
                self.center_lat == old(self).center_lat,
                self.center_lng == old(self).center_lng,
                before == old(self).aircrafts@,
                forall|j: int| i <= j < n ==> #[trigger] self.aircrafts@[j] == before[j],
                forall|j: int|
                    0 <= j < i ==> ticked(before[j], #[trigger] self.aircrafts@[j], course@),
                forall|j: int|
                    0 <= j < i ==> {
                        let a = #[trigger] self.aircrafts@[j];
                        &&& MIN_ALTITUDE <= a.altitude <= MAX_ALTITUDE
                        &&& a.heading < 360
                        &&& before[j].nic <= MAX_NIC ==> a.nic <= MAX_NIC
                    },
            decreases n - i,
        {
            let h: usize = (self.aircrafts[i].heading % 360) as usize;
            let roll = rand_simple();
            let step = if roll > 900 {
                rand_range(-1, 1)
            } else {
                0
            };
            let climb = rand_range(-20, 20);
            let turn = rand_range(-1, 1);
            let d = Draws { quality_roll: roll, quality_step: step, climb, turn };
            let dir = course[h];
            advance_aircraft(&mut self.aircrafts[i], dir, d);
            assert(advanced(before[i as int], self.aircrafts@[i as int], course@[(before[i as int].heading % 360) as int], d));
            i = i + 1;
        }
    }

    /// For each aircraft in order, its position message and then its velocity message.
    pub fn generate_all_messages(&self) -> (r: Vec<AdsbEvent>)
        ensures
            r@.len() == 2 * self.fleet().len(),
            forall|k: int|
                0 <= k < r@.len() ==> is_event_for(
                    #[trigger] r@[k],
                    self.fleet()[k / 2],
                    k % 2 == 0,
                ),
            forall|k: int|
                0 <= k < r@.len() ==> (#[trigger] r@[k]).hex_message@.len() == FRAME_HEX_LEN
                    && is_upper_hex(r@[k].hex_message@),
    {
        let mut events: Vec<AdsbEvent> = Vec::new();
        let n = self.aircrafts.len();
        let mut i: usize = 0;
        while i < n
            invariant
                i <= n,
                n == self.aircrafts@.len(),
                events@.len() == 2 * i,
                forall|k: int|
                    0 <= k < events@.len() ==> is_event_for(
                        #[trigger] events@[k],
                        self.aircrafts@[k / 2],
                        k % 2 == 0,
                    ),
                forall|k: int|
                    0 <= k < events@.len() ==> (#[trigger] events@[k]).hex_message@.len()
                        == FRAME_HEX_LEN && is_upper_hex(events@[k].hex_message@),
            decreases n - i,
        {
            let aircraft = &self.aircrafts[i];
            events.push(
                AdsbEvent {
                    hex_message: Self::generate_position_message(aircraft),
                    aircraft_id: aircraft.id.clone(),
                    message_type: String::from_str("position"),
                },
            );
            events.push(
                AdsbEvent {
                    hex_message: Self::generate_velocity_message(aircraft),
                    aircraft_id: aircraft.id.clone(),
                    message_type: String::from_str("velocity"),
                },
            );
            assert forall|k: int|
                0 <= k < events@.len() implies is_event_for(
                #[trigger] events@[k],
                self.aircrafts@[k / 2],
                k % 2 == 0,
            ) by {
                if k >= 2 * i {
                    assert(k / 2 == i);
                }
            }
            i = i + 1;
        }
        events
    }

    /// The current population.
    pub fn get_aircrafts(&self) -> (r: &Vec<Aircraft>)
        ensures
            r@ == self.fleet(),
    {
        &self.aircrafts
    }
}

} // verus!
