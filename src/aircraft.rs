use vstd::prelude::*;

verus! {

/// Positions are held in units of one ten-millionth of a degree.
pub const UNITS_PER_DEGREE: i64 = 10_000_000;

pub const MIN_ALTITUDE: u32 = 3000;

pub const MAX_ALTITUDE: u32 = 12000;

/// Highest value of the signal-quality indicator.
pub const MAX_NIC: u8 = 11;

/// One simulated flight.
///
/// `lat` and `lng` are in ten-millionths of a degree, `altitude` in feet,
/// `speed` in knots and `heading` in whole degrees clockwise from north.
#[derive(Clone, Debug)]
pub struct Aircraft {
    pub id: String,
    pub callsign: String,
    pub lat: i64,
    pub lng: i64,
    pub altitude: u32,
    pub speed: u32,
    pub heading: u32,
    pub nic: u8,
}

/// One message produced for an aircraft: the frame as hexadecimal text, the
/// address of the aircraft, and the kind ("position" or "velocity").
#[derive(Clone, Debug)]
pub struct AdsbEvent {
    pub hex_message: String,
    pub aircraft_id: String,
    pub message_type: String,
}

/// A direction as a pair of components scaled by `UNIT`: how far north and how
/// far east one unit of travel goes.
#[derive(Clone, Copy, Debug)]
pub struct UnitVec {
    pub north: i64,
    pub east: i64,
}

/// The scale of the components of a `UnitVec`.
pub const UNIT: i64 = 1_000_000_000;

/// The random values that one tick draws for one aircraft: a roll in
/// thousandths that decides whether the signal quality moves, the step it moves
/// by, the change of altitude in feet and the change of heading in degrees.
#[derive(Clone, Copy, Debug)]
pub struct Draws {
    pub quality_roll: u32,
    pub quality_step: i32,
    pub climb: i32,
    pub turn: i32,
}

pub open spec fn valid_draws(d: Draws) -> bool {
    d.quality_roll < 1000 && -1 <= d.quality_step <= 1 && -20 <= d.climb <= 20 && -1 <= d.turn <= 1
}

/// Division that truncates toward zero.
pub open spec fn trunc_div(a: int, b: int) -> int {
    if a >= 0 {
        a / b
    } else {
        -((-a) / b)
    }
}

/// `x`, held to the range of `i64`.
pub open spec fn saturate(x: int) -> i64 {
    if x > i64::MAX {
        i64::MAX
    } else if x < i64::MIN {
        i64::MIN
    } else {
        x as i64
    }
}

pub open spec fn clamp(x: int, lo: int, hi: int) -> int {
    if x < lo {
        lo
    } else if x > hi {
        hi
    } else {
        x
    }
}

/// A coordinate moved by `scale` times the direction component `unit`,
/// divided by `divisor` and truncated, held to the range of `i64`.
pub open spec fn displaced(base: i64, scale: int, unit: i64, divisor: int) -> i64 {
    saturate(base + trunc_div(scale * unit, divisor))
}

/// Ten-millionths of a degree per tick for one knot along a unit direction:
/// 1° ≈ 111 km, and one knot is taken as 1/3600 of a kilometre per tick.
pub const TICK_DIVISOR: i128 = 39_960_000;

/// The signal quality after a tick: moved by the step and clamped to [0, 11]
/// when the roll exceeds 900 thousandths, unchanged otherwise.
pub open spec fn next_nic(nic: u8, d: Draws) -> u8 {
    if d.quality_roll > 900 {
        clamp(nic + d.quality_step, 0, 11) as u8
    } else {
        nic
    }
}

pub open spec fn next_altitude(altitude: u32, d: Draws) -> u32 {
    clamp(altitude + d.climb, 3000, 12000) as u32
}

pub open spec fn next_heading(heading: u32, d: Draws) -> u32 {
    ((heading + d.turn + 360) % 360) as u32
}

/// `after` is `before` advanced by one tick along `course` with the draws `d`.
pub open spec fn advanced(before: Aircraft, after: Aircraft, course: UnitVec, d: Draws) -> bool {
    &&& after.id == before.id
    &&& after.callsign == before.callsign
    &&& after.speed == before.speed
    &&& after.lat == displaced(before.lat, before.speed as int, course.north, TICK_DIVISOR as int)
    &&& after.lng == displaced(before.lng, before.speed as int, course.east, TICK_DIVISOR as int)
    &&& after.nic == next_nic(before.nic, d)
    &&& after.altitude == next_altitude(before.altitude, d)
    &&& after.heading == next_heading(before.heading, d)
}

/// Moves a coordinate by `scale` times `unit` over `divisor`, truncated toward
/// zero, saturating at the ends of `i64`. The motion is planar: a latitude may
/// pass a pole and a longitude the antimeridian without being wrapped back.
pub fn displace(base: i64, scale: u32, unit: i64, divisor: i128) -> (r: i64)
    requires
        divisor > 0,
    ensures
        r == displaced(base, scale as int, unit, divisor as int),
{
    let s: i128 = scale as i128;
    let u: i128 = unit as i128;
    assert(-0x1_0000_0000_0000_0000_0000_0000 <= s * u <= 0x1_0000_0000_0000_0000_0000_0000)
        by (nonlinear_arith)
        requires
            0 <= s <= 0xffff_ffff,
            -0x8000_0000_0000_0000 <= u <= 0x7fff_ffff_ffff_ffff,
    ;
    let p: i128 = s * u;
    let q: i128 = if p >= 0 {
        let m: i128 = p / divisor;
        assert(0 <= m <= p) by (nonlinear_arith)
            requires
                p >= 0,
                divisor > 0,
                m == p / divisor,
        ;
        m
    } else {
        let n: i128 = -p;
        let m: i128 = n / divisor;
        assert(0 <= m <= n) by (nonlinear_arith)
            requires
                n > 0,
                divisor > 0,
                m == n / divisor,
        ;
        -m
    };
    let t: i128 = base as i128 + q;
    if t > i64::MAX as i128 {
        i64::MAX
    } else if t < i64::MIN as i128 {
        i64::MIN
    } else {
        t as i64
    }
}

/// Advances one aircraft by one tick: moves it along `course` by its speed,
/// lets the signal quality move by one step when the roll exceeds 900
/// thousandths (clamped to [0, 11]), changes the altitude by `climb` (clamped
/// to [3000, 12000]) and turns the heading by `turn` (wrapped into [0, 360)).
pub fn advance_aircraft(aircraft: &mut Aircraft, course: UnitVec, d: Draws)
    requires
        valid_draws(d),
    ensures
        advanced(*old(aircraft), *final(aircraft), course, d),
        MIN_ALTITUDE <= final(aircraft).altitude <= MAX_ALTITUDE,
        final(aircraft).heading < 360,
        old(aircraft).nic <= MAX_NIC ==> final(aircraft).nic <= MAX_NIC,
{
    aircraft.lat = displace(aircraft.lat, aircraft.speed, course.north, TICK_DIVISOR);
    aircraft.lng = displace(aircraft.lng, aircraft.speed, course.east, TICK_DIVISOR);
    if d.quality_roll > 900 {
        let n: i64 = aircraft.nic as i64 + d.quality_step as i64;
        let c: i64 = if n < 0 {
            0
        } else if n > 11 {
            11
        } else {
            n
        };
        aircraft.nic = c as u8;
    }
    let alt: i64 = aircraft.altitude as i64 + d.climb as i64;
    let alt_c: i64 = if alt < 3000 {
        3000
    } else if alt > 12000 {
        12000
    } else {
        alt
    };
    aircraft.altitude = alt_c as u32;
    let h: i64 = (aircraft.heading as i64 + d.turn as i64 + 360) % 360;
    aircraft.heading = h as u32;
}

/// Altitude, heading and signal quality within the bounds that each tick restores.
pub open spec fn in_flight_bounds(a: Aircraft) -> bool {
    MIN_ALTITUDE <= a.altitude <= MAX_ALTITUDE && a.heading < 360 && a.nic <= MAX_NIC
}

} // verus!
