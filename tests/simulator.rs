use adsb::aircraft::{advance_aircraft, Aircraft, Draws, UnitVec, UNIT};
use adsb::simulator::{pick_from_nanos, rand_range, roll_from_nanos, AdsbSimulator};

/// Directions at successive golden angles, scaled to `UNIT`.
fn golden_spread(count: usize) -> Vec<UnitVec> {
    let golden = std::f64::consts::PI * (3.0 - 5.0_f64.sqrt());
    (0..count)
        .map(|i| {
            let angle = i as f64 * golden;
            UnitVec {
                north: (angle.sin() * UNIT as f64) as i64,
                east: (angle.cos() * UNIT as f64) as i64,
            }
        })
        .collect()
}

/// Direction of travel for each whole-degree heading, scaled to `UNIT`.
fn course_table() -> Vec<UnitVec> {
    (0..360)
        .map(|h| {
            let rad = (90.0 - h as f64).to_radians();
            UnitVec {
                north: (rad.sin() * UNIT as f64) as i64,
                east: (rad.cos() * UNIT as f64) as i64,
            }
        })
        .collect()
}

fn simulator_with(count: usize) -> AdsbSimulator {
    let mut sim = AdsbSimulator::new(225_431_000, 1_140_579_000);
    sim.generate_mock_aircrafts(count, &golden_spread(count));
    sim
}

fn plane(id: &str, lat: i64, lng: i64, altitude: u32, speed: u32, heading: u32, nic: u8) -> Aircraft {
    Aircraft {
        id: id.to_string(),
        callsign: "CZ1000".to_string(),
        lat,
        lng,
        altitude,
        speed,
        heading,
        nic,
    }
}

fn calm(climb: i32, turn: i32) -> Draws {
    Draws { quality_roll: 0, quality_step: 0, climb, turn }
}

fn field(hex: &str) -> u128 {
    u128::from_str_radix(hex, 16).unwrap()
}

#[test]
fn test_simulator() {
    let sim = simulator_with(5);
    assert_eq!(sim.get_aircrafts().len(), 5);
    let messages = sim.generate_all_messages();
    assert_eq!(messages.len(), 10);
}

#[test]
fn generation_counts_and_unique_addresses() {
    assert_eq!(simulator_with(0).get_aircrafts().len(), 0);
    let sim = simulator_with(60);
    let fleet = sim.get_aircrafts();
    assert_eq!(fleet.len(), 60);
    for (i, a) in fleet.iter().enumerate() {
        assert!(a.nic >= 5 && a.nic <= 11);
        assert!(a.speed >= 400 && a.speed < 650);
        assert!(a.heading < 360);
        assert!(a.altitude >= 3000 && a.altitude <= 12000);
        for b in fleet.iter().skip(i + 1) {
            assert_ne!(a.id, b.id);
        }
    }
}

#[test]
fn generation_is_repeatable() {
    let a = simulator_with(12);
    let b = simulator_with(12);
    for (x, y) in a.get_aircrafts().iter().zip(b.get_aircrafts().iter()) {
        assert_eq!(x.id, y.id);
        assert_eq!(x.callsign, y.callsign);
        assert_eq!((x.lat, x.lng, x.altitude, x.speed, x.heading, x.nic), (y.lat, y.lng, y.altitude, y.speed, y.heading, y.nic));
    }
}

#[test]
fn one_aircraft_scenario() {
    let sim = simulator_with(1);
    let a = &sim.get_aircrafts()[0];
    assert_eq!(a.id, "780000");
    assert_eq!(a.callsign, "CZ1000");
    assert_eq!(a.nic, 5);
    assert_eq!(a.altitude, 5000);
    assert_eq!(a.speed, 400);
    assert_eq!(a.heading, 99991 % 360);
    assert_eq!(a.lat, 225_431_000);
    assert_eq!(a.lng, 1_140_579_000 + 3_628_050);
    let hex = AdsbSimulator::generate_position_message(a);
    let m = field(&hex);
    assert_eq!(m >> 107, 17);
    assert_eq!((m >> 104) & 0x7, 5);
}

#[test]
fn callsigns_cycle_airlines() {
    let sim = simulator_with(12);
    let fleet = sim.get_aircrafts();
    assert_eq!(fleet[1].callsign, "CA1111");
    assert_eq!(fleet[8].callsign, "3U1888");
    assert_eq!(fleet[10].callsign, "CZ2110");
    assert_eq!(fleet[1].id, "781111");
}

#[test]
fn large_index_address_grows_past_six_digits() {
    let sim = simulator_with(2050);
    let fleet = sim.get_aircrafts();
    assert_eq!(fleet[2040].id, "FFFF78");
    assert_eq!(fleet[2049].id, "1009911");
}

#[test]
fn ticks_keep_bounds() {
    let course = course_table();
    let mut sim = simulator_with(25);
    for _ in 0..40 {
        sim.update_positions(&course);
        for a in sim.get_aircrafts() {
            assert!(a.altitude >= 3000 && a.altitude <= 12000);
            assert!(a.heading < 360);
            assert!(a.nic <= 11);
        }
    }
    assert_eq!(sim.get_aircrafts().len(), 25);
}

#[test]
fn altitude_clamped_at_ceiling() {
    let mut a = plane("780000", 0, 0, 12000, 400, 0, 5);
    advance_aircraft(&mut a, UnitVec { north: UNIT, east: 0 }, calm(20, 0));
    assert_eq!(a.altitude, 12000);
    let mut b = plane("780000", 0, 0, 3000, 400, 0, 5);
    advance_aircraft(&mut b, UnitVec { north: UNIT, east: 0 }, calm(-20, 0));
    assert_eq!(b.altitude, 3000);
}

#[test]
fn tick_moves_along_course() {
    let mut a = plane("780000", 100, -100, 8000, 400, 0, 5);
    advance_aircraft(&mut a, UnitVec { north: UNIT, east: -UNIT }, calm(5, 0));
    assert_eq!(a.lat, 100 + 10_010);
    assert_eq!(a.lng, -100 - 10_010);
    assert_eq!(a.altitude, 8005);
    assert_eq!(a.id, "780000");
    assert_eq!(a.speed, 400);
}

#[test]
fn heading_wraps_both_ways() {
    let mut a = plane("780000", 0, 0, 8000, 400, 359, 5);
    advance_aircraft(&mut a, UnitVec { north: 0, east: 0 }, calm(0, 1));
    assert_eq!(a.heading, 0);
    advance_aircraft(&mut a, UnitVec { north: 0, east: 0 }, calm(0, -1));
    assert_eq!(a.heading, 359);
}

#[test]
fn signal_quality_moves_only_on_high_roll() {
    let mut a = plane("780000", 0, 0, 8000, 400, 0, 11);
    let up = Draws { quality_roll: 950, quality_step: 1, climb: 0, turn: 0 };
    advance_aircraft(&mut a, UnitVec { north: 0, east: 0 }, up);
    assert_eq!(a.nic, 11);
    let down = Draws { quality_roll: 901, quality_step: -1, climb: 0, turn: 0 };
    advance_aircraft(&mut a, UnitVec { north: 0, east: 0 }, down);
    assert_eq!(a.nic, 10);
    let low = Draws { quality_roll: 900, quality_step: -1, climb: 0, turn: 0 };
    advance_aircraft(&mut a, UnitVec { north: 0, east: 0 }, low);
    assert_eq!(a.nic, 10);
    let mut z = plane("780000", 0, 0, 8000, 400, 0, 0);
    advance_aircraft(&mut z, UnitVec { north: 0, east: 0 }, down);
    assert_eq!(z.nic, 0);
}

#[test]
fn position_saturates_at_range_end() {
    let mut a = plane("780000", i64::MAX - 5, i64::MIN + 5, 8000, 400, 0, 5);
    advance_aircraft(&mut a, UnitVec { north: UNIT, east: -UNIT }, calm(0, 0));
    assert_eq!(a.lat, i64::MAX);
    assert_eq!(a.lng, i64::MIN);
}

#[test]
fn rand_range_stays_in_range() {
    for _ in 0..100 {
        let r = rand_range(-20, 20);
        assert!((-20..=20).contains(&r));
    }
    assert_eq!(rand_range(7, 7), 7);
}

#[test]
fn draws_from_clock_readings() {
    assert_eq!(roll_from_nanos(123_456_789), 789);
    assert_eq!(roll_from_nanos(0), 0);
    assert_eq!(pick_from_nanos(45, -20, 20), -20 + 45 % 41);
    assert_eq!(pick_from_nanos(999_999_999, -1, 1), -1 + 999_999_999 % 3);
    assert_eq!(pick_from_nanos(7, 3, 3), 3);
}

#[test]
fn generated_altitudes_stay_in_range() {
    let sim = simulator_with(300);
    let fleet = sim.get_aircrafts();
    assert_eq!(fleet[3].altitude, 5000 + (3 * 2749) % 7001);
    for a in fleet {
        assert!(a.altitude >= 3000 && a.altitude <= 12000);
    }
}
