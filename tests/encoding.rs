use adsb::aircraft::Aircraft;
use adsb::encode::assemble_message;
use adsb::simulator::AdsbSimulator;
use adsb::aircraft::{UnitVec, UNIT};

fn plane(id: &str, lat: i64, lng: i64, altitude: u32, speed: u32, heading: u32, nic: u8) -> Aircraft {
    Aircraft {
        id: id.to_string(),
        callsign: "CZ1000".to_string(),
        lat,
        lng,
        altitude,
        speed,
        heading,
        nic,
    }
}

fn is_upper_hex(s: &str) -> bool {
    s.chars().all(|c| c.is_ascii_digit() || ('A'..='F').contains(&c))
}

fn field(hex: &str) -> u128 {
    u128::from_str_radix(hex, 16).unwrap()
}

fn fleet_of(count: usize) -> AdsbSimulator {
    let spread: Vec<UnitVec> = (0..count)
        .map(|i| UnitVec { north: (i as i64 % 3 - 1) * UNIT / 2, east: UNIT / 3 })
        .collect();
    let mut sim = AdsbSimulator::new(0, 0);
    sim.generate_mock_aircrafts(count, &spread);
    sim
}

#[test]
fn position_message_exact() {
    let a = plane("780000", 0, 0, 12000, 500, 90, 5);
    assert_eq!(AdsbSimulator::generate_position_message(&a), "8D7800005A9043FFFDFFFEA5A5A5");
    let b = plane("zz", 225_431_000, 1_140_579_000, 5000, 400, 0, 7);
    assert_eq!(AdsbSimulator::generate_position_message(&b), "8D0000005B8785007B446CA5A5A5");
}

#[test]
fn velocity_message_exact() {
    let a = plane("780000", 0, 0, 12000, 500, 90, 5);
    assert_eq!(AdsbSimulator::generate_velocity_message(&a), "8D780000997D0F80000000A5A5A5");
    let b = plane("zz", 0, 0, 5000, 400, 0, 7);
    assert_eq!(AdsbSimulator::generate_velocity_message(&b), "8D00000099640000000000A5A5A5");
}

#[test]
fn malformed_address_encodes_as_zero() {
    let a = plane("NOT-HEX", 0, 0, 8000, 450, 10, 6);
    let hex = AdsbSimulator::generate_position_message(&a);
    assert_eq!(&hex[2..8], "000000");
    let b = plane("", 0, 0, 8000, 450, 10, 6);
    assert_eq!(&AdsbSimulator::generate_velocity_message(&b)[2..8], "000000");
}

#[test]
fn lower_case_address_reads() {
    let a = plane("abc123", 0, 0, 8000, 450, 10, 6);
    assert_eq!(&AdsbSimulator::generate_position_message(&a)[2..8], "ABC123");
}

#[test]
fn out_of_range_latitude_truncates_to_zero() {
    let a = plane("780000", -950_000_000, -1_900_000_000, 8000, 450, 10, 6);
    let m = field(&AdsbSimulator::generate_position_message(&a));
    let payload = (m >> 24) & ((1u128 << 56) - 1);
    assert_eq!(payload & 0x7_FFFF_FFFF, 0);
}

#[test]
fn assemble_message_exact() {
    assert_eq!(assemble_message(17, 5, 0x780000, 0), "8D78000000000000000000A5A5A5");
    assert_eq!(assemble_message(0, 0, 0, 0), "0000000000000000000000A5A5A5");
    assert_eq!(assemble_message(17, 5, 0x123456, 0xFF_FFFF_FFFF_FFFF), "8D123456FFFFFFFFFFFFFFA5A5A5");
}

#[test]
fn encode_all_alternates() {
    let sim = fleet_of(7);
    let messages = sim.generate_all_messages();
    let fleet = sim.get_aircrafts();
    assert_eq!(messages.len(), 14);
    for (k, e) in messages.iter().enumerate() {
        let a = &fleet[k / 2];
        assert_eq!(e.aircraft_id, a.id);
        assert_eq!(e.hex_message.len(), 28);
        assert!(is_upper_hex(&e.hex_message));
        if k % 2 == 0 {
            assert_eq!(e.message_type, "position");
            assert_eq!(e.hex_message, AdsbSimulator::generate_position_message(a));
        } else {
            assert_eq!(e.message_type, "velocity");
            assert_eq!(e.hex_message, AdsbSimulator::generate_velocity_message(a));
        }
    }
}

#[test]
fn type_codes_read_back() {
    let sim = fleet_of(9);
    for a in sim.get_aircrafts() {
        let p = field(&AdsbSimulator::generate_position_message(a));
        let v = field(&AdsbSimulator::generate_velocity_message(a));
        assert_eq!((p >> 75) & 0x1F, 11);
        assert_eq!((v >> 75) & 0x1F, 19);
    }
}

#[test]
fn encoding_twice_is_identical() {
    let a = plane("7A1B2C", 123_456_789, -98_765_432, 9000, 612, 271, 9);
    let first = AdsbSimulator::generate_position_message(&a);
    let second = AdsbSimulator::generate_position_message(&a.clone());
    assert_eq!(first, second);
    assert!(first.ends_with("A5A5A5"));
    let v1 = AdsbSimulator::generate_velocity_message(&a);
    assert_eq!(v1, AdsbSimulator::generate_velocity_message(&a));
    assert!(v1.ends_with("A5A5A5"));
}

#[test]
fn assemble_message_masks_fields() {
    let wide = assemble_message(32, 8, 0x200_0000, u64::MAX);
    assert_eq!(wide, "00000000FFFFFFFFFFFFFFA5A5A5");
    let full = assemble_message(0xFF, 0xFF, 0xFFFF_FFFF, 0);
    assert_eq!(full, "FFFFFFFF00000000000000A5A5A5");
    assert_eq!(&full[22..28], "A5A5A5");
}

#[test]
fn long_address_keeps_header_fields() {
    let a = plane("1009911", 0, 0, 8000, 450, 10, 6);
    let m = field(&AdsbSimulator::generate_position_message(&a));
    assert_eq!(m >> 107, 17);
    assert_eq!((m >> 104) & 0x7, 5);
    assert_eq!((m >> 80) & 0xFF_FFFF, 0x009911);
}
