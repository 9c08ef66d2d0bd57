use vstd::prelude::*;
use crate::aircraft::Aircraft;
use crate::simulator::AdsbSimulator;
use crate::hex::{format_upper_hex, hex_value, lemma_upper_hex, parse_hex_u32, pow16, radix16_u32, upper_hex, is_upper_hex};

verus! {

pub const DOWNLINK_FORMAT: u8 = 17;

pub const CAPABILITY: u8 = 5;

/// Stands where a parity field would be; it is never computed.
pub const CHECKSUM: u128 = 0xA5A5A5;

pub const POSITION_TYPE_CODE: u64 = 11;

pub const VELOCITY_TYPE_CODE: u64 = 19;

pub const VELOCITY_SUBTYPE: u64 = 1;

/// Number of hexadecimal characters of a 112-bit frame.
pub const FRAME_HEX_LEN: usize = 28;

/// The 112-bit frame: format (5 bits), capability (3), address (24),
/// payload (56) and the fixed checksum (24), most significant first; each
/// input is cut to the width of its field.
pub open spec fn frame(df: u8, ca: u8, icao: u32, payload: u64) -> u128 {
    (((df & 0x1Fu8) as u128) << 107u128) | (((ca & 0x7u8) as u128) << 104u128) | (((icao & 0xFFFFFFu32) as u128) << 80u128) | (((payload & 0xFFFFFFFFFFFFFFu64) as u128) << 24u128) | 0xA5A5A5u128
}

/// The address of an aircraft: its id read as hexadecimal, or zero when the
/// id does not read as a 32-bit number.
pub open spec fn icao_of(id: Seq<char>) -> u32 {
    match radix16_u32(id) {
        Some(v) => v,
        None => 0,
    }
}

/// Altitude field: (feet + 1000) / 25, truncated, kept to 12 bits.
pub open spec fn alt_field(altitude: u32) -> u64 {
    (((altitude as nat + 1000) / 25) % 4096) as u64
}

/// An angle field: (v + half) / (2 half) of 131071, truncated, zero where
/// `v` lies below `-half`, kept to 17 bits.
pub open spec fn angle_field(v: i64, half: int) -> u64 {
    let x = v as int + half;
    if x <= 0 {
        0
    } else {
        ((x * 131071 / (2 * half)) % 131072) as u64
    }
}

/// Latitude field: (lat + 90°) / 180° of 131071.
pub open spec fn lat_field(lat: i64) -> u64 {
    angle_field(lat, 900_000_000)
}

/// Longitude field: (lng + 180°) / 360° of 131071.
pub open spec fn lng_field(lng: i64) -> u64 {
    angle_field(lng, 1_800_000_000)
}

/// Speed field: whole knots kept to 10 bits.
pub open spec fn speed_field(speed: u32) -> u64 {
    (speed % 1024) as u64
}

/// Heading field: heading / 360° of 127, truncated, kept to 7 bits.
pub open spec fn heading_field(heading: u32) -> u64 {
    ((heading as nat * 127 / 360) % 128) as u64
}

/// Position payload, packed from bit 55 down: type code 11 (5 bits), signal
/// quality (4), altitude (12), latitude (17), longitude (17); bit 0 is unused.
pub open spec fn position_payload(a: Aircraft) -> u64 {
    (11u64 << 51u64) | (((a.nic % 16) as u64) << 47u64) | (alt_field(a.altitude) << 35u64) | (
    lat_field(a.lat) << 18u64) | (lng_field(a.lng) << 1u64)
}

/// Velocity payload, packed from bit 55 down: type code 19 (5 bits), subtype
/// 1 (3), speed (10), heading (7); the low 31 bits are reserved and zero.
pub open spec fn velocity_payload(a: Aircraft) -> u64 {
    (19u64 << 51u64) | (1u64 << 48u64) | (speed_field(a.speed) << 38u64) | (heading_field(
        a.heading,
    ) << 31u64)
}

pub open spec fn position_frame(a: Aircraft) -> u128 {
    frame(17, 5, icao_of(a.id@), position_payload(a))
}

pub open spec fn velocity_frame(a: Aircraft) -> u128 {
    frame(17, 5, icao_of(a.id@), velocity_payload(a))
}

/// The text of a frame: 28 upper-case hexadecimal digits when it fits in 112 bits.
pub open spec fn frame_text(m: u128) -> Seq<char> {
    upper_hex(m as nat, 28)
}

/// The frame's type-code field: bits 51 to 55 of the payload.
pub open spec fn type_code_of(m: u128) -> u128 {
    (m >> 75u128) & 0x1Fu128
}

/// The frame's downlink-format field: its top five bits.
pub open spec fn downlink_format_of(m: u128) -> u128 {
    (m >> 107u128) & 0x1Fu128
}

/// The frame's capability field: the three bits after the downlink format.
pub open spec fn capability_of(m: u128) -> u128 {
    (m >> 104u128) & 0x7u128
}

/// Packs the header, address and payload into a frame and writes it as
/// upper-case hexadecimal, zero-padded to 28 characters.
pub fn assemble_message(df: u8, ca: u8, icao: u32, payload: u64) -> (r: String)
    ensures
        r@ == frame_text(frame(df, ca, icao, payload)),
        r@.len() == FRAME_HEX_LEN,
        is_upper_hex(r@),
{
    let mut msg: u128 = 0;
    msg = msg | (((df & 0x1F) as u128) << 107u128);
    msg = msg | (((ca & 0x7) as u128) << 104u128);
    msg = msg | (((icao & 0xFF_FFFF) as u128) << 80u128);
    msg = msg | (((payload & 0xFF_FFFF_FFFF_FFFF) as u128) << 24u128);
    msg = msg | CHECKSUM;
    assert(msg == frame(df, ca, icao, payload)) by (bit_vector)
        requires
            msg == ((((0u128 | (((df & 0x1Fu8) as u128) << 107u128)) | (((ca & 0x7u8) as u128)
                << 104u128)) | (((icao & 0xFFFFFFu32) as u128) << 80u128)) | (((payload
                & 0xFFFFFFFFFFFFFFu64) as u128) << 24u128)) | 0xA5A5A5u128,
    ;
    proof {
        lemma_frame_fits(df, ca, icao, payload);
        lemma_upper_hex(msg as nat, 28);
    }
    format_upper_hex(msg, FRAME_HEX_LEN)
}

proof fn lemma_pow16_28()
    ensures
        pow16(28) == 0x10000000000000000000000000000,
{
    reveal_with_fuel(pow16, 29);
}

/// Every frame fits in 112 bits.
proof fn lemma_frame_fits(df: u8, ca: u8, icao: u32, payload: u64)
    ensures
        (frame(df, ca, icao, payload) as nat) < pow16(28),
{
    let m = frame(df, ca, icao, payload);
    assert(m < 0x10000000000000000000000000000u128) by (bit_vector)
        requires
            m == (((df & 0x1Fu8) as u128) << 107u128) | (((ca & 0x7u8) as u128) << 104u128) | (((icao & 0xFFFFFFu32) as u128) << 80u128) | (((payload & 0xFFFFFFFFFFFFFFu64) as u128) << 24u128) | 0xA5A5A5u128,
    ;
    lemma_pow16_28();
}

fn encode_angle(v: i64, half: i64) -> (r: u64)
    requires
        0 < half <= 1_800_000_000,
    ensures
        r == angle_field(v, half as int),
        r < 131072,
{
    let x: i128 = v as i128 + half as i128;
    if x <= 0 {
        0
    } else {
        let span: i128 = 2 * half as i128;
        assert(0 <= x * 131071 <= 0x7fffffffffffffff * 131072) by (nonlinear_arith)
            requires
                0 < x <= 0x7fffffffffffffff + 1_800_000_000,
        ;
        let n: i128 = x * 131071;
        let q: i128 = n / span;
        assert(q >= 0 && q <= n) by (nonlinear_arith)
            requires
                n >= 0,
                span > 0,
                q == n / span,
        ;
        (q % 131072) as u64
    }
}

/// Type code 11 sits in bits 51 to 55 of a position payload, which fits in 56 bits.
proof fn lemma_position_payload(a: Aircraft)
    ensures
        (position_payload(a) >> 51u64) & 0x1Fu64 == 11,
        position_payload(a) < 0x100000000000000u64,
{
    let n = (a.nic % 16) as u64;
    let al = alt_field(a.altitude);
    let la = lat_field(a.lat);
    let ln = lng_field(a.lng);
    let p = position_payload(a);
    assert(((p >> 51u64) & 0x1Fu64) == 11 && p < 0x100000000000000u64) by (bit_vector)
        requires
            n < 16,
            al < 4096,
            la < 131072,
            ln < 131072,
            p == (11u64 << 51u64) | (n << 47u64) | (al << 35u64) | (la << 18u64) | (ln << 1u64),
    ;
}

/// Type code 19 sits in bits 51 to 55 of a velocity payload, which fits in 56 bits.
proof fn lemma_velocity_payload(a: Aircraft)
    ensures
        (velocity_payload(a) >> 51u64) & 0x1Fu64 == 19,
        velocity_payload(a) < 0x100000000000000u64,
{
    let sp = speed_field(a.speed);
    let hd = heading_field(a.heading);
    let p = velocity_payload(a);
    assert(((p >> 51u64) & 0x1Fu64) == 19 && p < 0x100000000000000u64) by (bit_vector)
        requires
            sp < 1024,
            hd < 128,
            p == (19u64 << 51u64) | (1u64 << 48u64) | (sp << 38u64) | (hd << 31u64),
    ;
}

/// The type code that a frame's payload carries is what its payload holds in bits 51 to 55.
proof fn lemma_frame_type_code(df: u8, ca: u8, icao: u32, payload: u64)
    requires
        payload < 0x100000000000000u64,
    ensures
        type_code_of(frame(df, ca, icao, payload)) == ((payload >> 51u64) & 0x1Fu64) as u128,
{
    let m = frame(df, ca, icao, payload);
    assert(((m >> 75u128) & 0x1Fu128) == ((payload >> 51u64) & 0x1Fu64) as u128) by (bit_vector)
        requires
            payload < 0x100000000000000u64,
            m == (((df & 0x1Fu8) as u128) << 107u128) | (((ca & 0x7u8) as u128) << 104u128) | (((icao & 0xFFFFFFu32) as u128) << 80u128) | (((payload & 0xFFFFFFFFFFFFFFu64) as u128) << 24u128) | 0xA5A5A5u128,
    ;
}

/// Reading the type-code field back out of the text of a position message gives 11.
pub proof fn lemma_position_type_code(a: Aircraft)
    ensures
        type_code_of(hex_value(frame_text(position_frame(a))) as u128) == 11,
{
    lemma_upper_hex(position_frame(a) as nat, 28);
    lemma_position_payload(a);
    lemma_frame_type_code(17, 5, icao_of(a.id@), position_payload(a));
}

/// Reading the type-code field back out of the text of a velocity message gives 19.
pub proof fn lemma_velocity_type_code(a: Aircraft)
    ensures
        type_code_of(hex_value(frame_text(velocity_frame(a))) as u128) == 19,
{
    lemma_upper_hex(velocity_frame(a) as nat, 28);
    lemma_velocity_payload(a);
    lemma_frame_type_code(17, 5, icao_of(a.id@), velocity_payload(a));
}

/// The text of a frame with format 17 and capability 5 reads back with
/// those two fields, whatever its address and payload.
pub proof fn lemma_header_fields(icao: u32, payload: u64)
    ensures
        downlink_format_of(hex_value(frame_text(frame(17, 5, icao, payload))) as u128) == 17,
        capability_of(hex_value(frame_text(frame(17, 5, icao, payload))) as u128) == 5,
{
    let m = frame(17, 5, icao, payload);
    lemma_upper_hex(m as nat, 28);
    assert(((m >> 107u128) & 0x1Fu128) == 17 && ((m >> 104u128) & 0x7u128) == 5) by (bit_vector)
        requires
            m == (((17u8 & 0x1Fu8) as u128) << 107u128) | (((5u8 & 0x7u8) as u128) << 104u128) | (((
            icao & 0xFFFFFFu32) as u128) << 80u128) | (((payload & 0xFFFFFFFFFFFFFFu64) as u128)
                << 24u128) | 0xA5A5A5u128,
    ;
}

/// The frame's checksum field: its low 24 bits.
pub open spec fn checksum_of(m: u128) -> u128 {
    m & 0xFFFFFFu128
}

/// Encoding depends on the aircraft's state alone: two aircraft with the same
/// id, position, altitude, speed, heading and signal quality give the same
/// position and velocity text, and the checksum field of each reads back as
/// 0xA5A5A5.
pub proof fn lemma_encoding_deterministic(a: Aircraft, b: Aircraft)
    requires
        a.id@ == b.id@,
        a.lat == b.lat,
        a.lng == b.lng,
        a.altitude == b.altitude,
        a.speed == b.speed,
        a.heading == b.heading,
        a.nic == b.nic,
    ensures
        frame_text(position_frame(a)) == frame_text(position_frame(b)),
        frame_text(velocity_frame(a)) == frame_text(velocity_frame(b)),
        checksum_of(hex_value(frame_text(position_frame(a))) as u128) == CHECKSUM,
        checksum_of(hex_value(frame_text(velocity_frame(a))) as u128) == CHECKSUM,
{
    lemma_upper_hex(position_frame(a) as nat, 28);
    lemma_upper_hex(velocity_frame(a) as nat, 28);
    lemma_frame_checksum(17, 5, icao_of(a.id@), position_payload(a));
    lemma_frame_checksum(17, 5, icao_of(a.id@), velocity_payload(a));
}

proof fn lemma_frame_checksum(df: u8, ca: u8, icao: u32, payload: u64)
    ensures
        checksum_of(frame(df, ca, icao, payload)) == 0xA5A5A5u128,
{
    let m = frame(df, ca, icao, payload);
    assert((m & 0xFFFFFFu128) == 0xA5A5A5u128) by (bit_vector)
        requires
            m == (((df & 0x1Fu8) as u128) << 107u128) | (((ca & 0x7u8) as u128) << 104u128) | (((icao & 0xFFFFFFu32) as u128) << 80u128) | (((payload & 0xFFFFFFFFFFFFFFu64) as u128) << 24u128) | 0xA5A5A5u128,
    ;
}

/// The address field of a message: the id read as hexadecimal, zero when it
/// does not read.
fn icao_address(id: &String) -> (r: u32)
    ensures
        r == icao_of(id@),
{
    parse_hex_u32(id.as_str()).unwrap_or(0)
}

} // verus!

verus! {

impl AdsbSimulator {
    /// The position message (type code 11) of an aircraft.
    pub fn generate_position_message(aircraft: &Aircraft) -> (r: String)
        ensures
            r@ == frame_text(position_frame(*aircraft)),
            r@.len() == FRAME_HEX_LEN,
            is_upper_hex(r@),
    {
        let icao_int = icao_address(&aircraft.id);
        let nic_encoded: u64 = (aircraft.nic % 16) as u64;
        let alt_encoded: u64 = ((aircraft.altitude as u64 + 1000) / 25) % 4096;
        let lat_encoded = encode_angle(aircraft.lat, 900_000_000);
        let lng_encoded = encode_angle(aircraft.lng, 1_800_000_000);
        let payload: u64 = (POSITION_TYPE_CODE << 51u64) | (nic_encoded << 47u64) | (alt_encoded
            << 35u64) | (lat_encoded << 18u64) | (lng_encoded << 1u64);
        assemble_message(DOWNLINK_FORMAT, CAPABILITY, icao_int, payload)
    }

    /// The velocity message (type code 19, subtype 1) of an aircraft.
    pub fn generate_velocity_message(aircraft: &Aircraft) -> (r: String)
        ensures
            r@ == frame_text(velocity_frame(*aircraft)),
            r@.len() == FRAME_HEX_LEN,
            is_upper_hex(r@),
    {
        let icao_int = icao_address(&aircraft.id);
        let speed_encoded: u64 = (aircraft.speed % 1024) as u64;
        let heading_encoded: u64 = ((aircraft.heading as u64 * 127) / 360) % 128;
        let payload: u64 = (VELOCITY_TYPE_CODE << 51u64) | (VELOCITY_SUBTYPE << 48u64) | (
        speed_encoded << 38u64) | (heading_encoded << 31u64);
        assemble_message(DOWNLINK_FORMAT, CAPABILITY, icao_int, payload)
    }
}

} // verus!
