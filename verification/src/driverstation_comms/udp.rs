//! Control packets that the field sends to a driverstation over UDP.
//!
//! A packet is 23 bytes: a two-byte sequence number, the protocol version,
//! the control byte, the request byte, the alliance station, and seventeen
//! bytes of padding.  All but the control byte and the station are zero.
//! The control byte holds the period in its two low bits (`00` teleop,
//! `01` test, `10` autonomous) and the enable state in bit 2.
use vstd::prelude::*;

use super::driverstation_connection::DriverstationConnection;

verus! {

pub struct FMSUDPPacket {}

/// The UDP-side view of a driverstation: its team, control mode and station.
#[derive(Clone, Copy)]
pub struct DSUDPData {
    pub team_number: u16,
    pub control_mode: [ControlMode; 2],
    pub alliance_station: u8,
}

impl DSUDPData {
    pub fn new(team_number: u16) -> (d: Self)
        ensures
            d.team_number == team_number,
            d.control_mode@ == seq![ControlMode::Teleop, ControlMode::Disabled],
            d.alliance_station == BLUE_1,
    {
        Self {
            team_number,
            control_mode: [ControlMode::Teleop, ControlMode::Disabled],
            alliance_station: BLUE_1,
        }
    }
}

/// The operating state a robot can be put in.  A driverstation's control
/// mode is a pair: its period (`Teleop`, `Autonomous`, `Test`, or one of the
/// stops) and its enable state (`Enabled` or `Disabled`).
#[derive(Clone, Copy, Debug, PartialEq, Eq, Structural)]
pub enum ControlMode {
    EStop,
    AStop,
    Enabled,
    Disabled,
    Teleop,
    Autonomous,
    Test,
}

pub const RED_1: u8 = 0;
pub const RED_2: u8 = 1;
pub const RED_3: u8 = 2;
pub const BLUE_1: u8 = 3;
pub const BLUE_2: u8 = 4;
pub const BLUE_3: u8 = 5;

/// The period bits of the control byte; a mode that is no period sets none.
pub open spec fn period_bits(period: ControlMode) -> u8 {
    match period {
        ControlMode::Test => 0b0000_0001,
        ControlMode::Autonomous => 0b0000_0010,
        _ => 0b0000_0000,
    }
}

/// The enable bit of the control byte; only `Enabled` sets it.
pub open spec fn enable_bits(enabled: ControlMode) -> u8 {
    match enabled {
        ControlMode::Enabled => 0b0000_0100,
        _ => 0b0000_0000,
    }
}

/// The control byte for a `[period, enable state]` pair.
pub open spec fn spec_control_byte(period: ControlMode, enabled: ControlMode) -> u8 {
    period_bits(period) | enable_bits(enabled)
}

/// The packet that tells a driverstation its control mode and station.
pub open spec fn spec_udp_packet(data: DriverstationConnection) -> Seq<u8> {
    seq![
        0u8,
        0u8,
        0u8,
        spec_control_byte(data.control_mode@[0], data.control_mode@[1]),
        0u8,
        data.alliance_station,
    ] + Seq::new(17, |i: int| 0u8)
}

/// The control byte can be read back: its two low bits are the period
/// (`00` teleop or a stop, `01` test, `10` autonomous), bit 2 is set exactly
/// when the robot is enabled, and no other bit is set.
pub proof fn lemma_control_byte_fields(period: ControlMode, enabled: ControlMode)
    ensures
        spec_control_byte(period, enabled) & 0b0000_0011 == period_bits(period),
        (spec_control_byte(period, enabled) & 0b0000_0100 != 0) == (enabled
            == ControlMode::Enabled),
        spec_control_byte(period, enabled) < 8,
{
    let p = period_bits(period);
    let e = enable_bits(enabled);
    assert(p <= 2 && (e == 0 || e == 4) ==> (p | e) & 3u8 == p && ((p | e) & 4u8 != 0) == (e == 4)
        && (p | e) < 8u8) by (bit_vector);
}

/// Every control packet is 23 bytes: zeros, save the control byte at 3 and
/// the alliance station at 5.
pub proof fn lemma_udp_packet_layout(data: DriverstationConnection)
    ensures
        spec_udp_packet(data).len() == 23,
        spec_udp_packet(data)[3] == spec_control_byte(data.control_mode@[0], data.control_mode@[1]),
        spec_udp_packet(data)[5] == data.alliance_station,
        forall|i: int| 0 <= i < 23 && i != 3 && i != 5 ==> #[trigger] spec_udp_packet(data)[i] == 0,
{
}

/// Builds the control packet for a driverstation.
pub fn create_udp_packet(data: &DriverstationConnection) -> (packet: Vec<u8>)
    ensures
        packet@ == spec_udp_packet(*data),
{
    let mut packet_data: Vec<u8> = Vec::new();

    packet_data.push(0x0);  // sequence num high
    packet_data.push(0x0);  // sequence num low
    packet_data.push(0x0);  // com version

    let mut control_byte: u8 = 0x00;
    let period = data.control_mode[0];
    let enabled = data.control_mode[1];

    match period {
        ControlMode::Teleop => control_byte = control_byte | 0b0000_0000,
        ControlMode::Test => control_byte = control_byte | 0b0000_0001,
        ControlMode::Autonomous => control_byte = control_byte | 0b0000_0010,
        _ => control_byte = control_byte | 0,
    };
    let ghost after_period = control_byte;

    match enabled {
        ControlMode::Enabled => control_byte = control_byte | 0b0000_0100,
        ControlMode::Disabled => control_byte = control_byte | 0b0000_0000,
        _ => control_byte = control_byte | 0b0000_0000,
    };
    proof {
        assert(0u8 | 0u8 == 0u8 && 0u8 | 1u8 == 1u8 && 0u8 | 2u8 == 2u8) by (bit_vector);
        assert(forall|x: u8| #[trigger] (x | 0) == x) by (bit_vector);
        assert(after_period == period_bits(period));
    }
    packet_data.push(control_byte);

    packet_data.push(0x00);  // request byte
    packet_data.push(data.alliance_station);

    let mut i: usize = 0;
    while i < 17
        invariant
            i <= 17,
            packet_data@ == seq![
                0u8,
                0u8,
                0u8,
                spec_control_byte(data.control_mode@[0], data.control_mode@[1]),
                0u8,
                data.alliance_station,
            ] + Seq::new(i as nat, |j: int| 0u8),
        decreases 17 - i,
    {
        packet_data.push(0x00);
        i = i + 1;
        assert(packet_data@ =~= seq![
            0u8,
            0u8,
            0u8,
            spec_control_byte(data.control_mode@[0], data.control_mode@[1]),
            0u8,
            data.alliance_station,
        ] + Seq::new(i as nat, |j: int| 0u8));
    }
    packet_data
}

} // verus!
