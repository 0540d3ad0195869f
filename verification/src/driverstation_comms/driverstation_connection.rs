//! A driverstation as the field sees it, and the team-number addressing
//! scheme of FIRST robotics.
use vstd::prelude::*;

use super::decimal::{
    all_digits, char_digit_value, digit_char, digit_str, digits_value, lemma_digit_char_value,
    lemma_digits_value_push,
};
use super::error::CommsError;
use super::udp::{create_udp_packet, spec_udp_packet, ControlMode, BLUE_1};

verus! {

/// One driverstation known to the field.
#[derive(Clone, Copy, Debug)]
pub struct DriverstationConnection {
    pub team_number: u16,
    pub ds_control: DSControl,
    pub alliance_station: u8,
    /// Robot control mode: `[period, enable state]`.
    /// The period is `Teleop`, `Test`, `Autonomous` or a stop; the enable
    /// state is `Enabled` or `Disabled`.
    pub control_mode: [ControlMode; 2],
}

/// How far the field controls a driverstation.
#[derive(Clone, Copy, Debug, PartialEq, Eq, Structural)]
pub enum DSControl {
    Uncontrolled,
    FMSFull,
    FMSPartial,
}

/// A freshly connected driverstation: partially controlled, at Blue 1, in
/// teleop and disabled.
pub open spec fn new_connection(team_number: u16) -> DriverstationConnection {
    DriverstationConnection {
        team_number,
        ds_control: DSControl::FMSPartial,
        alliance_station: BLUE_1,
        control_mode: [ControlMode::Teleop, ControlMode::Disabled],
    }
}

impl DriverstationConnection {
    pub fn new(team_number: u16) -> (c: Self)
        ensures
            c == new_connection(team_number),
            c.control_mode@ == seq![ControlMode::Teleop, ControlMode::Disabled],
    {
        Self {
            team_number,
            ds_control: DSControl::FMSPartial,
            alliance_station: BLUE_1,
            control_mode: [ControlMode::Teleop, ControlMode::Disabled],
        }
    }
}

/// The team number written with exactly five digits (`ZXXYY`).
pub open spec fn padded_team_number(n: u16) -> Seq<char> {
    seq![
        digit_char((n / 10000) as int),
        digit_char((n / 1000 % 10) as int),
        digit_char((n / 100 % 10) as int),
        digit_char((n / 10 % 10) as int),
        digit_char((n % 10) as int),
    ]
}

/// The upper octet of a team's address: `XX` of `0XXYY`, `ZXX` of `ZXXYY`
/// when `Z` is not zero.
pub open spec fn spec_upper_octet(n: u16) -> Seq<char> {
    if n < 10000 {
        padded_team_number(n).subrange(1, 3)
    } else {
        padded_team_number(n).subrange(0, 3)
    }
}

/// The lower octet of a team's address: `YY` of `ZXXYY`.
pub open spec fn spec_lower_octet(n: u16) -> Seq<char> {
    padded_team_number(n).subrange(3, 5)
}

/// Splits a FIRST team number into the two middle octets of the team's
/// address: team `ZXXYY` is at `10.ZXX.YY.5`, and at `10.XX.YY.5` when `Z`
/// is zero.  Team 254 gives `("02", "54")`; team 12345 gives `("123", "45")`.
/// Every `u16` is a valid team number, so this never fails.
pub fn parse_team_ip_octets(team_number: u16) -> (r: Result<(String, String), CommsError>)
    ensures
        r matches Ok((upper, lower)) && upper@ == spec_upper_octet(team_number) && lower@
            == spec_lower_octet(team_number),
{
    let d0 = (team_number / 10000) as u8;
    let d1 = (team_number / 1000 % 10) as u8;
    let d2 = (team_number / 100 % 10) as u8;
    let d3 = (team_number / 10 % 10) as u8;
    let d4 = (team_number % 10) as u8;

    let mut upper = String::new();
    if d0 != 0 {
        upper.append(digit_str(d0));
    }
    upper.append(digit_str(d1));
    upper.append(digit_str(d2));

    let mut lower = String::new();
    lower.append(digit_str(d3));
    lower.append(digit_str(d4));

    assert(lower@ =~= spec_lower_octet(team_number));
    assert(upper@ =~= spec_upper_octet(team_number));
    Ok((upper, lower))
}

/// The two octets are decimal digits that spell the team number again:
/// `upper * 100 + lower == team_number`, the lower octet always has two
/// digits, and the upper octet has two digits below team 10000 and three
/// from there on.
pub proof fn lemma_team_octets_spell_team_number(team_number: u16)
    ensures
        all_digits(spec_upper_octet(team_number)),
        all_digits(spec_lower_octet(team_number)),
        spec_lower_octet(team_number).len() == 2,
        spec_upper_octet(team_number).len() == if team_number < 10000 { 2int } else { 3int },
        digits_value(spec_upper_octet(team_number)) * 100 + digits_value(
            spec_lower_octet(team_number),
        ) == team_number,
{
    let n = team_number as int;
    let p = padded_team_number(team_number);
    lemma_digit_char_value(n / 10000);
    lemma_digit_char_value(n / 1000 % 10);
    lemma_digit_char_value(n / 100 % 10);
    lemma_digit_char_value(n / 10 % 10);
    lemma_digit_char_value(n % 10);
    let lo = spec_lower_octet(team_number);
    let e = Seq::<char>::empty();
    assert(digits_value(e) == 0);
    lemma_digits_value_push(e, p[3]);
    lemma_digits_value_push(e.push(p[3]), p[4]);
    assert(lo =~= e.push(p[3]).push(p[4]));
    assert(digits_value(lo) == char_digit_value(p[3]) * 10 + char_digit_value(p[4]));
    let up = spec_upper_octet(team_number);
    if team_number < 10000 {
        lemma_digits_value_push(e, p[1]);
        lemma_digits_value_push(e.push(p[1]), p[2]);
        assert(up =~= e.push(p[1]).push(p[2]));
        assert(digits_value(up) == char_digit_value(p[1]) * 10 + char_digit_value(p[2]));
        assert(n / 10000 == 0);
    } else {
        lemma_digits_value_push(e, p[0]);
        lemma_digits_value_push(e.push(p[0]), p[1]);
        lemma_digits_value_push(e.push(p[0]).push(p[1]), p[2]);
        assert(up =~= e.push(p[0]).push(p[1]).push(p[2]));
        assert(digits_value(up) == (char_digit_value(p[0]) * 10 + char_digit_value(p[1])) * 10
            + char_digit_value(p[2]));
    }
    assert(((n / 10000) * 10 + n / 1000 % 10) * 1000 + (n / 100 % 10) * 100 + (n / 10 % 10) * 10
        + n % 10 == n) by (nonlinear_arith)
        requires
            0 <= n < 65536,
    ;
}

/// Where the field sends a driverstation's control packets: its team
/// address on port 1120 when fully controlled, on port 1121 when partially
/// controlled, and `0.0.0.0:1120` when uncontrolled.
pub open spec fn spec_driverstation_address(
    ds_control: DSControl,
    upper: Seq<char>,
    lower: Seq<char>,
) -> Seq<char> {
    match ds_control {
        DSControl::FMSFull => "10."@ + upper + "."@ + lower + ".5:1120"@,
        DSControl::FMSPartial => "10."@ + upper + "."@ + lower + ".5:1121"@,
        DSControl::Uncontrolled => "0.0.0.0:1120"@,
    }
}

/// The address is the team address `10.<upper>.<lower>.5` followed by a
/// port that the control level alone decides: 1120 under full control and
/// 1121 under partial control, whatever the octets.  An uncontrolled
/// driverstation's packets go to `0.0.0.0:1120`.  So two teams under the same
/// control level get the same port, and the two controlled levels never
/// share one.
pub proof fn lemma_address_port_by_control_level(
    upper: Seq<char>,
    lower: Seq<char>,
    upper2: Seq<char>,
    lower2: Seq<char>,
)
    ensures
        spec_driverstation_address(DSControl::FMSFull, upper, lower) == "10."@ + upper + "."@ + lower
            + ".5:"@ + "1120"@,
        spec_driverstation_address(DSControl::FMSPartial, upper, lower) == "10."@ + upper + "."@
            + lower + ".5:"@ + "1121"@,
        spec_driverstation_address(DSControl::Uncontrolled, upper, lower) == "0.0.0.0:1120"@,
        ({
            let a = spec_driverstation_address(DSControl::FMSFull, upper, lower);
            let b = spec_driverstation_address(DSControl::FMSFull, upper2, lower2);
            a.skip(a.len() - 5) == b.skip(b.len() - 5)
        }),
        ({
            let a = spec_driverstation_address(DSControl::FMSFull, upper, lower);
            let b = spec_driverstation_address(DSControl::FMSPartial, upper, lower);
            a.len() == b.len() && a.last() != b.last()
        }),
{
    reveal_strlit("10.");
    reveal_strlit(".");
    reveal_strlit(".5:");
    reveal_strlit("1120");
    reveal_strlit("1121");
    reveal_strlit(".5:1120");
    reveal_strlit(".5:1121");
    let full = spec_driverstation_address(DSControl::FMSFull, upper, lower);
    let full2 = spec_driverstation_address(DSControl::FMSFull, upper2, lower2);
    let part = spec_driverstation_address(DSControl::FMSPartial, upper, lower);
    assert(full =~= "10."@ + upper + "."@ + lower + ".5:"@ + "1120"@);
    assert(part =~= "10."@ + upper + "."@ + lower + ".5:"@ + "1121"@);
    assert(full.skip(full.len() - 5) =~= ":1120"@) by {
        reveal_strlit(":1120");
    }
    assert(full2.skip(full2.len() - 5) =~= ":1120"@) by {
        reveal_strlit(":1120");
    }
}

/// The address that a driverstation's control packets go to.
pub fn driverstation_address(ds_control: DSControl, upper: &str, lower: &str) -> (addr: String)
    ensures
        addr@ == spec_driverstation_address(ds_control, upper@, lower@),
{
    match ds_control {
        DSControl::FMSFull => {
            let mut a = String::from_str("10.");
            a.append(upper);
            a.append(".");
            a.append(lower);
            a.append(".5:1120");
            a
        },
        DSControl::FMSPartial => {
            let mut a = String::from_str("10.");
            a.append(upper);
            a.append(".");
            a.append(lower);
            a.append(".5:1121");
            a
        },
        DSControl::Uncontrolled => String::from_str("0.0.0.0:1120"),
    }
}

/// What the control loop of one driverstation does next.
pub enum UdpAction {
    /// Send `packet` to `address`, then wait and look again.
    Send { address: String, packet: Vec<u8> },
    /// The driverstation is gone: stop the loop with an error.
    Terminate,
}

/// One turn of a driverstation's control loop: given what the field now
/// knows of the team (nothing, once it has been removed) and the team's
/// address octets, the packet to send and where, or the end of the loop.
pub fn udp_control_step(
    connection: Option<DriverstationConnection>,
    upper: &str,
    lower: &str,
) -> (action: UdpAction)
    ensures
        match connection {
            None => action is Terminate,
            Some(c) => action matches UdpAction::Send { address, packet } && address@
                == spec_driverstation_address(c.ds_control, upper@, lower@) && packet@
                == spec_udp_packet(c),
        },
{
    match connection {
        Some(c) => UdpAction::Send {
            address: driverstation_address(c.ds_control, upper, lower),
            packet: create_udp_packet(&c),
        },
        None => UdpAction::Terminate,
    }
}

} // verus!
