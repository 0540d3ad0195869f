//! Messages that a driverstation sends to the field over TCP.
//!
//! A message is `[size: u16 big-endian][tag_id: u8][data ...]`.  The tags read
//! here are `0x15` (usage report), `0x16` (log data) and `0x18` (team number);
//! every other tag is accepted without reading its data.
use vstd::prelude::*;

use super::decimal::{decimal, push_decimal};
use super::error::{CommsError, PacketField};

verus! {

pub struct ToDS {}

#[derive(Debug)]
pub struct FromDS {
    pub size: u16,
    pub tag_id: u8,
    pub tag: TagType,
}

#[derive(Debug)]
pub enum TagType {
    Version(VersionTag),
    UsageReport(UsageReport),
    LogData(LogData),
    ErrorEventData(ErrorEventData),
    TeamNumber(TeamNumber),
    ChallengeResponse(ChallengeResponse),
    DSPing(DSPing),
}

#[derive(Debug)]
pub struct VersionTag {
    pub status: String,
    pub version: String,
}

#[derive(Debug)]
pub struct UsageReport {
    pub team_num: u16,
    pub unknown: u8,
    pub entry_data: EntryData,
}

#[derive(Debug)]
pub struct LogData {
    pub trip_time: u8,
    pub lost_packets: u8,
    /// Received as two bytes `xx`, `yy`; holds `(xx + yy) / 256`.
    pub battery: u16,
    pub robot_status: u8,
    /// Value is halved.
    pub can: u8,
    /// Value is halved.
    pub signal_db: u8,
    pub bandwidth: u16,
}

#[derive(Debug)]
pub struct ErrorEventData {
    pub message_count: u32,
    pub timestamp: u64,
    /// Should always be `0x86 0x48 0xb0 0x00 0x00 0x00 0x00 0x00`.
    pub unknown: u64,
    pub log_message: String,
}

#[derive(Debug)]
pub struct TeamNumber {
    pub team_number: u16,
}

#[derive(Debug)]
pub struct ChallengeResponse {}

#[derive(Debug)]
pub struct DSPing {}

#[derive(Debug)]
pub struct EntryData {
    pub data: Vec<u8>,
}

pub const BROWNOUT_MASK: u8 = 0b1000_0000;
pub const WATCHDOG_MASK: u8 = 0b0100_0000;
pub const DS_TELEOP_MASK: u8 = 0b0010_0000;
pub const DS_AUTO_MASK: u8 = 0b0001_0000;
pub const DS_DISABLE_MASK: u8 = 0b0000_1000;
pub const ROBOT_TELEOP_MASK: u8 = 0b0000_0100;
pub const ROBOT_AUTO_MASK: u8 = 0b0000_0010;
pub const ROBOT_DISABLE_MASK: u8 = 0b0000_0001;

/// The big-endian 16-bit number in bytes `i` and `i + 1` of `s`.
pub open spec fn be16(s: Seq<u8>, i: int) -> int {
    s[i] as int * 256 + s[i + 1] as int
}

/// The big-endian bytes of `v`, as `u16::to_be_bytes` gives them.
pub open spec fn be_bytes(v: u16) -> Seq<u8> {
    seq![(v / 256) as u8, (v % 256) as u8]
}

/// A number written big-endian reads back as itself, whatever follows it.
pub proof fn lemma_be16_reads_back(v: u16, rest: Seq<u8>)
    ensures
        be16(be_bytes(v) + rest, 0) == v,
{
    let s = be_bytes(v) + rest;
    assert(s[0] == (v / 256) as u8 && s[1] == (v % 256) as u8);
}

/// Takes the first byte off the front of `data`; fails, leaving `data` as it
/// was, when there is none.
pub fn safe_pop(data: &mut Vec<u8>) -> (r: Result<u8, CommsError>)
    ensures
        old(data)@.len() == 0 ==> r == Err::<u8, CommsError>(CommsError::PacketTooShort)
            && final(data)@ == old(data)@,
        old(data)@.len() > 0 ==> r == Ok::<u8, CommsError>(old(data)@[0])
            && final(data)@ == old(data)@.drop_first(),
{
    if data.len() == 0 {
        return Err(CommsError::PacketTooShort);
    }
    Ok(data.remove(0))
}

/// Takes a big-endian `u16` off the front of `data`.  When fewer than two
/// bytes are left it fails, and what was left has been consumed.
pub fn safe_pop_u16(data: &mut Vec<u8>) -> (r: Result<u16, CommsError>)
    ensures
        old(data)@.len() < 2 ==> r == Err::<u16, CommsError>(CommsError::PacketTooShort)
            && final(data)@.len() == 0,
        old(data)@.len() >= 2 ==> r == Ok::<u16, CommsError>(be16(old(data)@, 0) as u16)
            && final(data)@ == old(data)@.skip(2),
{
    let ghost s = data@;
    let upper = match safe_pop(data) {
        Ok(b) => b as u16,
        Err(e) => return Err(e),
    };
    let lower = match safe_pop(data) {
        Ok(b) => b as u16,
        Err(e) => return Err(e),
    };
    assert(upper < 256 && lower < 256 ==> (upper << 8) | lower == upper * 256 + lower)
        by (bit_vector);
    assert(s.drop_first().drop_first() =~= s.skip(2));
    Ok((upper << 8) | lower)
}

/// Takes one byte off the front of `data` and checks that it lies in
/// `[min, max]`.  An out-of-range byte is consumed all the same.
pub fn safe_pop_validated(data: &mut Vec<u8>, min: u8, max: u8, field_name: &str) -> (r: Result<
    u8,
    CommsError,
>)
    ensures
        old(data)@.len() == 0 ==> r == Err::<u8, CommsError>(CommsError::PacketTooShort)
            && final(data)@ == old(data)@,
        old(data)@.len() > 0 ==> final(data)@ == old(data)@.drop_first(),
        old(data)@.len() > 0 && min <= old(data)@[0] <= max ==> r == Ok::<u8, CommsError>(
            old(data)@[0],
        ),
        old(data)@.len() > 0 && !(min <= old(data)@[0] <= max) ==> (r matches Err(
            CommsError::FieldOutOfRange { field_name: f, value, min: lo, max: hi },
        ) && f@ == field_name@ && value == old(data)@[0] && lo == min && hi == max),
{
    let value = match safe_pop(data) {
        Ok(v) => v,
        Err(e) => return Err(e),
    };
    if value < min || value > max {
        return Err(
            CommsError::FieldOutOfRange {
                field_name: String::from_str(field_name),
                value,
                min,
                max,
            },
        );
    }
    Ok(value)
}

/// The field that a message ends before, if it ends before one that is read.
pub open spec fn tcp_missing_field(s: Seq<u8>) -> Option<PacketField> {
    if s.len() < 2 {
        Some(PacketField::Size)
    } else if s.len() < 3 {
        Some(PacketField::TagId)
    } else if s[2] == 0x15 {
        if s.len() < 5 {
            Some(PacketField::UsageReportTeamNum)
        } else if s.len() < 6 {
            Some(PacketField::UsageReportUnknown)
        } else {
            None
        }
    } else if s[2] == 0x16 {
        if s.len() < 4 {
            Some(PacketField::LogDataTripTime)
        } else if s.len() < 5 {
            Some(PacketField::LogDataLostPackets)
        } else if s.len() < 6 {
            Some(PacketField::LogDataBatteryXx)
        } else if s.len() < 7 {
            Some(PacketField::LogDataBatteryYy)
        } else if s.len() < 8 {
            Some(PacketField::LogDataRobotStatus)
        } else if s.len() < 9 {
            Some(PacketField::LogDataCan)
        } else if s.len() < 10 {
            Some(PacketField::LogDataSignalDb)
        } else if s.len() < 12 {
            Some(PacketField::LogDataBandwidth)
        } else {
            None
        }
    } else if s[2] == 0x18 {
        if s.len() < 5 {
            Some(PacketField::TeamNumber)
        } else {
            None
        }
    } else {
        None
    }
}

/// The tag that message `s` (holding at least a size and a tag id) carries.
pub open spec fn tag_matches(s: Seq<u8>, tag: TagType) -> bool {
    if s[2] == 0x15 {
        &&& tag matches TagType::UsageReport(u)
        &&& u.team_num == be16(s, 3)
        &&& u.unknown == s[5]
        &&& u.entry_data.data@ == s.skip(6)
    } else if s[2] == 0x16 {
        &&& tag matches TagType::LogData(l)
        &&& l.trip_time == s[3]
        &&& l.lost_packets == s[4]
        &&& l.battery == (s[5] as int + s[6] as int) / 256
        &&& l.robot_status == s[7]
        &&& l.can == s[8]
        &&& l.signal_db == s[9]
        &&& l.bandwidth == be16(s, 10)
    } else if s[2] == 0x18 {
        tag matches TagType::TeamNumber(t) && t.team_number == be16(s, 3)
    } else {
        tag is DSPing
    }
}

/// `p` is what message `s` says.
pub open spec fn tcp_packet_matches(s: Seq<u8>, p: FromDS) -> bool {
    &&& p.size == be16(s, 0)
    &&& p.tag_id == s[2]
    &&& tag_matches(s, p.tag)
}

/// A team-number message, written as `size`, tag `0x18` and `team` (both
/// big-endian) and followed by anything, reads back as that size and team.
pub proof fn lemma_team_number_message_reads_back(size: u16, team: u16, rest: Seq<u8>)
    ensures
        ({
            let s = be_bytes(size) + seq![0x18u8] + be_bytes(team) + rest;
            &&& tcp_missing_field(s) is None
            &&& be16(s, 0) == size
            &&& s[2] == 0x18
            &&& be16(s, 3) == team
        }),
{
    let s = be_bytes(size) + seq![0x18u8] + be_bytes(team) + rest;
    assert(s =~= be_bytes(size) + (seq![0x18u8] + be_bytes(team) + rest));
    lemma_be16_reads_back(size, seq![0x18u8] + be_bytes(team) + rest);
    assert(s.skip(3) =~= be_bytes(team) + rest);
    lemma_be16_reads_back(team, rest);
    assert(s[3] == (be_bytes(team) + rest)[0] && s[4] == (be_bytes(team) + rest)[1]);
}

/// A log-data message, written field by field (two-byte fields big-endian)
/// and followed by anything, reads back as exactly those fields, with the
/// battery as `(xx + yy) / 256`.
pub proof fn lemma_log_data_message_reads_back(
    size: u16,
    trip_time: u8,
    lost_packets: u8,
    battery_xx: u8,
    battery_yy: u8,
    robot_status: u8,
    can: u8,
    signal_db: u8,
    bandwidth: u16,
    rest: Seq<u8>,
    tag: TagType,
)
    ensures
        ({
            let s = be_bytes(size) + seq![
                0x16u8,
                trip_time,
                lost_packets,
                battery_xx,
                battery_yy,
                robot_status,
                can,
                signal_db,
            ] + be_bytes(bandwidth) + rest;
            &&& tcp_missing_field(s) is None
            &&& be16(s, 0) == size
            &&& s[2] == 0x16
            &&& tag_matches(s, tag) <==> (tag matches TagType::LogData(l) && l.trip_time == trip_time
                && l.lost_packets == lost_packets && l.battery == (battery_xx as int
                + battery_yy as int) / 256 && l.robot_status == robot_status && l.can == can
                && l.signal_db == signal_db && l.bandwidth == bandwidth)
        }),
{
    let head = seq![0x16u8, trip_time, lost_packets, battery_xx, battery_yy, robot_status, can, signal_db];
    let s = be_bytes(size) + head + be_bytes(bandwidth) + rest;
    lemma_be16_reads_back(size, head + be_bytes(bandwidth) + rest);
    assert(s =~= be_bytes(size) + (head + be_bytes(bandwidth) + rest));
    assert(s.skip(10) =~= be_bytes(bandwidth) + rest);
    lemma_be16_reads_back(bandwidth, rest);
    assert(s[10] == (be_bytes(bandwidth) + rest)[0] && s[11] == (be_bytes(bandwidth) + rest)[1]);
    assert(s[3] == trip_time && s[4] == lost_packets && s[5] == battery_xx && s[6] == battery_yy);
    assert(s[7] == robot_status && s[8] == can && s[9] == signal_db);
}

/// A usage report, written as team (big-endian), one unknown byte and its
/// entries, reads back as exactly those, the entries being every byte
/// after the unknown one.
pub proof fn lemma_usage_report_reads_back(
    size: u16,
    team_num: u16,
    unknown: u8,
    entries: Seq<u8>,
    tag: TagType,
)
    ensures
        ({
            let s = be_bytes(size) + seq![0x15u8] + be_bytes(team_num) + seq![unknown] + entries;
            &&& tcp_missing_field(s) is None
            &&& be16(s, 0) == size
            &&& s[2] == 0x15
            &&& tag_matches(s, tag) <==> (tag matches TagType::UsageReport(u) && u.team_num
                == team_num && u.unknown == unknown && u.entry_data.data@ == entries)
        }),
{
    let s = be_bytes(size) + seq![0x15u8] + be_bytes(team_num) + seq![unknown] + entries;
    let tail = seq![0x15u8] + be_bytes(team_num) + seq![unknown] + entries;
    assert(s =~= be_bytes(size) + tail);
    lemma_be16_reads_back(size, tail);
    assert(s.skip(3) =~= be_bytes(team_num) + (seq![unknown] + entries));
    lemma_be16_reads_back(team_num, seq![unknown] + entries);
    assert(s[3] == s.skip(3)[0] && s[4] == s.skip(3)[1]);
    assert(s[5] == unknown);
    assert(s.skip(6) =~= entries);
}

/// Reads one driverstation TCP message.
pub fn parse_driverstation_tcp(data: Vec<u8>) -> (r: Result<FromDS, CommsError>)
    ensures
        match tcp_missing_field(data@) {
            Some(field) => r == Err::<FromDS, CommsError>(CommsError::MissingField(field)),
            None => r matches Ok(p) && tcp_packet_matches(data@, p),
        },
{
    let ghost s = data@;
    let mut data = data;
    let size = match safe_pop_u16(&mut data) {
        Ok(v) => v,
        Err(_) => return Err(CommsError::MissingField(PacketField::Size)),
    };
    let tag_id = match safe_pop(&mut data) {
        Ok(v) => v,
        Err(_) => return Err(CommsError::MissingField(PacketField::TagId)),
    };
    assert(data@ =~= s.skip(3));
    let mut tag_type = TagType::DSPing(DSPing {});
    if tag_id == 0x15 {
        let team_num = match safe_pop_u16(&mut data) {
            Ok(v) => v,
            Err(_) => return Err(CommsError::MissingField(PacketField::UsageReportTeamNum)),
        };
        let unknown = match safe_pop(&mut data) {
            Ok(v) => v,
            Err(_) => return Err(CommsError::MissingField(PacketField::UsageReportUnknown)),
        };
        assert(data@ =~= s.skip(6));
        tag_type = TagType::UsageReport(
            UsageReport { team_num, unknown, entry_data: EntryData { data: data } },
        );
    } else if tag_id == 0x16 {
        let trip_time = match safe_pop(&mut data) {
            Ok(v) => v,
            Err(_) => return Err(CommsError::MissingField(PacketField::LogDataTripTime)),
        };
        assert(data@ =~= s.skip(4));
        let lost_packets = match safe_pop(&mut data) {
            Ok(v) => v,
            Err(_) => return Err(CommsError::MissingField(PacketField::LogDataLostPackets)),
        };
        assert(data@ =~= s.skip(5));
        let battery_xx = match safe_pop(&mut data) {
            Ok(v) => v as u16,
            Err(_) => return Err(CommsError::MissingField(PacketField::LogDataBatteryXx)),
        };
        assert(data@ =~= s.skip(6));
        let battery_yy = match safe_pop(&mut data) {
            Ok(v) => v as u16,
            Err(_) => return Err(CommsError::MissingField(PacketField::LogDataBatteryYy)),
        };
        assert(data@ =~= s.skip(7));
        let robot_status = match safe_pop(&mut data) {
            Ok(v) => v,
            Err(_) => return Err(CommsError::MissingField(PacketField::LogDataRobotStatus)),
        };
        assert(data@ =~= s.skip(8));
        let can = match safe_pop(&mut data) {
            Ok(v) => v,
            Err(_) => return Err(CommsError::MissingField(PacketField::LogDataCan)),
        };
        assert(data@ =~= s.skip(9));
        let signal_db = match safe_pop(&mut data) {
            Ok(v) => v,
            Err(_) => return Err(CommsError::MissingField(PacketField::LogDataSignalDb)),
        };
        assert(data@ =~= s.skip(10));
        let bandwidth = match safe_pop_u16(&mut data) {
            Ok(v) => v,
            Err(_) => return Err(CommsError::MissingField(PacketField::LogDataBandwidth)),
        };
        let battery = (battery_xx + battery_yy) / 256;
        tag_type = TagType::LogData(
            LogData { trip_time, lost_packets, battery, robot_status, can, signal_db, bandwidth },
        );
    } else if tag_id == 0x18 {
        let team_number = match safe_pop_u16(&mut data) {
            Ok(v) => v,
            Err(_) => return Err(CommsError::MissingField(PacketField::TeamNumber)),
        };
        tag_type = TagType::TeamNumber(TeamNumber { team_number });
    }
    Ok(FromDS { size, tag_id, tag: tag_type })
}

/// What a driverstation's TCP connection does after one message.
#[derive(Clone, Copy, Debug, PartialEq, Eq, Structural)]
pub enum ListenerAction {
    /// Connect this team and start controlling its driverstation.
    RegisterTeam(u16),
    /// Nothing to do for this message.
    Ignore,
}

/// What a connection does after message `s`, having registered a team
/// already or not.
pub open spec fn spec_listener_step(team_number_received: bool, s: Seq<u8>) -> (bool, ListenerAction) {
    if !team_number_received && is_team_number_message(s) {
        (true, ListenerAction::RegisterTeam(be16(s, 3) as u16))
    } else {
        (team_number_received, ListenerAction::Ignore)
    }
}

/// Message `s` is a well-formed team-number message.
pub open spec fn is_team_number_message(s: Seq<u8>) -> bool {
    tcp_missing_field(s) is None && s[2] == 0x18
}

/// The team of the first well-formed team-number message in `messages`.
pub open spec fn first_team_number(messages: Seq<Seq<u8>>) -> Option<u16>
    decreases messages.len(),
{
    if messages.len() == 0 {
        None
    } else if is_team_number_message(messages[0]) {
        Some(be16(messages[0], 3) as u16)
    } else {
        first_team_number(messages.drop_first())
    }
}

/// A fresh connection registers a team exactly on a message that reads as a
/// team-number message, and the team it registers is the one the reader
/// reads; the size bytes play no part.  A connection that has registered
/// a team ignores every message.
pub proof fn lemma_listener_registers_team_messages(s: Seq<u8>, x: u8, y: u8)
    ensures
        (tcp_missing_field(s) is None && s[2] == 0x18) ==> spec_listener_step(false, s) == (
            true,
            ListenerAction::RegisterTeam(be16(s, 3) as u16),
        ),
        !(tcp_missing_field(s) is None && s[2] == 0x18) ==> spec_listener_step(false, s) == (
            false,
            ListenerAction::Ignore,
        ),
        spec_listener_step(true, s) == (true, ListenerAction::Ignore),
        s.len() >= 2 ==> spec_listener_step(false, s.update(0, x).update(1, y))
            == spec_listener_step(false, s),
{
    if s.len() >= 2 {
        let s2 = s.update(0, x).update(1, y);
        assert(s2.len() == s.len());
        if s.len() >= 3 {
            assert(s2[2] == s[2]);
            if s.len() >= 5 {
                assert(s2[3] == s[3] && s2[4] == s[4]);
            }
            if s.len() >= 12 {
                assert(s2[10] == s[10] && s2[11] == s[11]);
            }
        }
    }
}

/// The teams a connection registers, in order, while reading `messages` in
/// turn.
pub open spec fn registered_teams(team_number_received: bool, messages: Seq<Seq<u8>>) -> Seq<u16>
    decreases messages.len(),
{
    if messages.len() == 0 {
        Seq::empty()
    } else {
        let (received, action) = spec_listener_step(team_number_received, messages[0]);
        let rest = registered_teams(received, messages.drop_first());
        match action {
            ListenerAction::RegisterTeam(t) => seq![t] + rest,
            ListenerAction::Ignore => rest,
        }
    }
}

/// Whatever a driverstation sends, a fresh connection registers exactly one
/// team if some message is a well-formed team-number message, namely the
/// team of the first such message, and none otherwise; a connection that
/// has already registered a team registers no other.
pub proof fn lemma_one_team_per_connection(team_number_received: bool, messages: Seq<Seq<u8>>)
    ensures
        team_number_received ==> registered_teams(team_number_received, messages)
            == Seq::<u16>::empty(),
        !team_number_received ==> registered_teams(team_number_received, messages) == match
            first_team_number(messages) {
            Some(t) => seq![t],
            None => Seq::<u16>::empty(),
        },
    decreases messages.len(),
{
    if messages.len() > 0 {
        let (received, action) = spec_listener_step(team_number_received, messages[0]);
        lemma_one_team_per_connection(received, messages.drop_first());
        lemma_one_team_per_connection(true, messages.drop_first());
        if !team_number_received && is_team_number_message(messages[0]) {
            assert(seq![be16(messages[0], 3) as u16] + Seq::<u16>::empty() =~= seq![
                be16(messages[0], 3) as u16,
            ]);
        }
    }
}

/// Handles one message on a driverstation's TCP connection.  The first
/// well-formed team-number message registers its team; every later one, and
/// every other message, is ignored.  Returns whether a team has now been
/// registered on this connection, and what to do.
pub fn on_driverstation_message(team_number_received: bool, message: Vec<u8>) -> (r: (
    bool,
    ListenerAction,
))
    ensures
        r == spec_listener_step(team_number_received, message@),
{
    match parse_driverstation_tcp(message) {
        Ok(packet) => match packet.tag {
            TagType::TeamNumber(team_number) => {
                if !team_number_received {
                    (true, ListenerAction::RegisterTeam(team_number.team_number))
                } else {
                    (team_number_received, ListenerAction::Ignore)
                }
            },
            _ => (team_number_received, ListenerAction::Ignore),
        },
        Err(_) => (team_number_received, ListenerAction::Ignore),
    }
}

impl TagType {
    /// The name of the tag, with the team for a team-number tag.
    pub open spec fn spec_name(&self) -> Seq<char> {
        match self {
            TagType::Version(_) => "Version"@,
            TagType::UsageReport(_) => "Usage Report"@,
            TagType::LogData(_) => "Log Data"@,
            TagType::ErrorEventData(_) => "Error and Event Data"@,
            TagType::TeamNumber(t) => "Team Number "@ + decimal(t.team_number as nat),
            TagType::DSPing(_) => "Driverstation Ping"@,
            TagType::ChallengeResponse(_) => "Challenge Response"@,
        }
    }

    /// The name of the tag, with the team for a team-number tag.
    pub fn to_string(&self) -> (s: String)
        ensures
            s@ == self.spec_name(),
    {
        match self {
            TagType::Version(_) => String::from_str("Version"),
            TagType::UsageReport(_) => String::from_str("Usage Report"),
            TagType::LogData(_) => String::from_str("Log Data"),
            TagType::ErrorEventData(_) => String::from_str("Error and Event Data"),
            TagType::TeamNumber(t) => {
                let mut s = String::from_str("Team Number ");
                push_decimal(&mut s, t.team_number);
                s
            },
            TagType::DSPing(_) => String::from_str("Driverstation Ping"),
            TagType::ChallengeResponse(_) => String::from_str("Challenge Response"),
        }
    }
}

} // verus!
