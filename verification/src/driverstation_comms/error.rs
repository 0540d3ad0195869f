//! Errors reported while reading driverstation messages.
use vstd::prelude::*;

use super::decimal::{decimal, push_decimal};

verus! {

/// The field of a driverstation TCP message that could not be read because
/// the message ended before it.
#[derive(Clone, Copy, Debug, PartialEq, Eq, Structural)]
pub enum PacketField {
    Size,
    TagId,
    UsageReportTeamNum,
    UsageReportUnknown,
    LogDataTripTime,
    LogDataLostPackets,
    LogDataBatteryXx,
    LogDataBatteryYy,
    LogDataRobotStatus,
    LogDataCan,
    LogDataSignalDb,
    LogDataBandwidth,
    TeamNumber,
}

/// What went wrong while reading a message.
#[derive(Debug)]
pub enum CommsError {
    /// A byte was needed but none was left.
    PacketTooShort,
    /// A byte was read but lies outside `[min, max]`.
    FieldOutOfRange { field_name: String, value: u8, min: u8, max: u8 },
    /// The message ended before the given field.
    MissingField(PacketField),
}

impl PacketField {
    /// The description of the field that could not be read.
    pub open spec fn spec_description(self) -> Seq<char> {
        match self {
            PacketField::Size => "TCP Parser: Could not parse size; expected two bytes"@,
            PacketField::TagId => "TCP Parser: Could not parse tag_id; expected one byte"@,
            PacketField::UsageReportTeamNum => "UsageReport: failed to parse team_num, 2 bytes required"@,
            PacketField::UsageReportUnknown => "UsageReport: failed to parse unknown value, should be one byte in theory"@,
            PacketField::LogDataTripTime => "LogData: Could not parse trip_time, expected one byte"@,
            PacketField::LogDataLostPackets => "LogData: Could not parse lost_packets, expected one byte"@,
            PacketField::LogDataBatteryXx => "LogData: Could not parse battery_xx, expected one byte"@,
            PacketField::LogDataBatteryYy => "LogData: Could not parse battery_yy, expected one byte"@,
            PacketField::LogDataRobotStatus => "LogData: Could not parse robot_status, expected one byte"@,
            PacketField::LogDataCan => "LogData: Could not parse can, expected one byte"@,
            PacketField::LogDataSignalDb => "LogData: Could not parse signal_db, expected one byte"@,
            PacketField::LogDataBandwidth => "LogData: could not parse bandwith, expected two bytes"@,
            PacketField::TeamNumber => "TeamNumber: Could not parse team_number; expected two bytes"@,
        }
    }

    /// The description of the field that could not be read.
    pub fn description(&self) -> (s: &'static str)
        ensures
            s@ == self.spec_description(),
    {
        match self {
            PacketField::Size => "TCP Parser: Could not parse size; expected two bytes",
            PacketField::TagId => "TCP Parser: Could not parse tag_id; expected one byte",
            PacketField::UsageReportTeamNum => "UsageReport: failed to parse team_num, 2 bytes required",
            PacketField::UsageReportUnknown => "UsageReport: failed to parse unknown value, should be one byte in theory",
            PacketField::LogDataTripTime => "LogData: Could not parse trip_time, expected one byte",
            PacketField::LogDataLostPackets => "LogData: Could not parse lost_packets, expected one byte",
            PacketField::LogDataBatteryXx => "LogData: Could not parse battery_xx, expected one byte",
            PacketField::LogDataBatteryYy => "LogData: Could not parse battery_yy, expected one byte",
            PacketField::LogDataRobotStatus => "LogData: Could not parse robot_status, expected one byte",
            PacketField::LogDataCan => "LogData: Could not parse can, expected one byte",
            PacketField::LogDataSignalDb => "LogData: Could not parse signal_db, expected one byte",
            PacketField::LogDataBandwidth => "LogData: could not parse bandwith, expected two bytes",
            PacketField::TeamNumber => "TeamNumber: Could not parse team_number; expected two bytes",
        }
    }
}

impl CommsError {
    /// The text of the error.
    pub open spec fn spec_message(&self) -> Seq<char> {
        match self {
            CommsError::PacketTooShort => "Packet too short: expected at least 1 more byte, got 0"@,
            CommsError::FieldOutOfRange { field_name, value, min, max } =>
                "Field "@ + field_name@ + " value "@ + decimal(*value as nat) + " out of range ["@
                    + decimal(*min as nat) + ", "@ + decimal(*max as nat) + "]"@,
            CommsError::MissingField(field) => field.spec_description(),
        }
    }

    /// The text of the error.
    pub fn to_string(&self) -> (s: String)
        ensures
            s@ == self.spec_message(),
    {
        match self {
            CommsError::PacketTooShort => String::from_str(
                "Packet too short: expected at least 1 more byte, got 0",
            ),
            CommsError::FieldOutOfRange { field_name, value, min, max } => {
                let mut s = String::from_str("Field ");
                s.append(field_name.as_str());
                s.append(" value ");
                push_decimal(&mut s, *value as u16);
                s.append(" out of range [");
                push_decimal(&mut s, *min as u16);
                s.append(", ");
                push_decimal(&mut s, *max as u16);
                s.append("]");
                s
            },
            CommsError::MissingField(field) => String::from_str(field.description()),
        }
    }
}

} // verus!
