//! Field management for FIRST robotics driverstations: the TCP messages a
//! driverstation sends, the UDP control packets it is sent, the team-number
//! addressing scheme, and the state of the field (which teams are connected,
//! which are in the match, and how each robot is being controlled).
pub mod driverstation_comms;
