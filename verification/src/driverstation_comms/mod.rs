pub mod decimal;
pub mod driverstation_connection;
pub mod error;
pub mod fms;
pub mod fms_commands;
pub mod tcp;
pub mod udp;
