# home_fms

A field management library for FIRST robotics driverstations, with its
behaviour stated in contracts and proved.

- `src/driverstation_comms/tcp.rs` reads the TCP messages a driverstation
  sends (size, tag, usage reports, log data, team numbers) and decides what a
  driverstation's connection does with each one.
- `src/driverstation_comms/udp.rs` builds the 23-byte UDP control packet.
- `src/driverstation_comms/driverstation_connection.rs` holds a
  driverstation's state, the team-number addressing scheme (`10.ZXX.YY.5`)
  and one turn of a driverstation's control loop.
- `src/driverstation_comms/fms_commands.rs` holds the field state (`FMS`),
  its operations and the commands that drive it; `fms.rs` re-exports them.
- `src/driverstation_comms/decimal.rs` and `error.rs` render numbers and
  error texts.
- `app/` is the server: sockets, the command-queue task, timers and the HTTP
  status endpoint, all calling into the library for every decision.
