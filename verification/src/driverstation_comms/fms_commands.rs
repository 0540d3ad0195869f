//! The state of the field, and the commands that change or query it.
//!
//! `FMS` holds every connected driverstation and the teams allowed into the
//! current match.  While no match is configured (no allowed teams) any team
//! may connect; once one is, only the teams in it may.  Each team has at most
//! one driverstation.  Commands are applied one at a time by `FMS::process`.
use vstd::prelude::*;

use super::driverstation_connection::{new_connection, DSControl, DriverstationConnection};
use super::udp::ControlMode;

verus! {

// ============================================================================
// The model
// ============================================================================

/// `ds` holds a driverstation of team `t`.
pub open spec fn has_team(ds: Seq<DriverstationConnection>, t: u16) -> bool {
    exists|i: int| 0 <= i < ds.len() && #[trigger] ds[i].team_number == t
}

/// `i` is the first position in `ds` of a driverstation of team `t`.
pub open spec fn is_first_team_index(ds: Seq<DriverstationConnection>, t: u16, i: int) -> bool {
    &&& 0 <= i < ds.len()
    &&& ds[i].team_number == t
    &&& forall|j: int| 0 <= j < i ==> #[trigger] ds[j].team_number != t
}

/// The first position of team `t` in `ds`, or `-1` when it is not there.
pub open spec fn first_team_index(ds: Seq<DriverstationConnection>, t: u16) -> int {
    if exists|i: int| is_first_team_index(ds, t, i) {
        choose|i: int| is_first_team_index(ds, t, i)
    } else {
        -1
    }
}

/// No two driverstations in `ds` belong to the same team.
pub open spec fn teams_unique(ds: Seq<DriverstationConnection>) -> bool {
    forall|i: int, j: int|
        0 <= i < j < ds.len() ==> #[trigger] ds[i].team_number != #[trigger] ds[j].team_number
}

/// The team numbers of `ds`, in order.
pub open spec fn team_numbers(ds: Seq<DriverstationConnection>) -> Seq<u16> {
    ds.map_values(|c: DriverstationConnection| c.team_number)
}

/// Team `t` may connect: no match is configured, or `t` is in it.
pub open spec fn admits(allowed: Seq<u16>, t: u16) -> bool {
    allowed.len() == 0 || allowed.contains(t)
}

/// The driverstations after team `t` connects.
pub open spec fn spec_add_ds(
    ds: Seq<DriverstationConnection>,
    allowed: Seq<u16>,
    t: u16,
) -> Seq<DriverstationConnection> {
    if admits(allowed, t) && !has_team(ds, t) {
        ds.push(new_connection(t))
    } else {
        ds
    }
}

/// The driverstations after team `t` disconnects.
pub open spec fn spec_remove_ds(ds: Seq<DriverstationConnection>, t: u16) -> Seq<
    DriverstationConnection,
> {
    if first_team_index(ds, t) >= 0 {
        ds.remove(first_team_index(ds, t))
    } else {
        ds
    }
}

/// Driverstation `c` placed at `station` under full control of the field.
pub open spec fn placed_in_match(c: DriverstationConnection, station: u8) -> DriverstationConnection {
    DriverstationConnection { alliance_station: station, ds_control: DSControl::FMSFull, ..c }
}

/// The driverstations after team `t` is put in the match at `station`.
pub open spec fn spec_add_to_match(ds: Seq<DriverstationConnection>, t: u16, station: u8) -> Seq<
    DriverstationConnection,
> {
    if first_team_index(ds, t) >= 0 {
        ds.update(first_team_index(ds, t), placed_in_match(ds[first_team_index(ds, t)], station))
    } else {
        ds.push(placed_in_match(new_connection(t), station))
    }
}

/// Driverstation `c` with control mode `[period, enabled]`.
pub open spec fn with_control_mode(
    c: DriverstationConnection,
    period: ControlMode,
    enabled: ControlMode,
) -> DriverstationConnection {
    DriverstationConnection { control_mode: [period, enabled], ..c }
}

/// The driverstations after team `t`'s control mode becomes `[period, enabled]`.
pub open spec fn spec_set_modes(
    ds: Seq<DriverstationConnection>,
    t: u16,
    period: ControlMode,
    enabled: ControlMode,
) -> Seq<DriverstationConnection> {
    if first_team_index(ds, t) >= 0 {
        ds.update(
            first_team_index(ds, t),
            with_control_mode(ds[first_team_index(ds, t)], period, enabled),
        )
    } else {
        ds
    }
}

/// The driverstations after team `t`'s enable state becomes `enabled`,
/// keeping its period.
pub open spec fn spec_set_enabled(ds: Seq<DriverstationConnection>, t: u16, enabled: ControlMode) -> Seq<
    DriverstationConnection,
> {
    if first_team_index(ds, t) >= 0 {
        spec_set_modes(ds, t, ds[first_team_index(ds, t)].control_mode@[0], enabled)
    } else {
        ds
    }
}

/// Driverstation `c` no longer fully controlled by the match.
pub open spec fn released_from_match(c: DriverstationConnection) -> DriverstationConnection {
    DriverstationConnection { ds_control: DSControl::FMSPartial, ..c }
}

/// The driverstations after the match is cleared.
pub open spec fn spec_clear_match(ds: Seq<DriverstationConnection>) -> Seq<DriverstationConnection> {
    ds.map_values(|c: DriverstationConnection| released_from_match(c))
}

/// The `[period, enable state]` pair that a command sets.
pub open spec fn command_modes(mode: ControlModeCommand) -> (ControlMode, ControlMode) {
    match mode {
        ControlModeCommand::TeleopEnabled => (ControlMode::Teleop, ControlMode::Enabled),
        ControlModeCommand::TeleopDisabled => (ControlMode::Teleop, ControlMode::Disabled),
        ControlModeCommand::AutonomousEnabled => (ControlMode::Autonomous, ControlMode::Enabled),
        ControlModeCommand::AutonomousDisabled => (ControlMode::Autonomous, ControlMode::Disabled),
        ControlModeCommand::TestEnabled => (ControlMode::Test, ControlMode::Enabled),
        ControlModeCommand::TestDisabled => (ControlMode::Test, ControlMode::Disabled),
        ControlModeCommand::EStop => (ControlMode::EStop, ControlMode::Disabled),
        ControlModeCommand::AStop => (ControlMode::AStop, ControlMode::Disabled),
    }
}

// ============================================================================
// Lemmas on the model
// ============================================================================

proof fn lemma_first_team_index_is(ds: Seq<DriverstationConnection>, t: u16, i: int)
    requires
        is_first_team_index(ds, t, i),
    ensures
        first_team_index(ds, t) == i,
{
    let k = choose|k: int| is_first_team_index(ds, t, k);
    if k < i {
        assert(ds[k].team_number != t);
    } else if k > i {
        assert(ds[i].team_number != t);
    }
}

proof fn lemma_first_team_index_absent(ds: Seq<DriverstationConnection>, t: u16)
    requires
        !has_team(ds, t),
    ensures
        first_team_index(ds, t) == -1,
{
    if exists|i: int| is_first_team_index(ds, t, i) {
        let k = choose|k: int| is_first_team_index(ds, t, k);
        assert(ds[k].team_number == t);
    }
}

proof fn lemma_first_team_index_present(ds: Seq<DriverstationConnection>, t: u16)
    requires
        has_team(ds, t),
    ensures
        is_first_team_index(ds, t, first_team_index(ds, t)),
    decreases ds.len(),
{
    let w = choose|w: int| 0 <= w < ds.len() && #[trigger] ds[w].team_number == t;
    if ds[0].team_number == t {
        lemma_first_team_index_is(ds, t, 0);
    } else {
        let rest = ds.drop_first();
        assert(rest[w - 1].team_number == t);
        lemma_first_team_index_present(rest, t);
        let k = first_team_index(rest, t);
        assert forall|j: int| 0 <= j < k + 1 implies #[trigger] ds[j].team_number != t by {
            if j > 0 {
                assert(ds[j] == rest[j - 1]);
            }
        }
        lemma_first_team_index_is(ds, t, k + 1);
    }
}

/// Where the first driverstation of a team is, in terms of `has_team`.
proof fn lemma_first_team_index(ds: Seq<DriverstationConnection>, t: u16)
    ensures
        has_team(ds, t) <==> first_team_index(ds, t) >= 0,
        has_team(ds, t) ==> is_first_team_index(ds, t, first_team_index(ds, t)),
        !has_team(ds, t) ==> first_team_index(ds, t) == -1,
{
    if has_team(ds, t) {
        lemma_first_team_index_present(ds, t);
    } else {
        lemma_first_team_index_absent(ds, t);
    }
}

proof fn lemma_update_keeps_teams(
    ds: Seq<DriverstationConnection>,
    i: int,
    c: DriverstationConnection,
)
    requires
        0 <= i < ds.len(),
        c.team_number == ds[i].team_number,
    ensures
        team_numbers(ds.update(i, c)) == team_numbers(ds),
        teams_unique(ds) ==> teams_unique(ds.update(i, c)),
{
    assert(team_numbers(ds.update(i, c)) =~= team_numbers(ds));
    if teams_unique(ds) {
        let u = ds.update(i, c);
        assert forall|a: int, b: int| 0 <= a < b < u.len() implies #[trigger] u[a].team_number
            != #[trigger] u[b].team_number by {
            assert(u[a].team_number == ds[a].team_number);
            assert(u[b].team_number == ds[b].team_number);
        }
    }
}

proof fn lemma_push_keeps_unique(ds: Seq<DriverstationConnection>, c: DriverstationConnection)
    requires
        teams_unique(ds),
        !has_team(ds, c.team_number),
    ensures
        teams_unique(ds.push(c)),
{
    let u = ds.push(c);
    assert forall|a: int, b: int| 0 <= a < b < u.len() implies #[trigger] u[a].team_number
        != #[trigger] u[b].team_number by {
        if b == ds.len() {
            assert(u[a] == ds[a]);
        } else {
            assert(u[a] == ds[a] && u[b] == ds[b]);
        }
    }
}

proof fn lemma_remove_keeps_unique(ds: Seq<DriverstationConnection>, i: int)
    requires
        teams_unique(ds),
        0 <= i < ds.len(),
    ensures
        teams_unique(ds.remove(i)),
        !has_team(ds.remove(i), ds[i].team_number),
{
    let u = ds.remove(i);
    assert forall|a: int, b: int| 0 <= a < b < u.len() implies #[trigger] u[a].team_number
        != #[trigger] u[b].team_number by {
        let a2 = if a < i { a } else { a + 1 };
        let b2 = if b < i { b } else { b + 1 };
        assert(u[a] == ds[a2] && u[b] == ds[b2]);
    }
    if has_team(u, ds[i].team_number) {
        let w = choose|w: int| 0 <= w < u.len() && #[trigger] u[w].team_number == ds[i].team_number;
        let w2 = if w < i { w } else { w + 1 };
        assert(u[w] == ds[w2]);
    }
}

// ============================================================================
// Laws
// ============================================================================

/// Connecting a team twice is connecting it once: the second request finds
/// the team already there (or still not admitted) and changes nothing.
pub proof fn lemma_add_ds_idempotent(ds: Seq<DriverstationConnection>, allowed: Seq<u16>, t: u16)
    ensures
        spec_add_ds(spec_add_ds(ds, allowed, t), allowed, t) == spec_add_ds(ds, allowed, t),
{
    if admits(allowed, t) && !has_team(ds, t) {
        let d1 = ds.push(new_connection(t));
        assert(d1[ds.len() as int].team_number == t);
    }
}

/// Disconnecting a team undoes connecting it, when it was not connected
/// before.
pub proof fn lemma_remove_undoes_add(ds: Seq<DriverstationConnection>, allowed: Seq<u16>, t: u16)
    requires
        !has_team(ds, t),
    ensures
        spec_remove_ds(spec_add_ds(ds, allowed, t), t) == ds,
{
    if admits(allowed, t) {
        let d1 = ds.push(new_connection(t));
        assert(is_first_team_index(d1, t, ds.len() as int));
        lemma_first_team_index_is(d1, t, ds.len() as int);
        assert(d1.remove(ds.len() as int) =~= ds);
    } else {
        lemma_first_team_index_absent(ds, t);
    }
}

/// Once a match is configured, a team outside it cannot connect.
pub proof fn lemma_match_keeps_other_teams_out(
    ds: Seq<DriverstationConnection>,
    allowed: Seq<u16>,
    t: u16,
)
    requires
        allowed.len() > 0,
        !allowed.contains(t),
    ensures
        spec_add_ds(ds, allowed, t) == ds,
{
}

/// After a team is put in the match, its driverstation is connected, sits at
/// the given station and is fully controlled by the field; every other
/// driverstation is as it was.
pub proof fn lemma_add_to_match_places_team(ds: Seq<DriverstationConnection>, t: u16, station: u8)
    ensures
        ({
            let r = spec_add_to_match(ds, t, station);
            let i = first_team_index(r, t);
            &&& i >= 0
            &&& r[i].team_number == t
            &&& r[i].alliance_station == station
            &&& r[i].ds_control == DSControl::FMSFull
            &&& forall|j: int| 0 <= j < ds.len() && j != i ==> #[trigger] r[j] == ds[j]
        }),
{
    lemma_first_team_index(ds, t);
    let r = spec_add_to_match(ds, t, station);
    if has_team(ds, t) {
        let i = first_team_index(ds, t);
        assert(is_first_team_index(r, t, i));
        lemma_first_team_index_is(r, t, i);
    } else {
        assert(is_first_team_index(r, t, ds.len() as int));
        lemma_first_team_index_is(r, t, ds.len() as int);
    }
}

/// Clearing the match keeps every connection, in order, with its team,
/// station and control mode; only the field's control over it drops to
/// partial.
pub proof fn lemma_clear_match_keeps_connections(ds: Seq<DriverstationConnection>)
    ensures
        spec_clear_match(ds).len() == ds.len(),
        team_numbers(spec_clear_match(ds)) == team_numbers(ds),
        forall|i: int|
            0 <= i < ds.len() ==> {
                &&& #[trigger] spec_clear_match(ds)[i].alliance_station == ds[i].alliance_station
                &&& spec_clear_match(ds)[i].control_mode == ds[i].control_mode
                &&& spec_clear_match(ds)[i].ds_control == DSControl::FMSPartial
            },
{
    assert(team_numbers(spec_clear_match(ds)) =~= team_numbers(ds));
}

/// Enabling or disabling a robot keeps its period, and enabling then
/// disabling leaves the robot disabled in the period it had.
pub proof fn lemma_enable_disable_keep_period(ds: Seq<DriverstationConnection>, t: u16)
    requires
        has_team(ds, t),
    ensures
        ({
            let i = first_team_index(ds, t);
            let on = spec_set_enabled(ds, t, ControlMode::Enabled);
            let off = spec_set_enabled(on, t, ControlMode::Disabled);
            &&& first_team_index(on, t) == i
            &&& on[i].control_mode@ == seq![ds[i].control_mode@[0], ControlMode::Enabled]
            &&& off[i].control_mode@ == seq![ds[i].control_mode@[0], ControlMode::Disabled]
            &&& off.len() == ds.len()
        }),
{
    lemma_first_team_index(ds, t);
    let i = first_team_index(ds, t);
    let on = spec_set_enabled(ds, t, ControlMode::Enabled);
    assert(is_first_team_index(on, t, i));
    lemma_first_team_index_is(on, t, i);
    let off = spec_set_enabled(on, t, ControlMode::Disabled);
    assert(on[i].control_mode@ =~= seq![ds[i].control_mode@[0], ControlMode::Enabled]);
    assert(off[i].control_mode@ =~= seq![ds[i].control_mode@[0], ControlMode::Disabled]);
}

/// Setting a team's control mode gives its driverstation exactly the
/// requested `[period, enabled]` pair, whatever mode it had before, and
/// leaves every other field and every other driverstation alone.
pub proof fn lemma_set_modes_sets_exactly(
    ds: Seq<DriverstationConnection>,
    t: u16,
    period: ControlMode,
    enabled: ControlMode,
)
    requires
        has_team(ds, t),
    ensures
        ({
            let i = first_team_index(ds, t);
            let r = spec_set_modes(ds, t, period, enabled);
            &&& r.len() == ds.len()
            &&& first_team_index(r, t) == i
            &&& r[i].control_mode@ == seq![period, enabled]
            &&& r[i].team_number == ds[i].team_number
            &&& r[i].alliance_station == ds[i].alliance_station
            &&& r[i].ds_control == ds[i].ds_control
            &&& forall|j: int| 0 <= j < ds.len() && j != i ==> #[trigger] r[j] == ds[j]
        }),
{
    lemma_first_team_index(ds, t);
    let i = first_team_index(ds, t);
    let r = spec_set_modes(ds, t, period, enabled);
    assert(is_first_team_index(r, t, i));
    lemma_first_team_index_is(r, t, i);
    assert(r[i].control_mode@ =~= seq![period, enabled]);
}

/// Each control-mode command names the pair it sets: the three periods
/// enabled or disabled, and the two stops, which always disable the robot.
pub proof fn lemma_command_modes_table()
    ensures
        command_modes(ControlModeCommand::TeleopEnabled) == (ControlMode::Teleop, ControlMode::Enabled),
        command_modes(ControlModeCommand::TeleopDisabled) == (ControlMode::Teleop, ControlMode::Disabled),
        command_modes(ControlModeCommand::AutonomousEnabled) == (ControlMode::Autonomous, ControlMode::Enabled),
        command_modes(ControlModeCommand::AutonomousDisabled) == (ControlMode::Autonomous, ControlMode::Disabled),
        command_modes(ControlModeCommand::TestEnabled) == (ControlMode::Test, ControlMode::Enabled),
        command_modes(ControlModeCommand::TestDisabled) == (ControlMode::Test, ControlMode::Disabled),
        command_modes(ControlModeCommand::EStop) == (ControlMode::EStop, ControlMode::Disabled),
        command_modes(ControlModeCommand::AStop) == (ControlMode::AStop, ControlMode::Disabled),
        forall|c: ControlModeCommand|
            (c == ControlModeCommand::EStop || c == ControlModeCommand::AStop) ==> #[trigger] command_modes(c).1
                == ControlMode::Disabled,
{
}

/// Putting a team in the match changes only its station and control level:
/// its control mode is the one it had, or a fresh connection's
/// `[Teleop, Disabled]` when it was not connected, so it is never enabled by
/// being placed.
pub proof fn lemma_add_to_match_keeps_control_mode(
    ds: Seq<DriverstationConnection>,
    t: u16,
    station: u8,
)
    ensures
        ({
            let r = spec_add_to_match(ds, t, station);
            let i = first_team_index(r, t);
            &&& has_team(ds, t) ==> i == first_team_index(ds, t) && r.len() == ds.len()
                && r[i].control_mode == ds[i].control_mode
            &&& !has_team(ds, t) ==> i == ds.len() && r.len() == ds.len() + 1
                && r[i].control_mode@ == seq![ControlMode::Teleop, ControlMode::Disabled]
        }),
{
    lemma_first_team_index(ds, t);
    let r = spec_add_to_match(ds, t, station);
    if has_team(ds, t) {
        let i = first_team_index(ds, t);
        assert(is_first_team_index(r, t, i));
        lemma_first_team_index_is(r, t, i);
    } else {
        assert(is_first_team_index(r, t, ds.len() as int));
        lemma_first_team_index_is(r, t, ds.len() as int);
        assert(r[ds.len() as int].control_mode@ =~= seq![ControlMode::Teleop, ControlMode::Disabled]);
    }
}

/// Connecting a team that is already connected changes nothing; connecting
/// one that is not adds a single fresh driverstation at the end (when the
/// team is admitted) and keeps every existing one.
pub proof fn lemma_add_ds_connected_team_unchanged(
    ds: Seq<DriverstationConnection>,
    allowed: Seq<u16>,
    t: u16,
)
    ensures
        has_team(ds, t) ==> spec_add_ds(ds, allowed, t) == ds,
        !has_team(ds, t) && (allowed.len() == 0 || allowed.contains(t)) ==> ({
            let r = spec_add_ds(ds, allowed, t);
            &&& r.len() == ds.len() + 1
            &&& r.take(ds.len() as int) == ds
            &&& r[ds.len() as int].team_number == t
            &&& r[ds.len() as int].alliance_station == 3
            &&& r[ds.len() as int].ds_control == DSControl::FMSPartial
            &&& r[ds.len() as int].control_mode@ == seq![ControlMode::Teleop, ControlMode::Disabled]
        }),
{
    if !has_team(ds, t) && (allowed.len() == 0 || allowed.contains(t)) {
        let r = spec_add_ds(ds, allowed, t);
        assert(r.take(ds.len() as int) =~= ds);
        assert(r[ds.len() as int].control_mode@ =~= seq![ControlMode::Teleop, ControlMode::Disabled]);
    }
}

/// Disconnecting a connected team removes exactly its first driverstation,
/// keeping the others in order; disconnecting a team that is not connected
/// changes nothing.
pub proof fn lemma_remove_ds_removes_that_team(ds: Seq<DriverstationConnection>, t: u16)
    ensures
        !has_team(ds, t) ==> spec_remove_ds(ds, t) == ds,
        has_team(ds, t) ==> ({
            let i = first_team_index(ds, t);
            let r = spec_remove_ds(ds, t);
            &&& 0 <= i < ds.len()
            &&& ds[i].team_number == t
            &&& r.len() == ds.len() - 1
            &&& forall|j: int| 0 <= j < i ==> #[trigger] r[j] == ds[j]
            &&& forall|j: int| i <= j < r.len() ==> #[trigger] r[j] == ds[j + 1]
        }),
{
    lemma_first_team_index(ds, t);
}

/// The teams listed for the field are those of its driverstations, one per
/// driverstation, in order.
pub proof fn lemma_team_numbers_lists_teams(ds: Seq<DriverstationConnection>)
    ensures
        team_numbers(ds).len() == ds.len(),
        forall|i: int| 0 <= i < ds.len() ==> #[trigger] team_numbers(ds)[i] == ds[i].team_number,
        forall|t: u16| team_numbers(ds).contains(t) <==> has_team(ds, t),
{
    assert forall|t: u16| team_numbers(ds).contains(t) <==> has_team(ds, t) by {
        if team_numbers(ds).contains(t) {
            let k = choose|k: int| 0 <= k < team_numbers(ds).len() && team_numbers(ds)[k] == t;
            assert(ds[k].team_number == t);
        }
        if has_team(ds, t) {
            let k = choose|k: int| 0 <= k < ds.len() && #[trigger] ds[k].team_number == t;
            assert(team_numbers(ds)[k] == t);
        }
    }
}

// ============================================================================
// FMS State
// ============================================================================

/// Central field state: every driverstation connection and the teams allowed
/// into the current match.
pub struct FMS {
    pub driverstations: Vec<DriverstationConnection>,
    pub allowed_driverstations: Vec<u16>,
}

impl Default for FMS {
    fn default() -> (f: Self)
        ensures
            f.driverstations@ == Seq::<DriverstationConnection>::empty(),
            f.allowed_driverstations@ == Seq::<u16>::empty(),
            teams_unique(f.driverstations@),
    {
        FMS { driverstations: Vec::new(), allowed_driverstations: Vec::new() }
    }
}

/// `allowed` holds team `t`.
fn contains_team(allowed: &Vec<u16>, t: u16) -> (b: bool)
    ensures
        b == allowed@.contains(t),
{
    let mut i: usize = 0;
    while i < allowed.len()
        invariant
            i <= allowed.len(),
            forall|j: int| 0 <= j < i ==> allowed@[j] != t,
        decreases allowed.len() - i,
    {
        if allowed[i] == t {
            assert(allowed@[i as int] == t);
            return true;
        }
        i = i + 1;
    }
    false
}

impl FMS {
    /// The position of the first driverstation of team `t`.
    fn find_team(&self, t: u16) -> (r: Option<usize>)
        ensures
            match r {
                Some(i) => first_team_index(self.driverstations@, t) == i
                    && is_first_team_index(self.driverstations@, t, i as int),
                None => first_team_index(self.driverstations@, t) == -1 && !has_team(
                    self.driverstations@,
                    t,
                ),
            },
    {
        let mut i: usize = 0;
        while i < self.driverstations.len()
            invariant
                i <= self.driverstations@.len(),
                forall|j: int| 0 <= j < i ==> #[trigger] self.driverstations@[j].team_number != t,
            decreases self.driverstations.len() - i,
        {
            if self.driverstations[i].team_number == t {
                proof {
                    lemma_first_team_index_is(self.driverstations@, t, i as int);
                }
                return Some(i);
            }
            i = i + 1;
        }
        proof {
            lemma_first_team_index_absent(self.driverstations@, t);
        }
        None
    }

    /// Whether a driverstation of team `t` is connected.
    fn has_ds(&self, t: u16) -> (b: bool)
        ensures
            b == has_team(self.driverstations@, t),
    {
        match self.find_team(t) {
            Some(i) => true,
            None => false,
        }
    }

    /// Connects team `team_number`, unless it is already connected or a
    /// match is configured that it is not part of.
    pub fn add_ds(&mut self, team_number: u16)
        ensures
            final(self).driverstations@ == spec_add_ds(
                old(self).driverstations@,
                old(self).allowed_driverstations@,
                team_number,
            ),
            final(self).allowed_driverstations@ == old(self).allowed_driverstations@,
            teams_unique(old(self).driverstations@) ==> teams_unique(final(self).driverstations@),
            has_team(final(self).driverstations@, team_number) <==> has_team(
                old(self).driverstations@,
                team_number,
            ) || admits(old(self).allowed_driverstations@, team_number),
    {
        let admitted = if self.allowed_driverstations.len() == 0 {
            true
        } else {
            contains_team(&self.allowed_driverstations, team_number)
        };
        if admitted && !self.has_ds(team_number) {
            self.driverstations.push(DriverstationConnection::new(team_number));
            proof {
                assert(self.driverstations@[old(self).driverstations@.len() as int].team_number
                    == team_number);
                if teams_unique(old(self).driverstations@) {
                    lemma_push_keeps_unique(old(self).driverstations@, new_connection(team_number));
                }
            }
        }
    }

    /// Disconnects the (first) driverstation of team `team_number`, if any.
    pub fn remove_ds(&mut self, team_number: u16)
        ensures
            final(self).driverstations@ == spec_remove_ds(old(self).driverstations@, team_number),
            final(self).allowed_driverstations@ == old(self).allowed_driverstations@,
            teams_unique(old(self).driverstations@) ==> teams_unique(final(self).driverstations@)
                && !has_team(final(self).driverstations@, team_number),
    {
        if let Some(pos) = self.find_team(team_number) {
            self.driverstations.remove(pos);
            proof {
                if teams_unique(old(self).driverstations@) {
                    lemma_remove_keeps_unique(old(self).driverstations@, pos as int);
                }
            }
        }
    }

    /// Puts team `team_number` in the match at `station`: it is allowed in,
    /// connected if it was not, and placed at `station` under full control.
    pub fn add_to_match(&mut self, team_number: u16, station: u8)
        ensures
            final(self).allowed_driverstations@ == old(self).allowed_driverstations@.push(
                team_number,
            ),
            final(self).driverstations@ == spec_add_to_match(
                old(self).driverstations@,
                team_number,
                station,
            ),
            teams_unique(old(self).driverstations@) ==> teams_unique(final(self).driverstations@),
    {
        let ghost ds0 = self.driverstations@;
        self.allowed_driverstations.push(team_number);
        proof {
            assert(self.allowed_driverstations@.last() == team_number);
            assert(self.allowed_driverstations@.contains(team_number));
            lemma_first_team_index(ds0, team_number);
        }
        self.add_ds(team_number);
        let ghost ds1 = self.driverstations@;
        proof {
            if !has_team(ds0, team_number) {
                assert(ds1 == ds0.push(new_connection(team_number)));
                assert(is_first_team_index(ds1, team_number, ds0.len() as int));
                lemma_first_team_index_is(ds1, team_number, ds0.len() as int);
            } else {
                assert(ds1 == ds0);
            }
        }
        if let Some(ds) = self.get_ds(team_number) {
            ds.alliance_station = station;
            ds.ds_control = DSControl::FMSFull;
        }
        proof {
            let fi = first_team_index(ds1, team_number);
            assert(self.driverstations@ =~= spec_add_to_match(ds0, team_number, station));
            if teams_unique(ds0) {
                lemma_update_keeps_teams(ds1, fi, placed_in_match(ds1[fi], station));
            }
        }
    }

    /// The (first) driverstation of team `team_number`, to change in place.
    pub fn get_ds(&mut self, team_number: u16) -> (r: Option<&mut DriverstationConnection>)
        ensures
            first_team_index(old(self).driverstations@, team_number) < 0 ==> r is None
                && *final(self) == *old(self),
            first_team_index(old(self).driverstations@, team_number) >= 0 ==> (r matches Some(d)
                && *d == old(self).driverstations@[first_team_index(
                old(self).driverstations@,
                team_number,
            )] && final(self).driverstations@ == old(self).driverstations@.update(
                first_team_index(old(self).driverstations@, team_number),
                *final(d),
            ) && final(self).allowed_driverstations@ == old(self).allowed_driverstations@),
    {
        match self.find_team(team_number) {
            Some(i) => Some(&mut self.driverstations[i]),
            None => None,
        }
    }

    /// The (first) driverstation of team `team_number`.
    pub fn get_ds_immutable(&self, team_number: u16) -> (r: Option<&DriverstationConnection>)
        ensures
            first_team_index(self.driverstations@, team_number) < 0 ==> r is None,
            first_team_index(self.driverstations@, team_number) >= 0 ==> (r matches Some(d) && *d
                == self.driverstations@[first_team_index(self.driverstations@, team_number)]),
    {
        match self.find_team(team_number) {
            Some(i) => Some(&self.driverstations[i]),
            None => None,
        }
    }

    /// Enables team `team_number`'s robot, keeping its period.
    pub fn enable_robot(&mut self, team_number: u16)
        ensures
            final(self).driverstations@ == spec_set_enabled(
                old(self).driverstations@,
                team_number,
                ControlMode::Enabled,
            ),
            final(self).allowed_driverstations@ == old(self).allowed_driverstations@,
            teams_unique(old(self).driverstations@) ==> teams_unique(final(self).driverstations@),
    {
        self.set_enabled(team_number, ControlMode::Enabled);
    }

    /// Disables team `team_number`'s robot, keeping its period.
    pub fn disable_robot(&mut self, team_number: u16)
        ensures
            final(self).driverstations@ == spec_set_enabled(
                old(self).driverstations@,
                team_number,
                ControlMode::Disabled,
            ),
            final(self).allowed_driverstations@ == old(self).allowed_driverstations@,
            teams_unique(old(self).driverstations@) ==> teams_unique(final(self).driverstations@),
    {
        self.set_enabled(team_number, ControlMode::Disabled);
    }

    fn set_enabled(&mut self, team_number: u16, enabled: ControlMode)
        ensures
            final(self).driverstations@ == spec_set_enabled(
                old(self).driverstations@,
                team_number,
                enabled,
            ),
            final(self).allowed_driverstations@ == old(self).allowed_driverstations@,
            teams_unique(old(self).driverstations@) ==> teams_unique(final(self).driverstations@),
    {
        let ghost ds0 = self.driverstations@;
        if let Some(ds) = self.get_ds(team_number) {
            ds.control_mode = [ds.control_mode[0], enabled];
        }
        proof {
            let fi = first_team_index(ds0, team_number);
            if fi >= 0 {
                assert(self.driverstations@ =~= spec_set_enabled(ds0, team_number, enabled));
                lemma_update_keeps_teams(
                    ds0,
                    fi,
                    with_control_mode(ds0[fi], ds0[fi].control_mode@[0], enabled),
                );
            }
        }
    }

    /// Sets team `team_number`'s control mode to the pair that `mode` names.
    pub fn set_control_mode(&mut self, team_number: u16, mode: ControlModeCommand)
        ensures
            final(self).driverstations@ == spec_set_modes(
                old(self).driverstations@,
                team_number,
                command_modes(mode).0,
                command_modes(mode).1,
            ),
            final(self).allowed_driverstations@ == old(self).allowed_driverstations@,
            teams_unique(old(self).driverstations@) ==> teams_unique(final(self).driverstations@),
    {
        let ghost ds0 = self.driverstations@;
        if let Some(ds) = self.get_ds(team_number) {
            ds.control_mode = match mode {
                ControlModeCommand::TeleopEnabled => [ControlMode::Teleop, ControlMode::Enabled],
                ControlModeCommand::TeleopDisabled => [ControlMode::Teleop, ControlMode::Disabled],
                ControlModeCommand::AutonomousEnabled => [
                    ControlMode::Autonomous,
                    ControlMode::Enabled,
                ],
                ControlModeCommand::AutonomousDisabled => [
                    ControlMode::Autonomous,
                    ControlMode::Disabled,
                ],
                ControlModeCommand::TestEnabled => [ControlMode::Test, ControlMode::Enabled],
                ControlModeCommand::TestDisabled => [ControlMode::Test, ControlMode::Disabled],
                ControlModeCommand::EStop => [ControlMode::EStop, ControlMode::Disabled],
                ControlModeCommand::AStop => [ControlMode::AStop, ControlMode::Disabled],
            };
        }
        proof {
            let fi = first_team_index(ds0, team_number);
            if fi >= 0 {
                assert(self.driverstations@ =~= spec_set_modes(
                    ds0,
                    team_number,
                    command_modes(mode).0,
                    command_modes(mode).1,
                ));
                lemma_update_keeps_teams(
                    ds0,
                    fi,
                    with_control_mode(ds0[fi], command_modes(mode).0, command_modes(mode).1),
                );
            }
        }
    }

    /// Clears the match configuration: no team is allowed in particular any
    /// more, and every driverstation stays connected under partial control.
    pub fn clear_match(&mut self)
        ensures
            final(self).allowed_driverstations@ == Seq::<u16>::empty(),
            final(self).driverstations@ == spec_clear_match(old(self).driverstations@),
            teams_unique(old(self).driverstations@) ==> teams_unique(final(self).driverstations@),
    {
        self.allowed_driverstations.clear();
        let ghost ds0 = self.driverstations@;
        let mut i: usize = 0;
        while i < self.driverstations.len()
            invariant
                i <= self.driverstations@.len(),
                self.driverstations@.len() == ds0.len(),
                self.allowed_driverstations@ == Seq::<u16>::empty(),
                forall|j: int| 0 <= j < i ==> #[trigger] self.driverstations@[j] == released_from_match(ds0[j]),
                forall|j: int| i <= j < ds0.len() ==> #[trigger] self.driverstations@[j] == ds0[j],
            decreases self.driverstations.len() - i,
        {
            let mut ds = self.driverstations[i];
            ds.ds_control = DSControl::FMSPartial;
            self.driverstations.set(i, ds);
            i = i + 1;
        }
        proof {
            assert(self.driverstations@ =~= spec_clear_match(ds0));
            assert(team_numbers(spec_clear_match(ds0)) =~= team_numbers(ds0));
            if teams_unique(ds0) {
                let u = spec_clear_match(ds0);
                assert forall|a: int, b: int| 0 <= a < b < u.len() implies #[trigger] u[a].team_number
                    != #[trigger] u[b].team_number by {
                    assert(u[a].team_number == ds0[a].team_number);
                    assert(u[b].team_number == ds0[b].team_number);
                }
            }
        }
    }

    /// Resets the whole field state: no driverstations, no match.
    pub fn reset(&mut self)
        ensures
            final(self).driverstations@ == Seq::<DriverstationConnection>::empty(),
            final(self).allowed_driverstations@ == Seq::<u16>::empty(),
    {
        *self = FMS::default();
    }
}

// ============================================================================
// Commands
// ============================================================================

/// Control mode commands for robot operation.
#[derive(Debug, Clone, Copy, PartialEq, Eq, Structural)]
pub enum ControlModeCommand {
    TeleopEnabled,
    TeleopDisabled,
    AutonomousEnabled,
    AutonomousDisabled,
    TestEnabled,
    TestDisabled,
    EStop,
    AStop,
}

/// Commands that the field state processor applies, one at a time.
#[derive(Debug, Clone, Copy)]
pub enum FMSCommand {
    /// Connect a driverstation.
    AddDriverStation { team_number: u16 },
    /// Disconnect a driverstation.
    RemoveDriverStation { team_number: u16 },
    /// Put a team in the match at an alliance station.
    AddToMatch { team_number: u16, station: u8 },
    /// Enable a team's robot.
    EnableRobot { team_number: u16 },
    /// Disable a team's robot.
    DisableRobot { team_number: u16 },
    /// Set a team's control mode.
    SetControlMode { team_number: u16, mode: ControlModeCommand },
    /// Ask for a snapshot of the state.
    GetState,
    /// Ask for a copy of one team's driverstation.
    GetDriverStation { team_number: u16 },
    /// Ask for the teams of all connected driverstations.
    GetAllTeams,
    /// Clear the match configuration.
    ClearMatch,
    /// Reset the whole state.
    Reset,
}

/// What applying a command answers.
#[derive(Debug, Clone)]
pub enum FMSReply {
    /// The command changed the state and answers nothing.
    Done,
    State(FMSStateSnapshot),
    DriverStation(Option<DriverstationConnection>),
    Teams(Vec<u16>),
}

/// Snapshot of the field state for queries.
#[derive(Debug, Clone)]
pub struct FMSStateSnapshot {
    pub connected_teams: Vec<u16>,
    pub allowed_teams: Vec<u16>,
    pub total_driverstations: usize,
}

impl FMS {
    /// The teams of all connected driverstations, in connection order.
    pub fn all_teams(&self) -> (teams: Vec<u16>)
        ensures
            teams@ == team_numbers(self.driverstations@),
    {
        let mut teams: Vec<u16> = Vec::new();
        let mut i: usize = 0;
        while i < self.driverstations.len()
            invariant
                i <= self.driverstations@.len(),
                teams@ == team_numbers(self.driverstations@.take(i as int)),
            decreases self.driverstations.len() - i,
        {
            teams.push(self.driverstations[i].team_number);
            i = i + 1;
            assert(team_numbers(self.driverstations@.take(i as int)) =~= team_numbers(
                self.driverstations@.take(i - 1),
            ).push(self.driverstations@[i - 1].team_number));
        }
        assert(self.driverstations@.take(i as int) =~= self.driverstations@);
        teams
    }

    /// A snapshot of the connected teams, the allowed teams, and how many
    /// driverstations there are.
    pub fn snapshot(&self) -> (s: FMSStateSnapshot)
        ensures
            s.connected_teams@ == team_numbers(self.driverstations@),
            s.allowed_teams@ == self.allowed_driverstations@,
            s.total_driverstations == self.driverstations@.len(),
    {
        FMSStateSnapshot {
            connected_teams: self.all_teams(),
            allowed_teams: self.allowed_driverstations.clone(),
            total_driverstations: self.driverstations.len(),
        }
    }

    /// Applies one command: changes the state as the matching method does,
    /// and answers queries from the state as it is.
    pub fn process(&mut self, command: FMSCommand) -> (reply: FMSReply)
        ensures
            match command {
                FMSCommand::AddDriverStation { team_number } => {
                    &&& final(self).driverstations@ == spec_add_ds(
                        old(self).driverstations@,
                        old(self).allowed_driverstations@,
                        team_number,
                    )
                    &&& final(self).allowed_driverstations@ == old(self).allowed_driverstations@
                    &&& reply is Done
                },
                FMSCommand::RemoveDriverStation { team_number } => {
                    &&& final(self).driverstations@ == spec_remove_ds(
                        old(self).driverstations@,
                        team_number,
                    )
                    &&& final(self).allowed_driverstations@ == old(self).allowed_driverstations@
                    &&& reply is Done
                },
                FMSCommand::AddToMatch { team_number, station } => {
                    &&& final(self).driverstations@ == spec_add_to_match(
                        old(self).driverstations@,
                        team_number,
                        station,
                    )
                    &&& final(self).allowed_driverstations@
                        == old(self).allowed_driverstations@.push(team_number)
                    &&& reply is Done
                },
                FMSCommand::EnableRobot { team_number } => {
                    &&& final(self).driverstations@ == spec_set_enabled(
                        old(self).driverstations@,
                        team_number,
                        ControlMode::Enabled,
                    )
                    &&& final(self).allowed_driverstations@ == old(self).allowed_driverstations@
                    &&& reply is Done
                },
                FMSCommand::DisableRobot { team_number } => {
                    &&& final(self).driverstations@ == spec_set_enabled(
                        old(self).driverstations@,
                        team_number,
                        ControlMode::Disabled,
                    )
                    &&& final(self).allowed_driverstations@ == old(self).allowed_driverstations@
                    &&& reply is Done
                },
                FMSCommand::SetControlMode { team_number, mode } => {
                    &&& final(self).driverstations@ == spec_set_modes(
                        old(self).driverstations@,
                        team_number,
                        command_modes(mode).0,
                        command_modes(mode).1,
                    )
                    &&& final(self).allowed_driverstations@ == old(self).allowed_driverstations@
                    &&& reply is Done
                },
                FMSCommand::GetState => {
                    &&& final(self).driverstations@ == old(self).driverstations@
                    &&& final(self).allowed_driverstations@ == old(self).allowed_driverstations@
                    &&& reply matches FMSReply::State(s)
                    &&& s.connected_teams@ == team_numbers(old(self).driverstations@)
                    &&& s.allowed_teams@ == old(self).allowed_driverstations@
                    &&& s.total_driverstations == old(self).driverstations@.len()
                },
                FMSCommand::GetDriverStation { team_number } => {
                    &&& final(self).driverstations@ == old(self).driverstations@
                    &&& final(self).allowed_driverstations@ == old(self).allowed_driverstations@
                    &&& reply matches FMSReply::DriverStation(found)
                    &&& (first_team_index(old(self).driverstations@, team_number) < 0 ==> found
                        is None)
                    &&& (first_team_index(old(self).driverstations@, team_number) >= 0 ==> found
                        == Some(
                        old(self).driverstations@[first_team_index(
                            old(self).driverstations@,
                            team_number,
                        )],
                    ))
                },
                FMSCommand::GetAllTeams => {
                    &&& final(self).driverstations@ == old(self).driverstations@
                    &&& final(self).allowed_driverstations@ == old(self).allowed_driverstations@
                    &&& reply matches FMSReply::Teams(teams)
                    &&& teams@ == team_numbers(old(self).driverstations@)
                },
                FMSCommand::ClearMatch => {
                    &&& final(self).driverstations@ == spec_clear_match(old(self).driverstations@)
                    &&& final(self).allowed_driverstations@ == Seq::<u16>::empty()
                    &&& reply is Done
                },
                FMSCommand::Reset => {
                    &&& final(self).driverstations@ == Seq::<DriverstationConnection>::empty()
                    &&& final(self).allowed_driverstations@ == Seq::<u16>::empty()
                    &&& reply is Done
                },
            },
            teams_unique(old(self).driverstations@) ==> teams_unique(final(self).driverstations@),
    {
        match command {
            FMSCommand::AddDriverStation { team_number } => {
                self.add_ds(team_number);
                FMSReply::Done
            },
            FMSCommand::RemoveDriverStation { team_number } => {
                self.remove_ds(team_number);
                FMSReply::Done
            },
            FMSCommand::AddToMatch { team_number, station } => {
                self.add_to_match(team_number, station);
                FMSReply::Done
            },
            FMSCommand::EnableRobot { team_number } => {
                self.enable_robot(team_number);
                FMSReply::Done
            },
            FMSCommand::DisableRobot { team_number } => {
                self.disable_robot(team_number);
                FMSReply::Done
            },
            FMSCommand::SetControlMode { team_number, mode } => {
                self.set_control_mode(team_number, mode);
                FMSReply::Done
            },
            FMSCommand::GetState => FMSReply::State(self.snapshot()),
            FMSCommand::GetDriverStation { team_number } => {
                let found = match self.get_ds_immutable(team_number) {
                    Some(ds) => Some(*ds),
                    None => None,
                };
                FMSReply::DriverStation(found)
            },
            FMSCommand::GetAllTeams => FMSReply::Teams(self.all_teams()),
            FMSCommand::ClearMatch => {
                self.clear_match();
                FMSReply::Done
            },
            FMSCommand::Reset => {
                self.reset();
                FMSReply::Done
            },
        }
    }
}

} // verus!
