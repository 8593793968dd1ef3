//! Reconciliation: merges what the server sends into the locally predicted
//! state without executing the local actor's own commands a second time.
use vstd::prelude::*;

use crate::identity::{is_echo, is_own_command, ActorIdentity};
use crate::protocol::{CommandRejected, InboundMessage, Snapshot};

verus! {

/// The simulation that the session keeps in step with the server. Its two
/// entry points are described over a log of the commands it was handed, the
/// number of them it refused, and the time it has been advanced by. A
/// verified implementation defines these three; the defaults describe
/// nothing and so cannot meet the contracts of the two entry points.
pub trait Simulation<C> {
    /// Every command handed to `execute_cmd`, with its actor, in order.
    closed spec fn executed(&self) -> Seq<(ActorIdentity, C)> {
        arbitrary()
    }

    /// How many of the executed commands the world refused.
    closed spec fn refusals(&self) -> nat {
        arbitrary()
    }

    /// Total time (ms) the world has been advanced by.
    closed spec fn advanced_ms(&self) -> int {
        arbitrary()
    }

    /// Moves the simulation forward by `dt_ms` milliseconds.
    fn advance(&mut self, dt_ms: u64)
        ensures
            final(self).advanced_ms() == old(self).advanced_ms() + dt_ms,
            final(self).executed() == old(self).executed(),
            final(self).refusals() == old(self).refusals(),
    ;

    /// Executes `cmd` on behalf of `actor`, if it passes the world's
    /// validity checks; a refused command has no effect.
    fn execute_cmd(&mut self, actor: ActorIdentity, cmd: &C) -> (r: Result<(), CommandRejected>)
        ensures
            final(self).executed() == old(self).executed().push((actor, *cmd)),
            final(self).refusals() == old(self).refusals() + if r is Err {
                1nat
            } else {
                0nat
            },
            final(self).advanced_ms() == old(self).advanced_ms(),
    ;
}

/// The state shared by the tick loop and the reconciler.
pub struct SharedState<W> {
    pub world: W,
    /// Local time (ms) up to which the world has been advanced.
    pub last_update_ms: u64,
}

/// Whether a server timestamp moved into local time by subtracting the clock
/// offset still is a `u64` time.
pub open spec fn rebase_in_range(ts_ms: u64, offset: i64) -> bool {
    0 <= ts_ms - offset <= u64::MAX
}

/// Moves a server timestamp into local time; `None` when the result would
/// lie before time zero or beyond the range of `u64`, which only a clock
/// offset at odds with the snapshot causes.
pub fn rebase_timestamp(ts_ms: u64, offset: i64) -> (r: Option<u64>)
    ensures
        r == if rebase_in_range(ts_ms, offset) {
            Some((ts_ms - offset) as u64)
        } else {
            None::<u64>
        },
{
    let v: i128 = ts_ms as i128 - offset as i128;
    if v < 0 || v > u64::MAX as i128 {
        None
    } else {
        Some(v as u64)
    }
}

/// The commands of a batch that the reconciler executes: all but the local
/// actor's own.
pub open spec fn remote_commands<C>(local: ActorIdentity, batch: Seq<(ActorIdentity, C)>) -> Seq<
    (ActorIdentity, C),
> {
    batch.filter(|p: (ActorIdentity, C)| !is_echo(local, p.0))
}

/// The entries of a command history that carry the local actor's own commands.
pub open spec fn own_commands<C>(local: ActorIdentity, history: Seq<(ActorIdentity, C)>) -> Seq<
    (ActorIdentity, C),
> {
    history.filter(|p: (ActorIdentity, C)| is_echo(local, p.0))
}

/// What applying a batch of server commands came to.
#[derive(Clone, Copy, Debug, PartialEq, Eq, Structural)]
pub struct CommandsReport {
    /// Commands skipped because the local actor had already applied them.
    pub skipped: usize,
    /// Commands the world refused.
    pub rejected: usize,
}

/// What handling one server message came to.
#[derive(Clone, Copy, Debug, PartialEq, Eq, Structural)]
pub enum Handled {
    Snapshot,
    /// The snapshot's timestamp cannot be moved into local time with the
    /// current offset: the snapshot was not applied.
    SnapshotOutOfRange,
    Commands(CommandsReport),
    Identity,
    /// The server drops requests: the client should send less often.
    Backpressure,
    /// A clock sample, left untouched for the calibration that waits for it.
    ClockSample(u64),
}

impl<W> SharedState<W> {
    /// A state holding `world`, advanced up to `last_update_ms`.
    pub fn new(world: W, last_update_ms: u64) -> (r: Self)
        ensures
            r.world == world,
            r.last_update_ms == last_update_ms,
    {
        SharedState { world, last_update_ms }
    }

    /// The state after the snapshot replaced it, its timestamp rebased.
    pub open spec fn with_snapshot(self, snap: Snapshot<W>, offset: i64) -> Self
        recommends
            rebase_in_range(snap.last_update_ms, offset),
    {
        SharedState {
            world: snap.world,
            last_update_ms: (snap.last_update_ms - offset) as u64,
        }
    }

    /// Replaces the world by the snapshot and moves its timestamp into local
    /// time. When the timestamp cannot be rebased, the state is left as it
    /// was and `false` reports the anomaly.
    pub fn apply_snapshot(&mut self, snap: Snapshot<W>, offset: i64) -> (r: bool)
        ensures
            r == rebase_in_range(snap.last_update_ms, offset),
            r ==> *final(self) == old(self).with_snapshot(snap, offset),
            !r ==> *final(self) == *old(self),
    {
        let Snapshot { world, last_update_ms } = snap;
        match rebase_timestamp(last_update_ms, offset) {
            Some(ts) => {
                self.world = world;
                self.last_update_ms = ts;
                true
            },
            None => false,
        }
    }

    /// Executes the commands of a server batch in order, skipping those that
    /// the local actor issued; a command the world refuses does not stop the
    /// rest.
    pub fn apply_commands<C>(&mut self, local: ActorIdentity, batch: Vec<(ActorIdentity, C)>) -> (r:
        CommandsReport) where W: Simulation<C>
        ensures
            final(self).world.executed() == old(self).world.executed() + remote_commands(
                local,
                batch@,
            ),
            final(self).world.refusals() == old(self).world.refusals() + r.rejected,
            final(self).world.advanced_ms() == old(self).world.advanced_ms(),
            final(self).last_update_ms == old(self).last_update_ms,
            r.skipped == batch@.len() - remote_commands(local, batch@).len(),
            r.rejected <= remote_commands(local, batch@).len(),
    {
        let ghost keep = |p: (ActorIdentity, C)| !is_echo(local, p.0);
        let ghost start = self.world.executed();
        let ghost refused = self.world.refusals();
        let mut skipped: usize = 0;
        let mut rejected: usize = 0;
        let mut i: usize = 0;
        while i < batch.len()
            invariant
                0 <= i <= batch@.len(),
                keep == (|p: (ActorIdentity, C)| !is_echo(local, p.0)),
                self.world.executed() == start + batch@.subrange(0, i as int).filter(keep),
                self.world.refusals() == refused + rejected,
                self.world.advanced_ms() == old(self).world.advanced_ms(),
                self.last_update_ms == old(self).last_update_ms,
                skipped + batch@.subrange(0, i as int).filter(keep).len() == i,
                rejected <= batch@.subrange(0, i as int).filter(keep).len(),
            decreases batch.len() - i,
        {
            let origin = batch[i].0;
            proof {
                assert(batch@.subrange(0, i + 1) =~= batch@.subrange(0, i as int).push(batch@[i as int]));
                batch@.subrange(0, i as int).lemma_filter_push(batch@[i as int], keep);
            }
            if is_own_command(local, origin) {
                skipped = skipped + 1;
            } else {
                if self.world.execute_cmd(origin, &batch[i].1).is_err() {
                    rejected = rejected + 1;
                }
            }
            i += 1;
        }
        assert(batch@.subrange(0, batch@.len() as int) =~= batch@);
        CommandsReport { skipped, rejected }
    }
}

/// Interprets one server message against the shared state and the local
/// identity: a snapshot replaces the state, a command batch is merged without
/// echoes, an identity assignment overwrites the identity; backpressure and
/// clock samples leave both untouched and are handed back to the caller.
pub fn handle_server_response<W: Simulation<C>, C>(
    response: InboundMessage<W, C>,
    state: &mut SharedState<W>,
    offset: i64,
    identity: &mut ActorIdentity,
) -> (r: Handled)
    ensures
        match response {
            InboundMessage::FullStateSnapshot(snap) => {
                &&& *final(identity) == *old(identity)
                &&& if rebase_in_range(snap.last_update_ms, offset) {
                    &&& r == Handled::Snapshot
                    &&& *final(state) == old(state).with_snapshot(snap, offset)
                } else {
                    &&& r == Handled::SnapshotOutOfRange
                    &&& *final(state) == *old(state)
                }
            },
            InboundMessage::IncrementalCommands(batch) => {
                &&& r is Commands
                &&& r->Commands_0.skipped == batch@.len() - remote_commands(*old(identity), batch@).len()
                &&& r->Commands_0.rejected <= remote_commands(*old(identity), batch@).len()
                &&& final(state).world.executed() == old(state).world.executed()
                    + remote_commands(*old(identity), batch@)
                &&& final(state).world.refusals() == old(state).world.refusals()
                    + r->Commands_0.rejected
                &&& final(state).world.advanced_ms() == old(state).world.advanced_ms()
                &&& final(state).last_update_ms == old(state).last_update_ms
                &&& *final(identity) == *old(identity)
            },
            InboundMessage::IdentityAssignment(id) => {
                &&& r == Handled::Identity
                &&& *final(state) == *old(state)
                &&& *final(identity) == id
            },
            InboundMessage::BackpressureSignal => {
                &&& r == Handled::Backpressure
                &&& *final(state) == *old(state)
                &&& *final(identity) == *old(identity)
            },
            InboundMessage::ClockSample(ts) => {
                &&& r == Handled::ClockSample(ts)
                &&& *final(state) == *old(state)
                &&& *final(identity) == *old(identity)
            },
        },
{
    match response {
        InboundMessage::FullStateSnapshot(snap) => {
            if state.apply_snapshot(snap, offset) {
                Handled::Snapshot
            } else {
                Handled::SnapshotOutOfRange
            }
        },
        InboundMessage::IncrementalCommands(batch) => {
            let report = state.apply_commands(*identity, batch);
            Handled::Commands(report)
        },
        InboundMessage::IdentityAssignment(id) => {
            *identity = id;
            Handled::Identity
        },
        InboundMessage::BackpressureSignal => Handled::Backpressure,
        InboundMessage::ClockSample(ts) => Handled::ClockSample(ts),
    }
}

/// Applying the same snapshot twice in a row leaves the state as applying it once.
pub proof fn lemma_snapshot_idempotent<W>(s: SharedState<W>, snap: Snapshot<W>, offset: i64)
    requires
        rebase_in_range(snap.last_update_ms, offset),
    ensures
        s.with_snapshot(snap, offset).with_snapshot(snap, offset) == s.with_snapshot(snap, offset),
{
}

/// Echo suppression: merging any batch from the server (which extends the
/// world's log of executed commands by `remote_commands`) adds no command of
/// the local actor to that log, whatever origins the batch claims.
pub proof fn lemma_echoes_never_executed<C>(
    local: ActorIdentity,
    history: Seq<(ActorIdentity, C)>,
    batch: Seq<(ActorIdentity, C)>,
)
    ensures
        own_commands(local, history + remote_commands(local, batch)) == own_commands(local, history),
    decreases batch.len(),
{
    let mine = |p: (ActorIdentity, C)| is_echo(local, p.0);
    let keep = |p: (ActorIdentity, C)| !is_echo(local, p.0);
    if batch.len() == 0 {
        batch.lemma_filter_len(keep);
        assert(history + remote_commands(local, batch) =~= history);
    } else {
        let b = batch.drop_last();
        let x = batch.last();
        lemma_echoes_never_executed(local, history, b);
        assert(batch =~= b.push(x));
        b.lemma_filter_push(x, keep);
        if keep(x) {
            let h = history + remote_commands(local, b);
            assert(history + remote_commands(local, batch) =~= h.push(x));
            h.lemma_filter_push(x, mine);
        } else {
            assert(history + remote_commands(local, batch) =~= history + remote_commands(local, b));
        }
    }
}

} // verus!
