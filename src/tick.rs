//! One simulation tick: advance the world to the local clock, let the
//! decision plugin produce commands, execute them at once and queue them for
//! the server.
use vstd::prelude::*;

use crate::identity::ActorIdentity;
use crate::reconcile::{SharedState, Simulation};

verus! {

/// A replaceable source of commands (a human controller or an autonomous
/// agent), asked once per tick.
/// Its contract is described over the sequence of answers it has given.
pub trait DecisionPlugin<W: Simulation<C>, C> {
    /// Every list of commands this plugin has returned, oldest first. A
    /// verified implementation defines it; the default describes nothing and
    /// so cannot meet the contract of `produce_commands`.
    closed spec fn answers(&self) -> Seq<Seq<C>> {
        arbitrary()
    }

    /// The commands that `actor` issues this tick. The plugin may read and
    /// change the world while deciding, but it neither executes commands nor
    /// advances time: the commands it returns are executed by the caller.
    fn produce_commands(&mut self, world: &mut W, actor: ActorIdentity) -> (r: Vec<C>)
        ensures
            final(self).answers() == old(self).answers().push(r@),
            final(world).executed() == old(world).executed(),
            final(world).refusals() == old(world).refusals(),
            final(world).advanced_ms() == old(world).advanced_ms(),
    ;
}

/// What one tick did.
#[derive(Clone, Copy, Debug, PartialEq, Eq, Structural)]
pub enum TickOutcome {
    /// The world's time is not behind the local clock: nothing was done.
    Skipped,
    /// The world was advanced by `dt_ms`; the plugin produced `produced`
    /// commands, of which the world refused `rejected`.
    Advanced { dt_ms: u64, produced: usize, rejected: usize },
}

/// Commands of `actor`, each paired with it.
pub open spec fn tagged<C>(actor: ActorIdentity, cmds: Seq<C>) -> Seq<(ActorIdentity, C)> {
    cmds.map_values(|c: C| (actor, c))
}

/// Advances the world to local time `now_ms`. When the world's time is not
/// behind `now_ms` (a snapshot stamped in the future) nothing happens and
/// `None` is returned, so time never runs backward; otherwise the world is
/// advanced by the elapsed time, which is returned.
pub fn advance_to<W: Simulation<C>, C>(state: &mut SharedState<W>, now_ms: u64) -> (r: Option<u64>)
    ensures
        old(state).last_update_ms >= now_ms ==> {
            &&& r is None
            &&& *final(state) == *old(state)
        },
        old(state).last_update_ms < now_ms ==> {
            &&& r == Some((now_ms - old(state).last_update_ms) as u64)
            &&& final(state).last_update_ms == now_ms
            &&& final(state).world.advanced_ms() == old(state).world.advanced_ms() + now_ms
                - old(state).last_update_ms
            &&& final(state).world.executed() == old(state).world.executed()
            &&& final(state).world.refusals() == old(state).world.refusals()
        },
{
    if state.last_update_ms >= now_ms {
        return None;
    }
    let dt_ms = now_ms - state.last_update_ms;
    state.world.advance(dt_ms);
    state.last_update_ms = now_ms;
    Some(dt_ms)
}

/// Executes the local actor's commands at once, in order (optimistic
/// execution), and appends all of them to `pending` for the server; a
/// command the world refuses is still sent, and does not stop the rest.
/// Returns how many the world refused.
pub fn apply_local_commands<W: Simulation<C>, C>(
    state: &mut SharedState<W>,
    actor: ActorIdentity,
    cmds: Vec<C>,
    pending: &mut Vec<C>,
) -> (rejected: usize)
    ensures
        final(pending)@ == old(pending)@ + cmds@,
        final(state).world.executed() == old(state).world.executed() + tagged(actor, cmds@),
        final(state).world.refusals() == old(state).world.refusals() + rejected,
        final(state).world.advanced_ms() == old(state).world.advanced_ms(),
        final(state).last_update_ms == old(state).last_update_ms,
        rejected <= cmds@.len(),
{
    let mut cmds = cmds;
    let ghost start = state.world.executed();
    let ghost refused = state.world.refusals();
    let mut rejected: usize = 0;
    let mut i: usize = 0;
    while i < cmds.len()
        invariant
            0 <= i <= cmds@.len(),
            rejected <= i,
            state.last_update_ms == old(state).last_update_ms,
            state.world.advanced_ms() == old(state).world.advanced_ms(),
            state.world.refusals() == refused + rejected,
            state.world.executed() == start + tagged(actor, cmds@.subrange(0, i as int)),
        decreases cmds.len() - i,
    {
        proof {
            assert(tagged(actor, cmds@.subrange(0, i + 1)) =~= tagged(
                actor,
                cmds@.subrange(0, i as int),
            ).push((actor, cmds@[i as int])));
        }
        if state.world.execute_cmd(actor, &cmds[i]).is_err() {
            rejected = rejected + 1;
        }
        i += 1;
    }
    assert(cmds@.subrange(0, cmds@.len() as int) =~= cmds@);
    pending.append(&mut cmds);
    rejected
}

/// Runs one tick at local time `now_ms`: advances the world (or skips the
/// tick, see `advance_to`), asks the plugin for the commands of `actor`, and
/// hands them to `apply_local_commands`.
pub fn tick<W: Simulation<C>, C, P: DecisionPlugin<W, C>>(
    state: &mut SharedState<W>,
    plugin: &mut P,
    actor: ActorIdentity,
    now_ms: u64,
    pending: &mut Vec<C>,
) -> (r: TickOutcome)
    ensures
        old(state).last_update_ms >= now_ms ==> {
            &&& r == TickOutcome::Skipped
            &&& *final(state) == *old(state)
            &&& *final(plugin) == *old(plugin)
            &&& final(pending)@ == old(pending)@
        },
        old(state).last_update_ms < now_ms ==> {
            &&& r is Advanced
            &&& r->dt_ms == now_ms - old(state).last_update_ms
            &&& final(state).last_update_ms == now_ms
            &&& final(state).world.advanced_ms() == old(state).world.advanced_ms() + r->dt_ms
            &&& final(pending)@.len() == old(pending)@.len() + r->produced
            &&& final(pending)@.subrange(0, old(pending)@.len() as int) == old(pending)@
            &&& final(state).world.executed() == old(state).world.executed() + tagged(
                actor,
                final(pending)@.subrange(old(pending)@.len() as int, final(pending)@.len() as int),
            )
            &&& final(state).world.refusals() == old(state).world.refusals() + r->rejected
            &&& r->rejected <= r->produced
            &&& final(plugin).answers() == old(plugin).answers().push(
                final(pending)@.subrange(old(pending)@.len() as int, final(pending)@.len() as int),
            )
        },
{
    match advance_to(state, now_ms) {
        None => TickOutcome::Skipped,
        Some(dt_ms) => {
            let cmds = plugin.produce_commands(&mut state.world, actor);
            let produced = cmds.len();
            let ghost before = pending@;
            let ghost all = cmds@;
            let rejected = apply_local_commands(state, actor, cmds, pending);
            assert(pending@.subrange(0, before.len() as int) =~= before);
            assert(pending@.subrange(before.len() as int, pending@.len() as int) =~= all);
            TickOutcome::Advanced { dt_ms, produced, rejected }
        },
    }
}

} // verus!
