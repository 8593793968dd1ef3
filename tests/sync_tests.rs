use stellar_bit_client::{
    advance_to, apply_local_commands, effective_identity, handle_server_response, is_own_command, rebase_timestamp, tick,
    ActorIdentity, CadenceController, Controller, CommandRejected, CommandsReport, DecisionPlugin, Handled,
    InboundMessage, Interval, NetworkConnection, NetworkError, OutboundRequest, SharedState,
    Simulation, Snapshot, Snds, SyncError, TickOutcome, Txts,
};

#[derive(Clone, Debug, PartialEq)]
enum Cmd {
    Add(i64),
    Spawn(u64),
    Invalid,
}

#[derive(Clone, Debug, PartialEq, Default)]
struct World {
    counter: i64,
    owners: Vec<u64>,
    elapsed_ms: u64,
    log: Vec<(ActorIdentity, Cmd)>,
}

impl Simulation<Cmd> for World {
    fn advance(&mut self, dt_ms: u64) {
        self.elapsed_ms += dt_ms;
    }

    fn execute_cmd(&mut self, actor: ActorIdentity, cmd: &Cmd) -> Result<(), CommandRejected> {
        self.log.push((actor, cmd.clone()));
        match cmd {
            Cmd::Add(n) => {
                self.counter += n;
                Ok(())
            }
            Cmd::Spawn(owner) => {
                self.owners.push(*owner);
                Ok(())
            }
            Cmd::Invalid => Err(CommandRejected { reason: "no such entity".to_string() }),
        }
    }
}

struct Script {
    next: Vec<Cmd>,
}

impl DecisionPlugin<World, Cmd> for Script {
    fn produce_commands(&mut self, _world: &mut World, _actor: ActorIdentity) -> Vec<Cmd> {
        std::mem::take(&mut self.next)
    }
}

type Msg = InboundMessage<World, Cmd>;

const ME: ActorIdentity = ActorIdentity::Player(7);

#[test]
fn rebase_subtracts_offset() {
    assert_eq!(rebase_timestamp(1000, 40), Some(960));
    assert_eq!(rebase_timestamp(1000, -40), Some(1040));
    assert_eq!(rebase_timestamp(40, 40), Some(0));
    assert_eq!(rebase_timestamp(10, 40), None);
    assert_eq!(rebase_timestamp(u64::MAX, -5), None);
}

#[test]
fn snapshot_replaces_state_and_rebases() {
    let mut state: SharedState<World> = SharedState::new(World { counter: 3, ..World::default() }, 5);
    let mut me = ME;
    let snap = Snapshot { world: World { counter: 9, owners: vec![7], ..World::default() }, last_update_ms: 2000 };
    let r = handle_server_response(Msg::FullStateSnapshot(snap), &mut state, 40, &mut me);
    assert_eq!(r, Handled::Snapshot);
    assert_eq!(state.world.counter, 9);
    assert_eq!(state.last_update_ms, 1960);
    assert_eq!(me, ME);
}

#[test]
fn same_snapshot_twice_gives_same_state() {
    let snap_world = World { counter: 4, owners: vec![1, 2], elapsed_ms: 11, log: vec![] };
    let mut state: SharedState<World> = SharedState::new(World::default(), 0);
    state.apply_snapshot(Snapshot { world: snap_world.clone(), last_update_ms: 500 }, -20);
    let first = (state.world.clone(), state.last_update_ms);
    state.apply_snapshot(Snapshot { world: snap_world.clone(), last_update_ms: 500 }, -20);
    assert_eq!((state.world.clone(), state.last_update_ms), first);
    assert_eq!(first, (snap_world, 520));
}

#[test]
fn join_then_full_sync_exposes_owned_entity() {
    let mut conn: NetworkConnection<Cmd> = NetworkConnection::new("ws://127.0.0.1:39453".to_string());
    conn.send(OutboundRequest::JoinRequest(7, "tok".to_string()));
    conn.send(OutboundRequest::RequestFullSync);
    let batches = conn.take_outbound();
    assert_eq!(batches.len(), 2);
    match &batches[0][0] {
        OutboundRequest::JoinRequest(id, token) => {
            assert_eq!(*id, 7);
            assert_eq!(token, "tok");
        }
        other => panic!("unexpected {:?}", other),
    }
    assert!(matches!(batches[1][0], OutboundRequest::RequestFullSync));

    let mut state: SharedState<World> = SharedState::new(World::default(), 0);
    let mut me = ActorIdentity::Player(0);
    let assigned = handle_server_response(
        Msg::IdentityAssignment(ActorIdentity::Player(7)),
        &mut state,
        conn.time_delay(),
        &mut me,
    );
    assert_eq!(assigned, Handled::Identity);
    assert_eq!(me, ActorIdentity::Player(7));
    let snap = Snapshot { world: World { owners: vec![7], ..World::default() }, last_update_ms: 100 };
    handle_server_response(Msg::FullStateSnapshot(snap), &mut state, conn.time_delay(), &mut me);
    assert_eq!(state.world.owners, vec![7]);
}

#[test]
fn own_command_echoed_twice_applies_once() {
    let mut state: SharedState<World> = SharedState::new(World::default(), 1000);
    let mut plugin = Script { next: vec![Cmd::Add(5)] };
    let mut pending = Vec::new();
    let t = tick(&mut state, &mut plugin, ME, 1100, &mut pending);
    assert_eq!(t, TickOutcome::Advanced { dt_ms: 100, produced: 1, rejected: 0 });
    assert_eq!(state.world.counter, 5);
    assert_eq!(pending, vec![Cmd::Add(5)]);

    let mut me = ME;
    for _ in 0..2 {
        let r = handle_server_response(
            Msg::IncrementalCommands(vec![(ME, Cmd::Add(5))]),
            &mut state,
            0,
            &mut me,
        );
        assert_eq!(r, Handled::Commands(CommandsReport { skipped: 1, rejected: 0 }));
    }
    assert_eq!(state.world.counter, 5);
    assert_eq!(state.world.log, vec![(ME, Cmd::Add(5))]);
}

#[test]
fn snapshot_older_than_offset_is_reported_not_applied() {
    let mut state: SharedState<World> = SharedState::new(World { counter: 1, ..World::default() }, 700);
    let mut me = ME;
    let snap = Snapshot { world: World { counter: 2, ..World::default() }, last_update_ms: 30 };
    let r = handle_server_response(Msg::FullStateSnapshot(snap), &mut state, 40, &mut me);
    assert_eq!(r, Handled::SnapshotOutOfRange);
    assert_eq!(state.world.counter, 1);
    assert_eq!(state.last_update_ms, 700);
}

#[test]
fn other_players_commands_are_applied() {
    let mut state: SharedState<World> = SharedState::new(World::default(), 0);
    let mut me = ME;
    let batch = vec![
        (ActorIdentity::Player(8), Cmd::Add(2)),
        (ME, Cmd::Add(100)),
        (ActorIdentity::Server, Cmd::Spawn(8)),
    ];
    let r = handle_server_response(Msg::IncrementalCommands(batch), &mut state, 0, &mut me);
    assert_eq!(r, Handled::Commands(CommandsReport { skipped: 1, rejected: 0 }));
    assert_eq!(state.world.counter, 2);
    assert_eq!(state.world.owners, vec![8]);
    assert_eq!(
        state.world.log,
        vec![(ActorIdentity::Player(8), Cmd::Add(2)), (ActorIdentity::Server, Cmd::Spawn(8))]
    );
}

#[test]
fn spectator_applies_every_command() {
    let mut state: SharedState<World> = SharedState::new(World::default(), 0);
    let batch = vec![(ActorIdentity::Player(7), Cmd::Add(1)), (ActorIdentity::Player(8), Cmd::Add(1))];
    let r = state.apply_commands(ActorIdentity::Spectator, batch);
    assert_eq!(r, CommandsReport { skipped: 0, rejected: 0 });
    assert_eq!(state.world.counter, 2);
}

#[test]
fn rejected_command_does_not_stop_batch() {
    let mut state: SharedState<World> = SharedState::new(World::default(), 0);
    let batch = vec![
        (ActorIdentity::Player(8), Cmd::Invalid),
        (ActorIdentity::Player(8), Cmd::Add(1)),
    ];
    let r = state.apply_commands(ME, batch);
    assert_eq!(r, CommandsReport { skipped: 0, rejected: 1 });
    assert_eq!(state.world.counter, 1);
}

#[test]
fn backpressure_mid_session_keeps_receiving() {
    let mut state: SharedState<World> = SharedState::new(World::default(), 0);
    let mut me = ME;
    let r = handle_server_response(Msg::BackpressureSignal, &mut state, 0, &mut me);
    assert_eq!(r, Handled::Backpressure);
    assert_eq!(state.world, World::default());
    let r = handle_server_response(
        Msg::IncrementalCommands(vec![(ActorIdentity::Player(9), Cmd::Add(3))]),
        &mut state,
        0,
        &mut me,
    );
    assert_eq!(r, Handled::Commands(CommandsReport { skipped: 0, rejected: 0 }));
    assert_eq!(state.world.counter, 3);
}

#[test]
fn clock_sample_is_handed_back() {
    let mut state: SharedState<World> = SharedState::new(World::default(), 0);
    let mut me = ME;
    let r = handle_server_response(Msg::ClockSample(1234), &mut state, 0, &mut me);
    assert_eq!(r, Handled::ClockSample(1234));
}

#[test]
fn tick_skips_when_world_is_ahead() {
    let mut state: SharedState<World> = SharedState::new(World::default(), 5000);
    let mut plugin = Script { next: vec![Cmd::Add(1)] };
    let mut pending = Vec::new();
    assert_eq!(tick(&mut state, &mut plugin, ME, 4990, &mut pending), TickOutcome::Skipped);
    assert_eq!(tick(&mut state, &mut plugin, ME, 5000, &mut pending), TickOutcome::Skipped);
    assert_eq!(state.world.elapsed_ms, 0);
    assert_eq!(state.world.counter, 0);
    assert!(pending.is_empty());
    assert_eq!(
        tick(&mut state, &mut plugin, ME, 5030, &mut pending),
        TickOutcome::Advanced { dt_ms: 30, produced: 1, rejected: 0 }
    );
    assert_eq!(state.world.elapsed_ms, 30);
    assert_eq!(state.last_update_ms, 5030);
}

#[test]
fn future_snapshot_stops_time() {
    let mut state: SharedState<World> = SharedState::new(World::default(), 0);
    let mut me = ME;
    let snap = Snapshot { world: World::default(), last_update_ms: 10_000 };
    handle_server_response(Msg::FullStateSnapshot(snap), &mut state, -500, &mut me);
    assert_eq!(state.last_update_ms, 10_500);
    let mut plugin = Script { next: vec![] };
    let mut pending = Vec::new();
    assert_eq!(tick(&mut state, &mut plugin, ME, 10_200, &mut pending), TickOutcome::Skipped);
}

#[test]
fn tick_counts_rejected_local_commands_and_queues_all() {
    let mut state: SharedState<World> = SharedState::new(World::default(), 0);
    let mut plugin = Script { next: vec![Cmd::Invalid, Cmd::Add(2)] };
    let mut pending = vec![Cmd::Add(1)];
    let t = tick(&mut state, &mut plugin, ME, 10, &mut pending);
    assert_eq!(t, TickOutcome::Advanced { dt_ms: 10, produced: 2, rejected: 1 });
    assert_eq!(pending, vec![Cmd::Add(1), Cmd::Invalid, Cmd::Add(2)]);
    assert_eq!(state.world.counter, 2);
}

#[test]
fn interval_fires_after_period() {
    let mut iv = Interval::new(300, 1000);
    assert!(!iv.check(1299));
    assert!(iv.check(1300));
    assert!(!iv.check(1500));
    assert!(iv.check(1600));
    assert!(!iv.check(10));
    let mut first = Interval::new_elapsed(30_000);
    assert!(first.check(0));
    assert!(!first.check(1));
}

#[test]
fn cadence_emits_commands_then_syncs() {
    let mut cadence: CadenceController<Cmd> = CadenceController::new(300, 3000, 2400, 0);
    cadence.pending.push(Cmd::Add(1));
    assert!(cadence.poll(100).is_empty());
    let out = cadence.poll(300);
    assert_eq!(out.len(), 2);
    match &out[0] {
        OutboundRequest::SubmitCommands(cmds) => assert_eq!(cmds, &vec![Cmd::Add(1)]),
        other => panic!("unexpected {:?}", other),
    }
    assert!(matches!(out[1], OutboundRequest::RequestIncrementalSync));
    assert!(cadence.pending.is_empty());
    let out = cadence.poll(600);
    assert_eq!(out.len(), 1);
    let out = cadence.poll(3000);
    assert_eq!(out.len(), 2);
    assert!(matches!(out[0], OutboundRequest::RequestIncrementalSync));
    assert!(matches!(out[1], OutboundRequest::RequestFullSync));
}

#[test]
fn backpressure_widens_incremental_period() {
    let mut cadence: CadenceController<Cmd> = CadenceController::new(300, 3000, 2400, 0);
    cadence.on_backpressure();
    assert_eq!(cadence.incremental.period_ms, 600);
    cadence.on_backpressure();
    cadence.on_backpressure();
    cadence.on_backpressure();
    assert_eq!(cadence.incremental.period_ms, 2400);
    assert!(!cadence.poll(2000).iter().any(|r| matches!(r, OutboundRequest::RequestIncrementalSync)));
    // the first full period had backpressure: no recovery yet
    cadence.poll(3000);
    assert_eq!(cadence.incremental.period_ms, 2400);
    // a quiet full period halves it
    cadence.poll(6000);
    assert_eq!(cadence.incremental.period_ms, 1200);
    cadence.poll(9000);
    cadence.poll(12000);
    cadence.poll(15000);
    assert_eq!(cadence.incremental.period_ms, 300);
}

#[test]
fn identities() {
    assert!(is_own_command(ME, ActorIdentity::Player(7)));
    assert!(!is_own_command(ME, ActorIdentity::Player(8)));
    assert!(is_own_command(ActorIdentity::Server, ActorIdentity::Server));
    assert!(is_own_command(ActorIdentity::Spectator, ActorIdentity::Spectator));
    assert!(!is_own_command(ActorIdentity::Server, ActorIdentity::Player(7)));
    assert_eq!(effective_identity(ME, true), ME);
    assert_eq!(effective_identity(ME, false), ActorIdentity::Spectator);
    assert_eq!(effective_identity(ActorIdentity::Server, false), ActorIdentity::Server);
}

#[test]
fn send_multiple_keeps_order_and_skips_empty() {
    let mut conn: NetworkConnection<Cmd> = NetworkConnection::new("ws://a:1".to_string());
    conn.send_multiple(vec![]);
    conn.send_multiple(vec![
        OutboundRequest::SubmitCommands(vec![Cmd::Add(1)]),
        OutboundRequest::RequestIncrementalSync,
    ]);
    let batches = conn.take_outbound();
    assert_eq!(batches.len(), 1);
    assert!(matches!(batches[0][0], OutboundRequest::SubmitCommands(_)));
    assert!(matches!(batches[0][1], OutboundRequest::RequestIncrementalSync));
    assert_eq!(conn.server_addr, "ws://a:1");
}

#[test]
fn network_errors_map_to_session_errors() {
    assert_eq!(NetworkError::ConnectionFailed.to_sync_error(), SyncError::ConnectionFailed);
    assert_eq!(NetworkError::MalformedFrame.to_sync_error(), SyncError::MalformedFrame);
}

#[test]
fn asset_names() {
    assert_eq!(Txts::default(), Txts::White);
    assert_eq!(Txts::all().len(), 12);
    assert_eq!(Txts::RaptorEngineComponentWhite.stem(), "raptor_engine_component_white");
    assert_eq!(Snds::StarBaseHit.stem(), "star_base_hit");
}

#[test]
fn controller_without_plugin_produces_nothing() {
    let mut controller: Controller<Script, Cmd> = Controller::new();
    let mut world = World::default();
    let cmds: Vec<Cmd> = controller.retrieve_cmds(&mut world, ME);
    assert!(cmds.is_empty());
    assert!(!controller.has_computer());
    assert_eq!(world, World::default());
}

#[test]
fn controller_swaps_plugin_between_ticks() {
    let mut state: SharedState<World> = SharedState::new(World::default(), 0);
    let mut controller: Controller<Script, Cmd> = Controller::new();
    let mut pending = Vec::new();
    controller.select_computer(Script { next: vec![Cmd::Add(1)] });
    assert!(controller.has_computer());
    let t = tick(&mut state, &mut controller, ME, 10, &mut pending);
    assert_eq!(t, TickOutcome::Advanced { dt_ms: 10, produced: 1, rejected: 0 });
    controller.select_computer(Script { next: vec![Cmd::Add(2), Cmd::Add(3)] });
    let t = tick(&mut state, &mut controller, ME, 20, &mut pending);
    assert_eq!(t, TickOutcome::Advanced { dt_ms: 10, produced: 2, rejected: 0 });
    assert_eq!(state.world.counter, 6);
    assert_eq!(pending, vec![Cmd::Add(1), Cmd::Add(2), Cmd::Add(3)]);
    assert!(controller.clear().is_some());
    assert!(!controller.has_computer());
    let t = tick(&mut state, &mut controller, ME, 30, &mut pending);
    assert_eq!(t, TickOutcome::Advanced { dt_ms: 10, produced: 0, rejected: 0 });
}

#[test]
fn local_commands_are_executed_and_queued() {
    let mut state: SharedState<World> = SharedState::new(World::default(), 50);
    let mut pending = vec![Cmd::Add(9)];
    let rejected = apply_local_commands(&mut state, ME, vec![Cmd::Add(1), Cmd::Invalid], &mut pending);
    assert_eq!(rejected, 1);
    assert_eq!(pending, vec![Cmd::Add(9), Cmd::Add(1), Cmd::Invalid]);
    assert_eq!(state.world.log, vec![(ME, Cmd::Add(1)), (ME, Cmd::Invalid)]);
    assert_eq!(state.last_update_ms, 50);
}

#[test]
fn advance_to_moves_world_forward() {
    let mut state: SharedState<World> = SharedState::new(World::default(), 50);
    assert_eq!(advance_to(&mut state, 50), None);
    assert_eq!(advance_to(&mut state, 80), Some(30));
    assert_eq!(state.world.elapsed_ms, 30);
    assert_eq!(state.last_update_ms, 80);
}

#[test]
fn server_identity_skips_its_own_echo() {
    let mut state: SharedState<World> = SharedState::new(World::default(), 0);
    let mut me = ActorIdentity::Server;
    let batch = vec![(ActorIdentity::Server, Cmd::Add(4)), (ActorIdentity::Player(2), Cmd::Add(1))];
    let r = handle_server_response(Msg::IncrementalCommands(batch), &mut state, 0, &mut me);
    assert_eq!(r, Handled::Commands(CommandsReport { skipped: 1, rejected: 0 }));
    assert_eq!(state.world.counter, 1);
    assert_eq!(state.world.log, vec![(ActorIdentity::Player(2), Cmd::Add(1))]);
}
