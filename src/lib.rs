//! Client-side synchronisation engine for a command-replicated game session:
//! clock alignment against the server, reconciliation of server snapshots and
//! command batches with locally predicted state, the cadence of sync
//! requests, and the per-tick hand-off to a decision plugin.
pub mod assets;
pub mod cadence;
pub mod clock;
pub mod controller;
pub mod identity;
pub mod network;
pub mod outliers;
pub mod protocol;
pub mod reconcile;
pub mod tick;

pub use assets::{Snds, Txts};
pub use cadence::{
    CadenceController, Interval, FULL_PERIOD_MS, INCREMENTAL_PERIOD_MS, MAX_INCREMENTAL_PERIOD_MS,
};
pub use clock::{
    clock_sample, estimate_offset, CalibrationStep, ClockAligner, CALIBRATION_SAMPLES, MAX_SAMPLES,
    SAMPLE_LIMIT,
};
pub use controller::Controller;
pub use identity::{effective_identity, is_own_command, ActorIdentity};
pub use network::NetworkConnection;
pub use protocol::{
    CommandRejected, InboundMessage, NetworkError, OutboundRequest, Snapshot, SyncError,
};
pub use reconcile::{
    handle_server_response, rebase_timestamp, CommandsReport, Handled, SharedState, Simulation,
};
pub use tick::{advance_to, apply_local_commands, tick, DecisionPlugin, TickOutcome};
