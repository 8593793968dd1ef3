//! Who a participant of the session is, and when a command is the local
//! actor's own.
use vstd::prelude::*;

verus! {

/// A participant of the session.
#[derive(Clone, Copy, Debug, PartialEq, Eq, Structural)]
pub enum ActorIdentity {
    Server,
    Player(u64),
    Spectator,
}

/// A command from `origin` is an echo for the local actor `local` when its
/// origin is the local actor itself: the local actor has already applied it.
pub open spec fn is_echo(local: ActorIdentity, origin: ActorIdentity) -> bool {
    local == origin
}

/// Whether a command that `origin` issued is the local actor's own.
pub fn is_own_command(local: ActorIdentity, origin: ActorIdentity) -> (r: bool)
    ensures
        r == is_echo(local, origin),
{
    local == origin
}

/// The identity that local decisions are made under: an assigned player that
/// the world does not (yet) hold acts as a spectator.
pub fn effective_identity(assigned: ActorIdentity, registered: bool) -> (r: ActorIdentity)
    ensures
        r == match assigned {
            ActorIdentity::Player(id) => if registered {
                ActorIdentity::Player(id)
            } else {
                ActorIdentity::Spectator
            },
            other => other,
        },
{
    match assigned {
        ActorIdentity::Player(id) => if registered {
            ActorIdentity::Player(id)
        } else {
            ActorIdentity::Spectator
        },
        other => other,
    }
}

} // verus!
