//! The slot that holds the active decision plugin. A plugin can be swapped
//! between ticks; the new one is asked from the next tick on.
use vstd::prelude::*;

use crate::identity::ActorIdentity;
use crate::reconcile::Simulation;
use crate::tick::DecisionPlugin;

verus! {

/// Holds the decision plugin in use, if any.
pub struct Controller<P, C> {
    pub computer: Option<P>,
    /// Every list of commands this controller has handed out, oldest first,
    /// whichever plugin produced it.
    pub answered: Ghost<Seq<Seq<C>>>,
}

impl<P, C> Controller<P, C> {
    /// A controller with no plugin selected that has answered nothing yet.
    pub fn new() -> (r: Self)
        ensures
            r.computer is None,
            r.answered@ == Seq::<Seq<C>>::empty(),
    {
        Controller { computer: None, answered: Ghost(Seq::empty()) }
    }

    /// Makes `plugin` the one asked from the next tick on, replacing any other.
    pub fn select_computer(&mut self, plugin: P)
        ensures
            final(self).computer == Some(plugin),
            final(self).answered == old(self).answered,
    {
        self.computer = Some(plugin);
    }

    /// Removes the plugin in use, handing it back.
    pub fn clear(&mut self) -> (r: Option<P>)
        ensures
            r == old(self).computer,
            final(self).computer is None,
            final(self).answered == old(self).answered,
    {
        let mut taken: Option<P> = None;
        std::mem::swap(&mut taken, &mut self.computer);
        taken
    }

    /// Whether a plugin is selected.
    pub fn has_computer(&self) -> (r: bool)
        ensures
            r == self.computer is Some,
    {
        self.computer.is_some()
    }

    /// Asks the selected plugin for this tick's commands; with no plugin
    /// selected there are none and the world is left alone.
    pub fn retrieve_cmds<W: Simulation<C>>(&mut self, world: &mut W, actor: ActorIdentity) -> (r:
        Vec<C>) where P: DecisionPlugin<W, C>
        ensures
            final(self).answered@ == old(self).answered@.push(r@),
            final(world).executed() == old(world).executed(),
            final(world).refusals() == old(world).refusals(),
            final(world).advanced_ms() == old(world).advanced_ms(),
            old(self).computer is None ==> {
                &&& r@.len() == 0
                &&& *final(world) == *old(world)
                &&& final(self).computer is None
            },
            old(self).computer is Some ==> {
                &&& final(self).computer is Some
                &&& final(self).computer->0.answers() == old(self).computer->0.answers().push(r@)
            },
    {
        let r = match &mut self.computer {
            Some(plugin) => plugin.produce_commands(world, actor),
            None => Vec::new(),
        };
        proof {
            self.answered@ = self.answered@.push(r@);
        }
        r
    }
}

impl<W: Simulation<C>, C, P: DecisionPlugin<W, C>> DecisionPlugin<W, C> for Controller<P, C> {
    open spec fn answers(&self) -> Seq<Seq<C>> {
        self.answered@
    }

    fn produce_commands(&mut self, world: &mut W, actor: ActorIdentity) -> Vec<C> {
        self.retrieve_cmds(world, actor)
    }
}

} // verus!
