//! The queue of structural changes that a pass collects for one entity.

use crate::component::{Component, ComponentKind};
use vstd::prelude::*;

verus! {

/// A structural change to one entity, queued for the scene store.
#[derive(Clone, Copy, Debug, PartialEq, Eq, Structural)]
pub enum EntityCommand {
    /// Attach the value, in place of any value of the same type.
    Insert(Component),
    /// Detach the value of this type, if there is one.
    Remove(ComponentKind),
}

/// The structural changes queued for one entity, oldest first. Nothing
/// happens to the scene until the store applies the queue.
#[derive(Debug)]
pub struct EntityCommands {
    queue: Vec<EntityCommand>,
}

impl View for EntityCommands {
    type V = Seq<EntityCommand>;

    closed spec fn view(&self) -> Seq<EntityCommand> {
        self.queue@
    }
}

impl EntityCommands {
    /// An empty queue.
    pub fn new() -> (commands: Self)
        ensures
            commands@ == Seq::<EntityCommand>::empty(),
    {
        EntityCommands { queue: Vec::new() }
    }

    /// Queues the attachment of `component`.
    pub fn insert(&mut self, component: Component)
        ensures
            final(self)@ == old(self)@.push(EntityCommand::Insert(component)),
    {
        self.queue.push(EntityCommand::Insert(component));
    }

    /// Queues the detachment of the component of type `kind`.
    pub fn remove(&mut self, kind: ComponentKind)
        ensures
            final(self)@ == old(self)@.push(EntityCommand::Remove(kind)),
    {
        self.queue.push(EntityCommand::Remove(kind));
    }

    /// How many commands are queued.
    pub fn len(&self) -> (len: usize)
        ensures
            len == self@.len(),
    {
        self.queue.len()
    }

    /// The command at position `index`, counted from the oldest.
    pub fn get(&self, index: usize) -> (command: Option<EntityCommand>)
        ensures
            command == (if index < self@.len() {
                Some(self@[index as int])
            } else {
                None
            }),
    {
        if index < self.queue.len() {
            Some(self.queue[index])
        } else {
            None
        }
    }
}

} // verus!
