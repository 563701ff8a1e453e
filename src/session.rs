//! The capture session: per-block connection management toward the chosen
//! source port, and the relay of that block's events.
use vstd::prelude::*;
use crate::relay::{Flow, Relay};

verus! {

/// What a block finds of the link from the chosen source port to the
/// session's input port.
#[derive(Copy, Clone, Debug, PartialEq, Eq, Structural)]
pub enum LinkState {
    /// The source port could not be resolved in this block.
    Unresolved,
    /// The source port exists and is not connected to the input port.
    Unlinked,
    /// The source port is connected to the input port.
    Linked,
}

/// What a block does about the link.
#[derive(Copy, Clone, Debug, PartialEq, Eq, Structural)]
pub enum LinkAction {
    /// Leave the graph as it is.
    Skip,
    /// Try, once, to connect the source port to the input port.
    Connect,
}

/// A connection is attempted exactly when the source exists and is not
/// connected; an unresolved source is left for a later block.
pub open spec fn link_action(s: LinkState) -> LinkAction {
    if s == LinkState::Unlinked {
        LinkAction::Connect
    } else {
        LinkAction::Skip
    }
}

/// How many connection attempts a run of blocks that found `states` makes.
pub open spec fn attempts(states: Seq<LinkState>) -> nat
    decreases states.len(),
{
    if states.len() == 0 {
        0
    } else {
        attempts(states.drop_last()) + if link_action(states.last()) == LinkAction::Connect {
            1nat
        } else {
            0nat
        }
    }
}

/// The connection step of one block.
pub fn link_step(s: LinkState) -> (r: LinkAction)
    ensures
        r == link_action(s),
{
    match s {
        LinkState::Unlinked => LinkAction::Connect,
        _ => LinkAction::Skip,
    }
}

/// Once the link stands, further blocks make no further attempts: over a run
/// of blocks that all find the link in place after the first, at most the
/// first block attempts a connection, and only if it found the link missing.
pub proof fn lemma_linked_blocks_attempt_nothing(states: Seq<LinkState>)
    requires
        forall|i: int| 1 <= i < states.len() ==> states[i] == LinkState::Linked,
    ensures
        attempts(states) == if states.len() > 0 && states[0] == LinkState::Unlinked {
            1nat
        } else {
            0nat
        },
        attempts(states) <= 1,
    decreases states.len(),
{
    if states.len() > 1 {
        let front = states.drop_last();
        assert forall|i: int| 1 <= i < front.len() implies front[i] == LinkState::Linked by {
            assert(front[i] == states[i]);
        }
        lemma_linked_blocks_attempt_nothing(front);
        assert(front[0] == states[0]);
        assert(states.last() == states[states.len() - 1]);
    } else if states.len() == 1 {
        assert(states.drop_last().len() == 0);
        assert(attempts(states.drop_last()) == 0);
        assert(states.last() == states[0]);
    }
}

/// The capture session: the name of the chosen source port, resolved again
/// in every block, and the relay of captured events.
pub struct CaptureSession {
    source: String,
    relay: Relay,
}

impl CaptureSession {
    pub closed spec fn spec_source(self) -> Seq<char> {
        self.source@
    }

    pub closed spec fn spec_relay(self) -> Relay {
        self.relay
    }

    /// A session for the source port named `source`, sending through `relay`.
    pub fn new(source: String, relay: Relay) -> (r: CaptureSession)
        ensures
            r.spec_source() == source@,
            r.spec_relay() == relay,
    {
        CaptureSession { source, relay }
    }

    /// The name of the chosen source port.
    pub fn source(&self) -> (r: &String)
        ensures
            r@ == self.spec_source(),
    {
        &self.source
    }

    /// The relay of this session.
    pub fn relay(&self) -> (r: &Relay)
        ensures
            *r == self.spec_relay(),
    {
        &self.relay
    }

    /// The connection step of one block, given what the block found of the link.
    pub fn connection_step(&self, s: LinkState) -> (r: LinkAction)
        ensures
            r == link_action(s),
    {
        link_step(s)
    }

    /// Captures one event of the current block and offers it to the channel.
    pub fn on_event(&mut self, bytes: &[u8], time: u32) -> (r: Flow)
        ensures
            final(self).spec_source() == old(self).spec_source(),
            old(self).spec_relay().offers(final(self).spec_relay(), bytes@, time, r),
    {
        self.relay.offer(bytes, time)
    }
}

} // verus!
