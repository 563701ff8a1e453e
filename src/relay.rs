//! The producer side of the outbound channel: every event of a block is
//! captured and offered, in arrival order, with a non-blocking send.
use vstd::prelude::*;
use crate::capsule::MidiCopy;

verus! {

/// std's `SyncSender`, the sending end of a bounded channel, carried
/// through opaquely.
#[verifier::external_type_specification]
#[verifier::external_body]
#[verifier::reject_recursive_types(T)]
pub struct ExSyncSender<T>(std::sync::mpsc::SyncSender<T>);

/// What to do when the outbound channel is full.
#[derive(Copy, Clone, Debug, PartialEq, Eq, Structural)]
pub enum FullPolicy {
    /// Stop the callback: no event may be lost silently.
    Abort,
    /// Drop the event, count it, and keep going.
    DropAndCount,
}

/// The result of one non-blocking send.
#[derive(Copy, Clone, Debug, PartialEq, Eq, Structural)]
pub enum SendOutcome {
    Sent,
    Full,
    Disconnected,
}

/// What the real-time callback tells its scheduler.
#[derive(Copy, Clone, Debug, PartialEq, Eq, Structural)]
pub enum Flow {
    Continue,
    Quit,
}

/// The flow that follows a send with outcome `o` under `policy`.
pub open spec fn flow_after(policy: FullPolicy, o: SendOutcome) -> Flow {
    match o {
        SendOutcome::Sent => Flow::Continue,
        SendOutcome::Full => if policy == FullPolicy::Abort {
            Flow::Quit
        } else {
            Flow::Continue
        },
        SendOutcome::Disconnected => Flow::Quit,
    }
}

/// `n + 1`, held at `u64::MAX`.
pub open spec fn bump(n: u64) -> u64 {
    if n == u64::MAX {
        n
    } else {
        (n + 1) as u64
    }
}

/// Relies on std's `SyncSender::try_send`, which never blocks: it either
/// queues the capsule, or reports that the channel is full or that its
/// receiver is gone. Which of the three happens depends on the consumer.
#[verifier::external_body]
fn try_offer(sender: &std::sync::mpsc::SyncSender<MidiCopy>, c: MidiCopy) -> (r: SendOutcome) {
    match sender.try_send(c) {
        Ok(()) => SendOutcome::Sent,
        Err(std::sync::mpsc::TrySendError::Full(_)) => SendOutcome::Full,
        Err(std::sync::mpsc::TrySendError::Disconnected(_)) => SendOutcome::Disconnected,
    }
}

/// The sending end of the outbound channel, with the policy for a full
/// channel and saturating counts of the capsules sent and dropped.
pub struct Relay {
    sender: std::sync::mpsc::SyncSender<MidiCopy>,
    policy: FullPolicy,
    sent: u64,
    dropped: u64,
    offered: Ghost<Seq<MidiCopy>>,
}

impl Relay {
    /// The policy for a full channel.
    pub closed spec fn spec_policy(self) -> FullPolicy {
        self.policy
    }

    /// The count of capsules sent.
    pub closed spec fn spec_sent(self) -> u64 {
        self.sent
    }

    /// The count of capsules dropped on a full channel.
    pub closed spec fn spec_dropped(self) -> u64 {
        self.dropped
    }

    /// Every capsule offered to the channel so far, in the order offered.
    pub closed spec fn offered(self) -> Seq<MidiCopy> {
        self.offered@
    }

    /// `next` is this relay after a send with outcome `o`: the counts move
    /// by that outcome, and nothing else changes.
    pub open spec fn counted(self, next: Relay, o: SendOutcome) -> bool {
        &&& next.spec_policy() == self.spec_policy()
        &&& next.offered() == self.offered()
        &&& next.spec_sent() == if o == SendOutcome::Sent {
            bump(self.spec_sent())
        } else {
            self.spec_sent()
        }
        &&& next.spec_dropped() == if o == SendOutcome::Full {
            bump(self.spec_dropped())
        } else {
            self.spec_dropped()
        }
    }

    /// `next` is this relay after offering the event `bytes` at `time`:
    /// its capsule is appended to what was offered, and the counts and the
    /// returned flow follow from one of the outcomes of the send.
    pub open spec fn offers(self, next: Relay, bytes: Seq<u8>, time: u32, r: Flow) -> bool {
        &&& next.offered().len() == self.offered().len() + 1
        &&& next.offered().drop_last() == self.offered()
        &&& next.offered().last().captured(bytes, time)
        &&& next.spec_policy() == self.spec_policy()
        &&& exists|o: SendOutcome|
            #![trigger flow_after(self.spec_policy(), o)]
            {
                &&& r == flow_after(self.spec_policy(), o)
                &&& next.spec_sent() == if o == SendOutcome::Sent {
                    bump(self.spec_sent())
                } else {
                    self.spec_sent()
                }
                &&& next.spec_dropped() == if o == SendOutcome::Full {
                    bump(self.spec_dropped())
                } else {
                    self.spec_dropped()
                }
            }
    }

    /// A relay over `sender` with nothing sent or dropped yet.
    pub fn new(sender: std::sync::mpsc::SyncSender<MidiCopy>, policy: FullPolicy) -> (r: Relay)
        ensures
            r.spec_policy() == policy,
            r.spec_sent() == 0,
            r.spec_dropped() == 0,
            r.offered() == Seq::<MidiCopy>::empty(),
    {
        Relay { sender, policy, sent: 0, dropped: 0, offered: Ghost(Seq::empty()) }
    }

    /// Counts the outcome of one send and says whether the callback goes on:
    /// a full channel stops it under `Abort` and is counted as a drop under
    /// `DropAndCount`; a gone receiver always stops it.
    pub fn record(&mut self, o: SendOutcome) -> (r: Flow)
        ensures
            r == flow_after(old(self).spec_policy(), o),
            old(self).counted(*final(self), o),
    {
        match o {
            SendOutcome::Sent => {
                self.sent = self.sent.saturating_add(1);
                Flow::Continue
            },
            SendOutcome::Full => {
                self.dropped = self.dropped.saturating_add(1);
                match self.policy {
                    FullPolicy::Abort => Flow::Quit,
                    FullPolicy::DropAndCount => Flow::Continue,
                }
            },
            SendOutcome::Disconnected => Flow::Quit,
        }
    }

    /// Captures the event `bytes` at `time` and offers the capsule to the
    /// channel without blocking.
    pub fn offer(&mut self, bytes: &[u8], time: u32) -> (r: Flow)
        ensures
            old(self).offers(*final(self), bytes@, time, r),
    {
        let c = MidiCopy::capture(bytes, time);
        let o = try_offer(&self.sender, c);
        self.offered = Ghost(self.offered@.push(c));
        let r = self.record(o);
        assert(self.offered().drop_last() =~= old(self).offered());
        assert(r == flow_after(old(self).spec_policy(), o));
        r
    }

    /// The policy for a full channel.
    pub fn policy(&self) -> (r: FullPolicy)
        ensures
            r == self.spec_policy(),
    {
        self.policy
    }

    /// How many capsules were sent, held at `u64::MAX`.
    pub fn sent_count(&self) -> (r: u64)
        ensures
            r == self.spec_sent(),
    {
        self.sent
    }

    /// How many capsules were dropped on a full channel, held at `u64::MAX`.
    pub fn dropped_count(&self) -> (r: u64)
        ensures
            r == self.spec_dropped(),
    {
        self.dropped
    }
}

/// Offering the events of a block one after another, in arrival order, hands
/// the channel their capsules in that same order, each right after the last
/// one offered before.
pub proof fn lemma_block_keeps_arrival_order(
    states: Seq<Relay>,
    events: Seq<(Seq<u8>, u32)>,
    flows: Seq<Flow>,
)
    requires
        states.len() == events.len() + 1,
        flows.len() == events.len(),
        forall|k: int|
            0 <= k < events.len() ==> #[trigger] states[k].offers(
                states[k + 1],
                events[k].0,
                events[k].1,
                flows[k],
            ),
    ensures
        states.last().offered().len() == states[0].offered().len() + events.len(),
        states.last().offered().subrange(0, states[0].offered().len() as int)
            == states[0].offered(),
        forall|k: int|
            0 <= k < events.len() ==> (#[trigger] states.last().offered()[states[0].offered().len()
                + k]).captured(events[k].0, events[k].1),
    decreases events.len(),
{
    let n = events.len() as int;
    let base = states[0].offered().len() as int;
    if n == 0 {
        assert(states.last().offered().subrange(0, base) =~= states[0].offered());
    } else {
        let s2 = states.subrange(0, n);
        let e2 = events.subrange(0, n - 1);
        let f2 = flows.subrange(0, n - 1);
        assert forall|k: int| 0 <= k < e2.len() implies #[trigger] s2[k].offers(
            s2[k + 1],
            e2[k].0,
            e2[k].1,
            f2[k],
        ) by {
            assert(states[k].offers(states[k + 1], events[k].0, events[k].1, flows[k]));
        }
        lemma_block_keeps_arrival_order(s2, e2, f2);
        assert(states[n - 1].offers(states[n], events[n - 1].0, events[n - 1].1, flows[n - 1]));
        let prev = states[n - 1].offered();
        let last = states[n].offered();
        assert(s2.last() == states[n - 1]);
        assert(last.drop_last() == prev);
        assert forall|k: int| 0 <= k < n implies (#[trigger] last[base + k]).captured(
            events[k].0,
            events[k].1,
        ) by {
            if k < n - 1 {
                assert(e2[k] == events[k]);
                assert(last[base + k] == last.drop_last()[base + k]);
            }
        }
        assert(last.subrange(0, base) =~= prev.subrange(0, base));
    }
}

} // verus!
