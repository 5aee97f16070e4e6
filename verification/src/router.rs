//! Routing of stream messages: every message becomes a counter bump, a batch
//! forwarded on exactly one downstream channel, or a heartbeat emission.

use vstd::prelude::*;
use crate::stats::RelayerStageStats;

verus! {

/// One packet as carried in a batch: opaque payload bytes.
pub struct Packet {
    pub data: Vec<u8>,
}

impl View for Packet {
    type V = Seq<u8>;

    open spec fn view(&self) -> Seq<u8> {
        self.data@
    }
}

impl Clone for Packet {
    fn clone(&self) -> (r: Self)
        ensures
            r@ == self@,
    {
        let mut data: Vec<u8> = Vec::new();
        let mut i: usize = 0;
        while i < self.data.len()
            invariant
                i <= self.data@.len(),
                data@.len() == i,
                forall|j: int| 0 <= j < i ==> data@[j] == self.data@[j],
            decreases self.data@.len() - i,
        {
            data.push(self.data[i]);
            i += 1;
        }
        assert(data@ =~= self.data@);
        Packet { data }
    }
}

/// A message from the packet subscription stream.
pub enum ServerMessage {
    /// A message with no body.
    Empty,
    /// A batch of packets.
    Batch(Vec<Packet>),
    /// A liveness signal doubling as the command to keep ingress overridden.
    Heartbeat,
}

/// The mathematical value of a stream message.
pub enum MsgView {
    Empty,
    Batch(Seq<Seq<u8>>),
    Heartbeat,
}

impl View for ServerMessage {
    type V = MsgView;

    open spec fn view(&self) -> MsgView {
        match self {
            ServerMessage::Empty => MsgView::Empty,
            ServerMessage::Batch(ps) => MsgView::Batch(ps@.map_values(|p: Packet| p@)),
            ServerMessage::Heartbeat => MsgView::Heartbeat,
        }
    }
}

/// What the consumer does with one stream message, beyond counting.
pub enum RouteAction {
    /// Send the batch on the unverified packet channel.
    ForwardUntrusted(Vec<Packet>),
    /// Send the batch on the verified packet channel (no tracer stats).
    ForwardTrusted(Vec<Packet>),
    /// Send the session's heartbeat event on the heartbeat channel.
    EmitHeartbeat,
}

/// The mathematical value of a routing action.
pub enum ActionView {
    ForwardUntrusted(Seq<Seq<u8>>),
    ForwardTrusted(Seq<Seq<u8>>),
    EmitHeartbeat,
}

impl View for RouteAction {
    type V = ActionView;

    open spec fn view(&self) -> ActionView {
        match self {
            RouteAction::ForwardUntrusted(ps) => ActionView::ForwardUntrusted(
                ps@.map_values(|p: Packet| p@),
            ),
            RouteAction::ForwardTrusted(ps) => ActionView::ForwardTrusted(
                ps@.map_values(|p: Packet| p@),
            ),
            RouteAction::EmitHeartbeat => ActionView::EmitHeartbeat,
        }
    }
}

/// The actions one message causes: nothing for an empty message or an empty
/// batch, one forward on the channel picked by `trust`, or one heartbeat.
pub open spec fn spec_route(m: MsgView, trust: bool) -> Seq<ActionView> {
    match m {
        MsgView::Empty => Seq::empty(),
        MsgView::Batch(ps) => if ps.len() == 0 {
            Seq::empty()
        } else if trust {
            seq![ActionView::ForwardTrusted(ps)]
        } else {
            seq![ActionView::ForwardUntrusted(ps)]
        },
        MsgView::Heartbeat => seq![ActionView::EmitHeartbeat],
    }
}

/// Saturating counter bump.
pub open spec fn sat_add(x: u64, k: nat) -> u64 {
    if x + k > u64::MAX {
        u64::MAX
    } else {
        (x + k) as u64
    }
}

/// The counters after one message: empties bump the empty counter, non-empty
/// batches add their packet count, heartbeats bump the heartbeat counter.
pub open spec fn spec_stats_after(m: MsgView, s: RelayerStageStats) -> RelayerStageStats {
    match m {
        MsgView::Empty => RelayerStageStats {
            num_empty_messages: sat_add(s.num_empty_messages, 1),
            ..s
        },
        MsgView::Batch(ps) => if ps.len() == 0 {
            RelayerStageStats { num_empty_messages: sat_add(s.num_empty_messages, 1), ..s }
        } else {
            RelayerStageStats { num_packets: sat_add(s.num_packets, ps.len()), ..s }
        },
        MsgView::Heartbeat => RelayerStageStats {
            num_heartbeats: sat_add(s.num_heartbeats, 1),
            ..s
        },
    }
}

/// Whether the message is a heartbeat (which refreshes the watchdog).
pub open spec fn is_heartbeat(m: MsgView) -> bool {
    m is Heartbeat
}

/// Routes one stream message: updates the counters and returns the action to
/// perform, if any.  A batch goes to exactly one channel, picked by `trust`.
pub fn route_message(msg: ServerMessage, trust: bool, stats: &mut RelayerStageStats) -> (r:
    Option<RouteAction>)
    ensures
        *final(stats) == spec_stats_after(msg@, *old(stats)),
        match r {
            Some(a) => seq![a@] =~= spec_route(msg@, trust),
            None => spec_route(msg@, trust) =~= Seq::<ActionView>::empty(),
        },
{
    match msg {
        ServerMessage::Empty => {
            stats.num_empty_messages = stats.num_empty_messages.saturating_add(1);
            None
        },
        ServerMessage::Batch(ps) => {
            if ps.len() == 0 {
                stats.num_empty_messages = stats.num_empty_messages.saturating_add(1);
                assert(ps@.map_values(|p: Packet| p@).len() == 0);
                None
            } else {
                let n = ps.len() as u64;
                stats.num_packets = stats.num_packets.saturating_add(n);
                assert(ps@.map_values(|p: Packet| p@).len() == ps@.len());
                if trust {
                    Some(RouteAction::ForwardTrusted(ps))
                } else {
                    Some(RouteAction::ForwardUntrusted(ps))
                }
            }
        },
        ServerMessage::Heartbeat => {
            stats.num_heartbeats = stats.num_heartbeats.saturating_add(1);
            Some(RouteAction::EmitHeartbeat)
        },
    }
}

/// The actions a whole message sequence causes, in order.
pub open spec fn spec_route_all(msgs: Seq<MsgView>, trust: bool) -> Seq<ActionView>
    decreases msgs.len(),
{
    if msgs.len() == 0 {
        Seq::empty()
    } else {
        spec_route_all(msgs.drop_last(), trust) + spec_route(msgs.last(), trust)
    }
}

/// The non-empty batches of a message sequence, in order.
pub open spec fn nonempty_batches(msgs: Seq<MsgView>) -> Seq<Seq<Seq<u8>>>
    decreases msgs.len(),
{
    if msgs.len() == 0 {
        Seq::empty()
    } else {
        nonempty_batches(msgs.drop_last()) + (match msgs.last() {
            MsgView::Batch(ps) => if ps.len() > 0 {
                seq![ps]
            } else {
                Seq::empty()
            },
            _ => Seq::empty(),
        })
    }
}

/// The batches forwarded by an action sequence, on either channel, in order.
pub open spec fn forwarded(actions: Seq<ActionView>) -> Seq<Seq<Seq<u8>>>
    decreases actions.len(),
{
    if actions.len() == 0 {
        Seq::empty()
    } else {
        forwarded(actions.drop_last()) + (match actions.last() {
            ActionView::ForwardUntrusted(ps) => seq![ps],
            ActionView::ForwardTrusted(ps) => seq![ps],
            ActionView::EmitHeartbeat => Seq::empty(),
        })
    }
}

/// The batches forwarded on the verified channel only.
pub open spec fn forwarded_trusted(actions: Seq<ActionView>) -> Seq<Seq<Seq<u8>>>
    decreases actions.len(),
{
    if actions.len() == 0 {
        Seq::empty()
    } else {
        forwarded_trusted(actions.drop_last()) + (match actions.last() {
            ActionView::ForwardTrusted(ps) => seq![ps],
            _ => Seq::empty(),
        })
    }
}

/// The batches forwarded on the unverified channel only.
pub open spec fn forwarded_untrusted(actions: Seq<ActionView>) -> Seq<Seq<Seq<u8>>>
    decreases actions.len(),
{
    if actions.len() == 0 {
        Seq::empty()
    } else {
        forwarded_untrusted(actions.drop_last()) + (match actions.last() {
            ActionView::ForwardUntrusted(ps) => seq![ps],
            _ => Seq::empty(),
        })
    }
}

proof fn lemma_forwarded_append_one(actions: Seq<ActionView>, tail: Seq<ActionView>)
    requires
        tail.len() <= 1,
    ensures
        forwarded(actions + tail) == forwarded(actions) + forwarded(tail),
        forwarded_trusted(actions + tail) == forwarded_trusted(actions) + forwarded_trusted(tail),
        forwarded_untrusted(actions + tail) == forwarded_untrusted(actions)
            + forwarded_untrusted(tail),
{
    reveal_with_fuel(forwarded, 2);
    reveal_with_fuel(forwarded_trusted, 2);
    reveal_with_fuel(forwarded_untrusted, 2);
    if tail.len() == 0 {
        assert(actions + tail =~= actions);
        assert(tail =~= Seq::<ActionView>::empty());
        assert(forwarded(actions) + forwarded(tail) =~= forwarded(actions));
        assert(forwarded_trusted(actions) + forwarded_trusted(tail) =~= forwarded_trusted(
            actions,
        ));
        assert(forwarded_untrusted(actions) + forwarded_untrusted(tail) =~= forwarded_untrusted(
            actions,
        ));
    } else {
        let w = actions + tail;
        assert(w.drop_last() =~= actions);
        assert(w.last() == tail.last());
        assert(tail.drop_last() =~= Seq::<ActionView>::empty());
        assert(forwarded(tail.drop_last()).len() == 0);
        assert(forwarded_trusted(tail.drop_last()).len() == 0);
        assert(forwarded_untrusted(tail.drop_last()).len() == 0);
        assert(forwarded(actions + tail) =~= forwarded(actions) + forwarded(tail));
        assert(forwarded_trusted(actions + tail) =~= forwarded_trusted(actions)
            + forwarded_trusted(tail));
        assert(forwarded_untrusted(actions + tail) =~= forwarded_untrusted(actions)
            + forwarded_untrusted(tail));
    }
}

proof fn lemma_forwarded_single(single: Seq<ActionView>)
    requires
        single.len() <= 1,
    ensures
        forwarded(single) == (if single.len() == 1 {
            match single[0] {
                ActionView::ForwardUntrusted(ps) => seq![ps],
                ActionView::ForwardTrusted(ps) => seq![ps],
                ActionView::EmitHeartbeat => Seq::<Seq<Seq<u8>>>::empty(),
            }
        } else {
            Seq::<Seq<Seq<u8>>>::empty()
        }),
        forwarded_trusted(single) == (if single.len() == 1 {
            match single[0] {
                ActionView::ForwardTrusted(ps) => seq![ps],
                _ => Seq::<Seq<Seq<u8>>>::empty(),
            }
        } else {
            Seq::<Seq<Seq<u8>>>::empty()
        }),
        forwarded_untrusted(single) == (if single.len() == 1 {
            match single[0] {
                ActionView::ForwardUntrusted(ps) => seq![ps],
                _ => Seq::<Seq<Seq<u8>>>::empty(),
            }
        } else {
            Seq::<Seq<Seq<u8>>>::empty()
        }),
{
    reveal_with_fuel(forwarded, 2);
    reveal_with_fuel(forwarded_trusted, 2);
    reveal_with_fuel(forwarded_untrusted, 2);
    if single.len() == 1 {
        assert(single.drop_last() =~= Seq::<ActionView>::empty());
        assert(forwarded(single.drop_last()).len() == 0);
        assert(forwarded_trusted(single.drop_last()).len() == 0);
        assert(forwarded_untrusted(single.drop_last()).len() == 0);
        assert(single.last() == single[0]);
        match single[0] {
            ActionView::ForwardUntrusted(ps) => {
                assert(forwarded(single) =~= seq![ps]);
                assert(forwarded_trusted(single) =~= Seq::<Seq<Seq<u8>>>::empty());
                assert(forwarded_untrusted(single) =~= seq![ps]);
            },
            ActionView::ForwardTrusted(ps) => {
                assert(forwarded(single) =~= seq![ps]);
                assert(forwarded_trusted(single) =~= seq![ps]);
                assert(forwarded_untrusted(single) =~= Seq::<Seq<Seq<u8>>>::empty());
            },
            ActionView::EmitHeartbeat => {
                assert(forwarded(single) =~= Seq::<Seq<Seq<u8>>>::empty());
                assert(forwarded_trusted(single) =~= Seq::<Seq<Seq<u8>>>::empty());
                assert(forwarded_untrusted(single) =~= Seq::<Seq<Seq<u8>>>::empty());
            },
        }
    }
}

/// Law: over any message sequence, the batches forwarded downstream are
/// exactly the non-empty batches of the stream, in the same order; empty
/// messages and heartbeats forward nothing.
pub proof fn lemma_stream_order_preserved(msgs: Seq<MsgView>, trust: bool)
    ensures
        forwarded(spec_route_all(msgs, trust)) == nonempty_batches(msgs),
    decreases msgs.len(),
{
    if msgs.len() == 0 {
    } else {
        lemma_stream_order_preserved(msgs.drop_last(), trust);
        lemma_forwarded_append_one(
            spec_route_all(msgs.drop_last(), trust),
            spec_route(msgs.last(), trust),
        );
        lemma_forwarded_single(spec_route(msgs.last(), trust));
        assert(forwarded(spec_route_all(msgs, trust)) =~= nonempty_batches(msgs));
    }
}

/// Law: within one session no batch is forwarded on both channels.  With
/// `trust` set the unverified channel stays silent over any message
/// sequence; without it the verified channel does.
pub proof fn lemma_single_channel(msgs: Seq<MsgView>, trust: bool)
    ensures
        trust ==> forwarded_untrusted(spec_route_all(msgs, trust)) == Seq::<Seq<Seq<u8>>>::empty(),
        !trust ==> forwarded_trusted(spec_route_all(msgs, trust)) == Seq::<Seq<Seq<u8>>>::empty(),
    decreases msgs.len(),
{
    if msgs.len() == 0 {
    } else {
        lemma_single_channel(msgs.drop_last(), trust);
        lemma_forwarded_append_one(
            spec_route_all(msgs.drop_last(), trust),
            spec_route(msgs.last(), trust),
        );
        lemma_forwarded_single(spec_route(msgs.last(), trust));
        if trust {
            assert(forwarded_untrusted(spec_route_all(msgs, trust)) =~= Seq::<
                Seq<Seq<u8>>,
            >::empty());
        } else {
            assert(forwarded_trusted(spec_route_all(msgs, trust)) =~= Seq::<
                Seq<Seq<u8>>,
            >::empty());
        }
    }
}

} // verus!
