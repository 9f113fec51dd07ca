use vstd::prelude::*;
use crate::models::{CallbackPayload, ControlMessage};

verus! {

/// The gossip topic every room swarm subscribes to.
pub const GOSSIP_TOPIC: &'static str = "test-net";

/// The protocol name announced by the identity exchange.
pub const IDENTIFY_PROTOCOL: &'static str = "/ssegning/1.0.0";

/// The name of the application event that carries a gossip message.
pub const MESSAGE_EVENT: &'static str = "message";

/// The text of bytes, with each invalid UTF-8 sequence replaced.
pub uninterp spec fn utf8_lossy(b: Seq<u8>) -> Seq<char>;

/// Relies on String::from_utf8_lossy: the text of the bytes, invalid
/// sequences replaced by U+FFFD.
#[verifier::external_body]
fn lossy_text(b: &Vec<u8>) -> (r: String)
    ensures
        r@ == utf8_lossy(b@),
{
    String::from_utf8_lossy(b.as_slice()).into_owned()
}

/// Which node drives the event loop.
#[derive(Debug, Clone, Copy, PartialEq, Eq, Structural)]
pub enum NodeRole {
    /// A room swarm: gossip messages go to the listeners.
    Room,
    /// The bootstrap node: gossip messages are only logged.
    Bootstrap,
}

/// A swarm event, as the event loop sees it. Peers are peer id bytes and
/// addresses multi-address bytes.
#[derive(Debug)]
pub enum SwarmEvent {
    /// Local discovery found peers.
    MdnsDiscovered(Vec<Vec<u8>>),
    /// Peers found by local discovery expired.
    MdnsExpired(Vec<Vec<u8>>),
    /// A keep-alive round trip, in milliseconds.
    PingSucceeded { peer: Vec<u8>, rtt_millis: u64 },
    /// A keep-alive failure.
    PingFailed { peer: Vec<u8> },
    /// A gossip message arrived.
    GossipMessage { source: Vec<u8>, id: Vec<u8>, data: Vec<u8> },
    /// A peer told us the address at which it sees us.
    IdentifyReceived { peer: Vec<u8>, observed_addr: Vec<u8> },
    /// Any other event of a protocol, a connection or a listener: logged only.
    Other,
}

/// An application event for the listeners: a name and a payload.
#[derive(Debug)]
pub struct AppEvent {
    pub name: String,
    pub payload: CallbackPayload,
}

/// What the event loop does in answer to an event.
#[derive(Debug)]
pub enum SwarmAction {
    /// Add the peer as an explicit gossip peer.
    AddExplicitPeer(Vec<u8>),
    /// Remove the peer as an explicit gossip peer.
    RemoveExplicitPeer(Vec<u8>),
    /// Hand the event to every listener, in registration order.
    Forward(AppEvent),
    /// Record an address at which this node is reachable.
    AddExternalAddress(Vec<u8>),
}

/// The meaning of an action.
pub enum ActionSpec {
    AddExplicitPeer(Seq<u8>),
    RemoveExplicitPeer(Seq<u8>),
    Forward(Seq<char>, Seq<char>),
    AddExternalAddress(Seq<u8>),
}

impl View for SwarmAction {
    type V = ActionSpec;

    open spec fn view(&self) -> ActionSpec {
        match self {
            SwarmAction::AddExplicitPeer(p) => ActionSpec::AddExplicitPeer(p@),
            SwarmAction::RemoveExplicitPeer(p) => ActionSpec::RemoveExplicitPeer(p@),
            SwarmAction::Forward(e) => ActionSpec::Forward(e.name@, e.payload.data@),
            SwarmAction::AddExternalAddress(a) => ActionSpec::AddExternalAddress(a@),
        }
    }
}

/// The meanings of a list of actions.
pub open spec fn action_views(v: Seq<SwarmAction>) -> Seq<ActionSpec> {
    v.map_values(|a: SwarmAction| a@)
}

/// Peers added as explicit gossip peers.
pub open spec fn add_peers(peers: Seq<Vec<u8>>) -> Seq<ActionSpec> {
    peers.map_values(|p: Vec<u8>| ActionSpec::AddExplicitPeer(p@))
}

/// Peers removed as explicit gossip peers.
pub open spec fn remove_peers(peers: Seq<Vec<u8>>) -> Seq<ActionSpec> {
    peers.map_values(|p: Vec<u8>| ActionSpec::RemoveExplicitPeer(p@))
}

/// The actions that answer `event` on a node of the given role.
pub open spec fn actions_for(role: NodeRole, event: SwarmEvent) -> Seq<ActionSpec> {
    match event {
        SwarmEvent::MdnsDiscovered(peers) => add_peers(peers@),
        SwarmEvent::MdnsExpired(peers) => remove_peers(peers@),
        SwarmEvent::GossipMessage { data, .. } => if role == NodeRole::Room {
            seq![ActionSpec::Forward(MESSAGE_EVENT@, utf8_lossy(data@))]
        } else {
            Seq::empty()
        },
        SwarmEvent::IdentifyReceived { observed_addr, .. } => seq![ActionSpec::AddExternalAddress(observed_addr@)],
        _ => Seq::empty(),
    }
}

fn peer_actions(peers: &Vec<Vec<u8>>, add: bool) -> (r: Vec<SwarmAction>)
    ensures
        add ==> action_views(r@) == add_peers(peers@),
        !add ==> action_views(r@) == remove_peers(peers@),
{
    let mut out: Vec<SwarmAction> = Vec::new();
    let mut i: usize = 0;
    while i < peers.len()
        invariant
            i <= peers@.len(),
            add ==> action_views(out@) == add_peers(peers@.subrange(0, i as int)),
            !add ==> action_views(out@) == remove_peers(peers@.subrange(0, i as int)),
        decreases peers.len() - i,
    {
        let ghost before = out@;
        let p = crate::models::copy_bytes(&peers[i]);
        if add {
            out.push(SwarmAction::AddExplicitPeer(p));
        } else {
            out.push(SwarmAction::RemoveExplicitPeer(p));
        }
        proof {
            assert(peers@.subrange(0, i + 1) =~= peers@.subrange(0, i as int).push(peers@[i as int]));
            assert(action_views(out@) =~= action_views(before).push(out@[i as int]@));
            assert(add_peers(peers@.subrange(0, i + 1)) =~= add_peers(peers@.subrange(0, i as int)).push(ActionSpec::AddExplicitPeer(peers@[i as int]@)));
            assert(remove_peers(peers@.subrange(0, i + 1)) =~= remove_peers(peers@.subrange(0, i as int)).push(ActionSpec::RemoveExplicitPeer(peers@[i as int]@)));
        }
        i = i + 1;
    }
    assert(peers@.subrange(0, i as int) =~= peers@);
    out
}

/// Decides how the event loop answers one event: discovered peers become
/// explicit gossip peers and expired ones stop being so, a gossip message on
/// a room becomes an application event for the listeners, and an address
/// observed by a peer is recorded. Everything else is only logged.
pub fn process_swarm_event(role: NodeRole, event: &SwarmEvent) -> (r: Vec<SwarmAction>)
    ensures
        action_views(r@) == actions_for(role, *event),
{
    match event {
        SwarmEvent::MdnsDiscovered(peers) => peer_actions(peers, true),
        SwarmEvent::MdnsExpired(peers) => peer_actions(peers, false),
        SwarmEvent::GossipMessage { data, .. } => {
            if role == NodeRole::Room {
                let ev = AppEvent {
                    name: MESSAGE_EVENT.to_owned(),
                    payload: CallbackPayload { data: lossy_text(data) },
                };
                let r: Vec<SwarmAction> = vec![SwarmAction::Forward(ev)];
                assert(action_views(r@) =~= actions_for(role, *event));
                r
            } else {
                let r: Vec<SwarmAction> = Vec::new();
                assert(action_views(r@) =~= actions_for(role, *event));
                r
            }
        },
        SwarmEvent::IdentifyReceived { observed_addr, .. } => {
            let r: Vec<SwarmAction> = vec![SwarmAction::AddExternalAddress(crate::models::copy_bytes(observed_addr))];
            assert(action_views(r@) =~= actions_for(role, *event));
            r
        },
        _ => {
            let r: Vec<SwarmAction> = Vec::new();
            assert(action_views(r@) =~= actions_for(role, *event));
            r
        },
    }
}

/// What a look at the control channel found.
#[derive(Debug, Clone, Copy, PartialEq, Eq, Structural)]
pub enum ControlPoll {
    /// A control message was waiting.
    Received(ControlMessage),
    /// No message was waiting.
    Empty,
    /// The sending side is gone: no stop can ever arrive.
    Disconnected,
}

/// Whether the event loop goes on.
#[derive(Debug, Clone, Copy, PartialEq, Eq, Structural)]
pub enum LoopStep {
    Continue,
    Stop,
}

/// Decides, at an iteration boundary, whether the event loop goes on: it
/// stops on a stop message or when no stop can arrive any more, and goes on
/// otherwise. A failure while handling an event never stops it.
pub fn run_swarm_step(poll: ControlPoll) -> (r: LoopStep)
    ensures
        r == LoopStep::Stop <==> (poll == ControlPoll::Received(ControlMessage::Stop) || poll == ControlPoll::Disconnected),
{
    match poll {
        ControlPoll::Received(ControlMessage::Stop) => LoopStep::Stop,
        ControlPoll::Empty => LoopStep::Continue,
        ControlPoll::Disconnected => LoopStep::Stop,
    }
}

/// Hands an event to every listener, in registration order; a listener
/// whose call fails does not keep the next ones from being called. The
/// result holds, for each listener in turn, what its call returned.
pub fn notify_listeners<L, F: Fn(&L, &AppEvent) -> bool>(listeners: &Vec<L>, event: &AppEvent, call: F) -> (r: Vec<bool>)
    requires
        forall|i: int| 0 <= i < listeners@.len() ==> call.requires((&listeners@[i], event)),
    ensures
        r@.len() == listeners@.len(),
        forall|i: int| 0 <= i < listeners@.len() ==> call.ensures((&listeners@[i], event), #[trigger] r@[i]),
{
    let mut out: Vec<bool> = Vec::new();
    let mut i: usize = 0;
    while i < listeners.len()
        invariant
            i <= listeners@.len(),
            out@.len() == i,
            forall|j: int| 0 <= j < listeners@.len() ==> call.requires((&listeners@[j], event)),
            forall|j: int| 0 <= j < i ==> call.ensures((&listeners@[j], event), #[trigger] out@[j]),
        decreases listeners.len() - i,
    {
        let ok = call(&listeners[i], event);
        out.push(ok);
        i = i + 1;
    }
    out
}

} // verus!
