//! Live events: the messages pushed to WebSocket and SSE clients, the bridge
//! between server instances over NATS, and the forwarding loop of a socket.
use vstd::prelude::*;

use crate::error::lit;
use crate::text::same_text;

verus! {

/// An event broadcast to connected clients.
pub enum EventMsg {
    FileCreated { file_id: u128, owner_id: u128, filename: String },
    FileDeleted { file_id: u128, owner_id: u128 },
    Ping { at_ms: i64 },
}

/// The NATS subject of the bridge: `NATS_SUBJECT`, else `simu.events`.
pub fn nats_subject(configured: Option<String>) -> (r: String)
    ensures
        r@ == match configured {
            Some(s) => s@,
            None => "simu.events"@,
        },
{
    match configured {
        Some(s) => s,
        None => lit("simu.events"),
    }
}

/// An envelope that came back over NATS is passed on to local clients unless
/// this instance sent it (its `origin` is this instance's id).
pub fn relay_inbound(origin: Option<&str>, instance_id: &str) -> (r: bool)
    ensures
        r == !(origin matches Some(o) && o@ == instance_id@),
{
    match origin {
        Some(o) => !same_text(o, instance_id),
        None => true,
    }
}

/// What a socket's subscriber got from the bus.
pub enum BusReceive {
    /// An event.
    Event(EventMsg),
    /// The subscriber fell behind and this many events were dropped.
    Lagged(u64),
    /// The bus is gone.
    Closed,
}

/// What the forwarding loop of a socket does next.
pub enum ForwardAction {
    /// Send the event to the client.
    Send(EventMsg),
    /// Skip the gap and keep listening.
    Skip,
    /// Stop forwarding.
    Stop,
}

/// The step of a loop that forwards the bus: a socket's forwarder and the
/// outbound side of the NATS bridge (which publishes each event as
/// `{"origin": <instance>, "msg": <event>}` and runs for as long as the bus
/// does). An event is passed on, a lag is skipped (the loop keeps running),
/// a closed bus stops it.
pub fn forward_step(r: BusReceive) -> (a: ForwardAction)
    ensures
        match r {
            BusReceive::Event(e) => a == ForwardAction::Send(e),
            BusReceive::Lagged(_) => a == ForwardAction::Skip,
            BusReceive::Closed => a == ForwardAction::Stop,
        },
{
    match r {
        BusReceive::Event(e) => ForwardAction::Send(e),
        BusReceive::Lagged(_) => ForwardAction::Skip,
        BusReceive::Closed => ForwardAction::Stop,
    }
}

/// What the client sent on the socket.
pub enum ClientFrame {
    Close,
    Error,
    Other,
}

/// The reading side of the socket runs until the client closes or the
/// connection fails; other frames are ignored.
pub fn socket_open_after(frame: ClientFrame) -> (r: bool)
    ensures
        r == (frame == ClientFrame::Other),
{
    match frame {
        ClientFrame::Close => false,
        ClientFrame::Error => false,
        ClientFrame::Other => true,
    }
}

} // verus!
