//! Relaying one connection through a work connection: how each event on
//! either side is handled, and the bytes counted each way. The same rules
//! serve the server (user side ↔ work connection) and the client (local
//! service ↔ work connection), for streams and for UDP.
use vstd::prelude::*;

verus! {

/// Bytes relayed so far.
#[derive(Debug, Clone, Copy, PartialEq, Eq, Structural)]
pub struct BridgeCounters {
    /// Bytes read on the near side and sent into the work connection.
    pub bytes_in: u64,
    /// Bytes taken from the work connection and written to the near side.
    pub bytes_out: u64,
}

/// What happens on a relayed connection.
pub enum BridgeEvent {
    /// `len` bytes arrived on the near side (the user or the local
    /// service).
    Near { len: u64 },
    /// The near side reached its end (a read of zero bytes).
    NearEnd,
    /// Nothing more will come from the near side (its channel closed or a
    /// read failed).
    NearGone,
    /// A data message of `len` bytes arrived from the work connection
    /// (`len` is positive).
    TunnelData { len: u64 },
    /// An empty data message arrived: the other end closed.
    TunnelEnd,
    /// A control message arrived from the work connection.
    TunnelControl,
    /// The work connection failed or closed.
    TunnelGone,
    /// Writing to either side failed.
    WriteFailed,
    /// A near-side chunk of `len` bytes went into the work connection.
    SentToTunnel { len: u64 },
    /// A data message of `len` bytes was written to the near side.
    WrittenToNear { len: u64 },
}

/// What the relay does next.
#[derive(Debug, Clone, Copy, PartialEq, Eq, Structural)]
pub enum BridgeAction {
    /// Send the bytes in a data message of this connection.
    SendToTunnel,
    /// Write the bytes to the near side.
    WriteToNear,
    /// Send an empty data message, close the work connection, and stop.
    CloseTunnel,
    /// Shut the near side down, and stop.
    CloseNear,
    /// Nothing to do.
    Ignore,
    /// Stop relaying.
    Stop,
    /// Report this much traffic of the rule (as each chunk is delivered).
    Report { bytes_in: u64, bytes_out: u64 },
}

/// The counters and the action after an event.
pub open spec fn bridge_next(c: BridgeCounters, e: BridgeEvent) -> (BridgeCounters, BridgeAction) {
    match e {
        BridgeEvent::Near { len } => (
            BridgeCounters { bytes_in: (c.bytes_in + len) as u64, ..c },
            BridgeAction::SendToTunnel,
        ),
        BridgeEvent::NearEnd => (c, BridgeAction::CloseTunnel),
        BridgeEvent::NearGone => (c, BridgeAction::Stop),
        BridgeEvent::TunnelData { len } => (
            BridgeCounters { bytes_out: (c.bytes_out + len) as u64, ..c },
            BridgeAction::WriteToNear,
        ),
        BridgeEvent::TunnelEnd => (c, BridgeAction::CloseNear),
        BridgeEvent::TunnelControl => (c, BridgeAction::Ignore),
        BridgeEvent::TunnelGone => (c, BridgeAction::Stop),
        BridgeEvent::WriteFailed => (c, BridgeAction::Stop),
        BridgeEvent::SentToTunnel { len } => (c, BridgeAction::Report { bytes_in: len, bytes_out: 0 }),
        BridgeEvent::WrittenToNear { len } => (c, BridgeAction::Report { bytes_in: 0, bytes_out: len }),
    }
}

/// Whether the counters can take the event without overflow.
pub open spec fn bridge_fits(c: BridgeCounters, e: BridgeEvent) -> bool {
    match e {
        BridgeEvent::Near { len } => c.bytes_in + len <= u64::MAX,
        BridgeEvent::TunnelData { len } => c.bytes_out + len <= u64::MAX,
        _ => true,
    }
}

/// One step of a relay: near-side bytes go into the work connection and
/// are counted in, work-connection bytes go to the near side and are
/// counted out, each chunk once delivered is reported as the rule's
/// traffic, control messages are ignored, and an end on either side closes
/// the other.
pub fn bridge_step(c: BridgeCounters, e: BridgeEvent) -> (r: (BridgeCounters, BridgeAction))
    requires
        bridge_fits(c, e),
    ensures
        r == bridge_next(c, e),
{
    match e {
        BridgeEvent::Near { len } => (
            BridgeCounters { bytes_in: c.bytes_in + len, ..c },
            BridgeAction::SendToTunnel,
        ),
        BridgeEvent::NearEnd => (c, BridgeAction::CloseTunnel),
        BridgeEvent::NearGone => (c, BridgeAction::Stop),
        BridgeEvent::TunnelData { len } => (
            BridgeCounters { bytes_out: c.bytes_out + len, ..c },
            BridgeAction::WriteToNear,
        ),
        BridgeEvent::TunnelEnd => (c, BridgeAction::CloseNear),
        BridgeEvent::TunnelControl => (c, BridgeAction::Ignore),
        BridgeEvent::TunnelGone => (c, BridgeAction::Stop),
        BridgeEvent::WriteFailed => (c, BridgeAction::Stop),
        BridgeEvent::SentToTunnel { len } => (c, BridgeAction::Report { bytes_in: len, bytes_out: 0 }),
        BridgeEvent::WrittenToNear { len } => (c, BridgeAction::Report { bytes_in: 0, bytes_out: len }),
    }
}

/// The counters after a run of events.
pub open spec fn bridge_run(c: BridgeCounters, es: Seq<BridgeEvent>) -> BridgeCounters
    decreases es.len(),
{
    if es.len() == 0 {
        c
    } else {
        bridge_run(bridge_next(c, es[0]).0, es.drop_first())
    }
}

/// The bytes of the near-side chunks in a run of events.
pub open spec fn near_bytes(es: Seq<BridgeEvent>) -> int
    decreases es.len(),
{
    if es.len() == 0 {
        0
    } else {
        (match es[0] {
            BridgeEvent::Near { len } => len as int,
            _ => 0,
        }) + near_bytes(es.drop_first())
    }
}

/// The bytes of the work-connection data messages in a run of events.
pub open spec fn tunnel_bytes(es: Seq<BridgeEvent>) -> int
    decreases es.len(),
{
    if es.len() == 0 {
        0
    } else {
        (match es[0] {
            BridgeEvent::TunnelData { len } => len as int,
            _ => 0,
        }) + tunnel_bytes(es.drop_first())
    }
}

/// The counters count exactly the bytes relayed each way: after any run of
/// events that fits in the counters, `bytes_in` has grown by the near-side
/// bytes and `bytes_out` by the work-connection bytes.
pub proof fn lemma_bridge_counts(c: BridgeCounters, es: Seq<BridgeEvent>)
    requires
        c.bytes_in + near_bytes(es) <= u64::MAX,
        c.bytes_out + tunnel_bytes(es) <= u64::MAX,
    ensures
        bridge_run(c, es).bytes_in == c.bytes_in + near_bytes(es),
        bridge_run(c, es).bytes_out == c.bytes_out + tunnel_bytes(es),
    decreases es.len(),
{
    if es.len() > 0 {
        lemma_near_bytes_nonneg(es.drop_first());
        lemma_tunnel_bytes_nonneg(es.drop_first());
        lemma_bridge_counts(bridge_next(c, es[0]).0, es.drop_first());
    }
}

/// Byte sums are never negative.
proof fn lemma_near_bytes_nonneg(es: Seq<BridgeEvent>)
    ensures
        near_bytes(es) >= 0,
    decreases es.len(),
{
    if es.len() > 0 {
        lemma_near_bytes_nonneg(es.drop_first());
    }
}

/// Byte sums are never negative.
proof fn lemma_tunnel_bytes_nonneg(es: Seq<BridgeEvent>)
    ensures
        tunnel_bytes(es) >= 0,
    decreases es.len(),
{
    if es.len() > 0 {
        lemma_tunnel_bytes_nonneg(es.drop_first());
    }
}

} // verus!
