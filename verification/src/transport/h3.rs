//! The bridge between an HTTP/3 stream and the tunnel's pipe: four loops, none of which waits
//! for another.

use vstd::prelude::*;

verus! {

/// Size of the bridge's buffer.
pub const BRIDGE_BUF: usize = 32768;

/// How one turn of a loop went.
#[derive(Debug, Clone, Copy, PartialEq, Eq, Structural)]
pub enum H3BridgeEvent {
    /// Bytes arrived and were passed on.
    Moved,
    /// The source has ended or failed.
    SourceEnded,
    /// The sink is gone.
    SinkGone,
}

/// What a loop does after a turn.
#[derive(Debug, Clone, Copy, PartialEq, Eq, Structural)]
pub enum H3BridgeNext {
    /// Take the next turn.
    Continue,
    /// Pass the end on to the sink, and end.
    FinishAndStop,
    /// End.
    Stop,
}

/// What the loop that receives from the stream does after a turn: the end of the stream is
/// passed on, so that the tunnel sees it; a tunnel that is gone ends the loop.
pub fn after_receive(event: H3BridgeEvent) -> (r: H3BridgeNext)
    ensures
        r == (match event {
            H3BridgeEvent::Moved => H3BridgeNext::Continue,
            H3BridgeEvent::SourceEnded => H3BridgeNext::FinishAndStop,
            H3BridgeEvent::SinkGone => H3BridgeNext::Stop,
        }),
{
    match event {
        H3BridgeEvent::Moved => H3BridgeNext::Continue,
        H3BridgeEvent::SourceEnded => H3BridgeNext::FinishAndStop,
        H3BridgeEvent::SinkGone => H3BridgeNext::Stop,
    }
}

/// What a loop that writes to the tunnel or to the stream does after a turn: however it ends,
/// its sink is finished.
pub fn after_send(event: H3BridgeEvent) -> (r: H3BridgeNext)
    ensures
        r == (match event {
            H3BridgeEvent::Moved => H3BridgeNext::Continue,
            H3BridgeEvent::SourceEnded => H3BridgeNext::FinishAndStop,
            H3BridgeEvent::SinkGone => H3BridgeNext::FinishAndStop,
        }),
{
    match event {
        H3BridgeEvent::Moved => H3BridgeNext::Continue,
        H3BridgeEvent::SourceEnded => H3BridgeNext::FinishAndStop,
        H3BridgeEvent::SinkGone => H3BridgeNext::FinishAndStop,
    }
}

} // verus!
