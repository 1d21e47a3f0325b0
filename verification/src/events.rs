use vstd::prelude::*;

verus! {

/// One diagnostic event of the stream's side channel. Diagnostics fan out to
/// any number of observers and never hold the frame path up: a slow observer
/// misses events and is told so, the producer is never blocked.
#[derive(Debug, Clone)]
pub enum StreamLogEvent {
    Info { message: String },
    Error { message: String },
    Debug { message: String },
    Frame { frame_number: u64 },
}

impl StreamLogEvent {
    /// A frame marker for the diagnostic stream.
    pub fn frame(frame_number: u64) -> (e: StreamLogEvent)
        ensures
            e == (StreamLogEvent::Frame { frame_number }),
    {
        StreamLogEvent::Frame { frame_number }
    }
}

} // verus!
