use vstd::prelude::*;

verus! {

/// A song as the catalogue knows it.
#[derive(Clone, Debug, PartialEq, Eq)]
pub struct SongInfo {
    pub uid: u32,
    pub name: String,
    pub artist: String,
    pub mp3_path: String,
}

/// What reading the next packet of a container gave.
#[derive(Clone, Copy, Debug, PartialEq, Eq, Structural)]
pub enum PacketEvent {
    /// A packet of the given track.
    Packet { track_id: u32 },
    /// The container has no more packets.
    EndOfStream,
    /// The container's track list changed and the decoders would have to be rebuilt.
    ResetRequired,
    /// Reading failed for good.
    ReadFailed,
}

/// What decoding one packet gave.
#[derive(Clone, Copy, Debug, PartialEq, Eq, Structural)]
pub enum DecodeOutcome {
    /// The packet decoded.
    Decoded,
    /// The packet could not be read in full; later packets may still decode.
    IoError,
    /// The packet held malformed data; later packets may still decode.
    DecodeError,
    /// Decoding failed for good.
    Failed,
}

/// What the decode loop does next.
#[derive(Clone, Copy, Debug, PartialEq, Eq, Structural)]
pub enum DecodeStep {
    /// Decode the packet just read.
    Decode,
    /// Read the next packet.
    NextPacket,
    /// Stop: the whole stream was read.
    Finished,
    /// Stop with an error.
    Failed,
}

/// The step that follows reading a packet when decoding `track_id`.
pub open spec fn read_step(track_id: u32, event: PacketEvent) -> DecodeStep {
    match event {
        PacketEvent::Packet { track_id: t } => if t == track_id {
            DecodeStep::Decode
        } else {
            DecodeStep::NextPacket
        },
        PacketEvent::EndOfStream => DecodeStep::Finished,
        PacketEvent::ResetRequired => DecodeStep::Failed,
        PacketEvent::ReadFailed => DecodeStep::Failed,
    }
}

/// The step that follows decoding a packet.
pub open spec fn decode_step(outcome: DecodeOutcome) -> DecodeStep {
    match outcome {
        DecodeOutcome::Decoded => DecodeStep::NextPacket,
        DecodeOutcome::IoError => DecodeStep::NextPacket,
        DecodeOutcome::DecodeError => DecodeStep::NextPacket,
        DecodeOutcome::Failed => DecodeStep::Failed,
    }
}

/// Decides what to do with the result of reading a packet: packets of the
/// selected track are decoded, those of other tracks skipped; the end of the
/// stream finishes the loop, and a reset or a read failure ends it with an
/// error.
pub fn step_after_read(track_id: u32, event: PacketEvent) -> (r: DecodeStep)
    ensures
        r == read_step(track_id, event),
{
    match event {
        PacketEvent::Packet { track_id: t } => {
            if t == track_id {
                DecodeStep::Decode
            } else {
                DecodeStep::NextPacket
            }
        },
        PacketEvent::EndOfStream => DecodeStep::Finished,
        PacketEvent::ResetRequired => DecodeStep::Failed,
        PacketEvent::ReadFailed => DecodeStep::Failed,
    }
}

/// Decides what to do after decoding a packet: recoverable errors skip the
/// packet, any other error ends the loop.
pub fn step_after_decode(outcome: DecodeOutcome) -> (r: DecodeStep)
    ensures
        r == decode_step(outcome),
{
    match outcome {
        DecodeOutcome::Decoded => DecodeStep::NextPacket,
        DecodeOutcome::IoError => DecodeStep::NextPacket,
        DecodeOutcome::DecodeError => DecodeStep::NextPacket,
        DecodeOutcome::Failed => DecodeStep::Failed,
    }
}

/// The index of the first track that has a codec (`codec_missing[i]` is
/// false), or `None` when no track has one.
pub fn first_decodable_track(codec_missing: &Vec<bool>) -> (r: Option<usize>)
    ensures
        match r {
            Some(i) => {
                &&& i < codec_missing@.len()
                &&& !codec_missing@[i as int]
                &&& forall|j: int| 0 <= j < i ==> #[trigger] codec_missing@[j]
            },
            None => forall|j: int| 0 <= j < codec_missing@.len() ==> #[trigger] codec_missing@[j],
        },
{
    let mut i: usize = 0;
    while i < codec_missing.len()
        invariant
            i <= codec_missing@.len(),
            forall|j: int| 0 <= j < i ==> #[trigger] codec_missing@[j],
        decreases codec_missing@.len() - i,
    {
        if !codec_missing[i] {
            return Some(i);
        }
        i = i + 1;
    }
    None
}

} // verus!
