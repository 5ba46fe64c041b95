use vstd::prelude::*;
use crate::codec::json_capture;
use crate::codec::views_of;
use crate::packet::valid_packet;

verus! {

/// Diagnostic capture halts once this many packets have been appended.
pub const CAPTURE_LIMIT: usize = 100000;

/// The in-memory ordered sequence of the diagnostic capture mode: raw
/// packets appended under exclusive access, in arrival order, held whole
/// until the single terminal write.
pub struct CaptureBuffer {
    packets: Vec<Vec<u8>>,
}

impl CaptureBuffer {
    /// The captured packets' bytes, in arrival order.
    pub closed spec fn contents(self) -> Seq<Seq<u8>> {
        views_of(self.packets@)
    }

    /// An empty capture buffer.
    pub fn new() -> (b: Self)
        ensures
            b.contents() == Seq::<Seq<u8>>::empty(),
    {
        let b = CaptureBuffer { packets: Vec::new() };
        proof {
            assert(b.contents() =~= Seq::<Seq<u8>>::empty());
        }
        b
    }

    /// Append one captured packet; arrival order is preserved.
    pub fn append(&mut self, p: Vec<u8>)
        requires
            valid_packet(p@),
        ensures
            final(self).contents() == old(self).contents().push(p@),
    {
        self.packets.push(p);
        proof {
            assert(self.contents() =~= old(self).contents().push(p@));
        }
    }

    /// How many packets have been captured.
    pub fn len(&self) -> (n: usize)
        ensures
            n == self.contents().len(),
    {
        self.packets.len()
    }

    /// The supervising loop's halt test: capture stops exactly when the
    /// appended-packet count has reached the capture limit.
    pub fn should_halt(&self) -> (halt: bool)
        ensures
            halt == (self.contents().len() >= CAPTURE_LIMIT),
    {
        self.packets.len() >= CAPTURE_LIMIT
    }

    /// Serialize the full buffer, preserving arrival order, to the
    /// capture-file bytes written in one terminal write.
    pub fn encode(&self) -> (out: Vec<u8>)
        ensures
            out@ == json_capture(self.contents()),
    {
        crate::codec::encode_capture(&self.packets)
    }
}

/// The produced capture file, when parsed, reproduces the exact ordered
/// byte sequences captured, no more and no fewer: parsing what `encode`
/// writes yields the buffer's contents.
pub proof fn lemma_capture_file_reproduces_buffer(b: CaptureBuffer)
    ensures
        crate::decode::parse_capture(json_capture(b.contents())) == Some(b.contents()),
{
    crate::decode::lemma_capture_round_trip(b.contents());
}

} // verus!
