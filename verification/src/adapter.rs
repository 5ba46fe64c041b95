use vstd::prelude::*;
use crate::codec::dec_bytes;
use crate::packet::valid_packet;
use crate::packet::MAX_PACKET_LEN;

verus! {

/// An immutable snapshot of the reconstruction stage's counters, taken under
/// shared access.
#[derive(Clone, Copy, PartialEq, Eq, Structural, Debug)]
pub struct MetricsSnapshot {
    pub packets: u64,
    pub bytes: u64,
}

/// The adapter that serializes access to the reconstruction stage. It is the
/// pipeline's single serialization point: exactly one accept per received
/// packet, no batching. The byte-level shred-to-entry decoding is an
/// external collaborator; what this stage owns is the health accounting the
/// metrics reporter observes.
pub struct ReconstructionAdapter {
    packets: u64,
    bytes: u64,
}

impl ReconstructionAdapter {
    /// How many packets ingestion has handed to the stage.
    pub closed spec fn packet_count(self) -> nat {
        self.packets as nat
    }

    /// How many payload bytes those packets carried in all.
    pub closed spec fn byte_count(self) -> nat {
        self.bytes as nat
    }

    /// A fresh stage that has accepted nothing.
    pub fn new() -> (a: Self)
        ensures
            a.packet_count() == 0,
            a.byte_count() == 0,
    {
        ReconstructionAdapter { packets: 0, bytes: 0 }
    }

    /// Accept one packet under exclusive access: the received-packet counter
    /// advances by exactly one and the byte counter by the packet's length.
    /// Forwarding the bytes into the external decoder is the caller's side
    /// of the exchange.
    pub fn accept(&mut self, packet: &Vec<u8>)
        requires
            valid_packet(packet@),
            old(self).packet_count() < u64::MAX,
            old(self).byte_count() + packet@.len() <= u64::MAX,
        ensures
            final(self).packet_count() == old(self).packet_count() + 1,
            final(self).byte_count() == old(self).byte_count() + packet@.len(),
    {
        self.packets = self.packets + 1;
        self.bytes = self.bytes + packet.len() as u64;
    }

    /// One turn of the ingestion loop after a successful receive of
    /// `received` bytes: a copy of exactly those bytes, unmodified, is made
    /// in a freshly sized buffer and handed to the stage, which accounts
    /// for it. The returned packet is what the external decoder consumes.
    pub fn ingest_datagram(&mut self, buf: &[u8], received: usize) -> (p: Vec<u8>)
        requires
            received <= buf@.len(),
            received <= MAX_PACKET_LEN,
            old(self).packet_count() < u64::MAX,
            old(self).byte_count() + received <= u64::MAX,
        ensures
            p@ == buf@.take(received as int),
            p@.len() == received,
            final(self).packet_count() == old(self).packet_count() + 1,
            final(self).byte_count() == old(self).byte_count() + received,
    {
        let p = crate::packet::packet_from_datagram(buf, received);
        self.accept(&p);
        p
    }

    /// The received-packet counter, for callers that must guard `accept`
    /// against counter exhaustion.
    pub fn packets_received(&self) -> (n: u64)
        ensures
            n == self.packet_count(),
    {
        self.packets
    }

    /// Read one snapshot under shared, non-exclusive access. The receiver is
    /// shared, so a metrics read can never mutate reconstruction-stage
    /// state; the snapshot is a pure function of the stage.
    pub fn snapshot_metrics(&self) -> (s: MetricsSnapshot)
        ensures
            s.packets == self.packet_count(),
            s.bytes == self.byte_count(),
    {
        MetricsSnapshot { packets: self.packets, bytes: self.bytes }
    }
}

/// The metrics log line for one snapshot: `packets: <n> bytes: <n>`.
pub open spec fn metrics_line(packets: nat, bytes: nat) -> Seq<u8> {
    seq![112u8, 97u8, 99u8, 107u8, 101u8, 116u8, 115u8, 58u8, 32u8] + dec_bytes(packets)
        + seq![32u8, 98u8, 121u8, 116u8, 101u8, 115u8, 58u8, 32u8] + dec_bytes(bytes)
}

/// Render one snapshot to the log line the metrics reporter emits each tick.
pub fn render_metrics(s: &MetricsSnapshot) -> (line: Vec<u8>)
    ensures
        line@ == metrics_line(s.packets as nat, s.bytes as nat),
{
    let mut line: Vec<u8> = Vec::new();
    line.push(112);
    line.push(97);
    line.push(99);
    line.push(107);
    line.push(101);
    line.push(116);
    line.push(115);
    line.push(58);
    line.push(32);
    crate::codec::push_dec_u64(&mut line, s.packets);
    line.push(32);
    line.push(98);
    line.push(121);
    line.push(116);
    line.push(101);
    line.push(115);
    line.push(58);
    line.push(32);
    crate::codec::push_dec_u64(&mut line, s.bytes);
    proof {
        assert(line@ =~= metrics_line(s.packets as nat, s.bytes as nat));
    }
    line
}

} // verus!
