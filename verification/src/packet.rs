use vstd::prelude::*;

verus! {

/// Longest datagram payload the broadcast transport delivers once header
/// overhead is subtracted: 1280 - 40 - 8 bytes.
pub const MAX_PACKET_LEN: usize = 1232;

/// A packet is valid when it fits in one transport datagram.
pub open spec fn valid_packet(p: Seq<u8>) -> bool {
    p.len() <= MAX_PACKET_LEN
}

/// One receive call yields one packet: copy exactly `received` bytes out of
/// the receive buffer into a freshly sized buffer, unmodified.
pub fn packet_from_datagram(buf: &[u8], received: usize) -> (p: Vec<u8>)
    requires
        received <= buf@.len(),
    ensures
        p@ == buf@.take(received as int),
        p@.len() == received,
        received <= MAX_PACKET_LEN ==> valid_packet(p@),
{
    let mut p: Vec<u8> = Vec::new();
    let mut i: usize = 0;
    while i < received
        invariant
            i <= received,
            received <= buf@.len(),
            p@ == buf@.take(i as int),
        decreases received - i,
    {
        p.push(buf[i]);
        i = i + 1;
        proof {
            assert(p@ =~= buf@.take(i as int));
        }
    }
    p
}

} // verus!
