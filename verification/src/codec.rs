use vstd::prelude::*;

verus! {

/// ASCII decimal digits of `n`, most significant first, no sign, no leading
/// zero except for `n == 0` itself.
pub open spec fn dec_bytes(n: nat) -> Seq<u8>
    decreases n,
{
    if n < 10 {
        seq![(48 + n) as u8]
    } else {
        dec_bytes(n / 10).push((48 + n % 10) as u8)
    }
}

/// Append the decimal rendering of `n` to `out`.
pub fn push_dec_u64(out: &mut Vec<u8>, n: u64)
    ensures
        final(out)@ == old(out)@ + dec_bytes(n as nat),
    decreases n,
{
    if n < 10 {
        out.push(48 + (n as u8));
        proof {
            assert(out@ =~= old(out)@ + dec_bytes(n as nat));
        }
    } else {
        push_dec_u64(out, n / 10);
        out.push(48 + ((n % 10) as u8));
        proof {
            assert(out@ =~= old(out)@ + dec_bytes(n as nat));
        }
    }
}

/// The bytes between the brackets of one packet's JSON array: the decimal
/// values of its bytes, comma-separated, in packet order.
pub open spec fn json_packet_items(p: Seq<u8>) -> Seq<u8>
    decreases p.len(),
{
    if p.len() == 0 {
        Seq::<u8>::empty()
    } else if p.len() == 1 {
        dec_bytes(p[0] as nat)
    } else {
        json_packet_items(p.drop_last()) + seq![44u8] + dec_bytes(p.last() as nat)
    }
}

/// One packet rendered as a JSON array of unsigned byte values.
pub open spec fn json_packet(p: Seq<u8>) -> Seq<u8> {
    seq![91u8] + json_packet_items(p) + seq![93u8]
}

/// The bytes between the brackets of the capture file: the packets' JSON
/// arrays, comma-separated, in arrival order.
pub open spec fn json_capture_items(ps: Seq<Seq<u8>>) -> Seq<u8>
    decreases ps.len(),
{
    if ps.len() == 0 {
        Seq::<u8>::empty()
    } else if ps.len() == 1 {
        json_packet(ps[0])
    } else {
        json_capture_items(ps.drop_last()) + seq![44u8] + json_packet(ps.last())
    }
}

/// The whole capture file: a JSON array whose elements are the captured
/// packets, each itself a JSON array of byte values, in arrival order.
pub open spec fn json_capture(ps: Seq<Seq<u8>>) -> Seq<u8> {
    seq![91u8] + json_capture_items(ps) + seq![93u8]
}

/// The byte sequences of a sequence of packet buffers.
pub open spec fn views_of(ps: Seq<Vec<u8>>) -> Seq<Seq<u8>> {
    ps.map_values(|p: Vec<u8>| p@)
}

/// Append one packet's JSON array to `out`.
pub fn push_packet_json(out: &mut Vec<u8>, p: &Vec<u8>)
    ensures
        final(out)@ == old(out)@ + json_packet(p@),
{
    out.push(91);
    let mut i: usize = 0;
    while i < p.len()
        invariant
            i <= p@.len(),
            out@ == old(out)@ + seq![91u8] + json_packet_items(p@.take(i as int)),
        decreases p@.len() - i,
    {
        if i > 0 {
            out.push(44);
        }
        push_dec_u64(out, p[i] as u64);
        i = i + 1;
        proof {
            assert(p@.take(i as int).drop_last() =~= p@.take(i as int - 1));
            assert(p@.take(i as int).last() == p@[i as int - 1]);
            assert(out@ =~= old(out)@ + seq![91u8] + json_packet_items(p@.take(i as int)));
        }
    }
    out.push(93);
    proof {
        assert(p@.take(p@.len() as int) =~= p@);
        assert(out@ =~= old(out)@ + json_packet(p@));
    }
}

/// Render the whole capture buffer to the capture-file bytes, preserving
/// arrival order, in one pass.
pub fn encode_capture(packets: &Vec<Vec<u8>>) -> (out: Vec<u8>)
    ensures
        out@ == json_capture(views_of(packets@)),
{
    let mut out: Vec<u8> = Vec::new();
    out.push(91);
    let mut i: usize = 0;
    while i < packets.len()
        invariant
            i <= packets@.len(),
            out@ == seq![91u8] + json_capture_items(views_of(packets@).take(i as int)),
        decreases packets@.len() - i,
    {
        if i > 0 {
            out.push(44);
        }
        push_packet_json(&mut out, &packets[i]);
        i = i + 1;
        proof {
            assert(views_of(packets@).take(i as int).drop_last() =~= views_of(packets@).take(
                i as int - 1,
            ));
            assert(views_of(packets@).take(i as int).last() == packets@[i as int - 1]@);
            assert(out@ =~= seq![91u8] + json_capture_items(views_of(packets@).take(i as int)));
        }
    }
    out.push(93);
    proof {
        assert(views_of(packets@).take(packets@.len() as int) =~= views_of(packets@));
        assert(out@ =~= json_capture(views_of(packets@)));
    }
    out
}

} // verus!
