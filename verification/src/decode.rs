use vstd::prelude::*;
use crate::codec::dec_bytes;
use crate::codec::json_capture;
use crate::codec::json_capture_items;
use crate::codec::json_packet;
use crate::codec::json_packet_items;

verus! {

/// An ASCII decimal digit.
pub open spec fn is_digit(b: u8) -> bool {
    48 <= b && b <= 57
}

/// Every byte of `s` is an ASCII decimal digit.
pub open spec fn all_digits(s: Seq<u8>) -> bool {
    forall|i: int| 0 <= i < s.len() ==> is_digit(#[trigger] s[i])
}

/// Length of the longest digit prefix of `s`.
pub open spec fn digit_run_len(s: Seq<u8>) -> nat
    decreases s.len(),
{
    if s.len() == 0 || !is_digit(s[0]) {
        0
    } else {
        1 + digit_run_len(s.drop_first())
    }
}

/// Numeric value of a digit string, most significant digit first.
pub open spec fn digits_val(d: Seq<u8>) -> nat
    decreases d.len(),
{
    if d.len() == 0 {
        0
    } else {
        digits_val(d.drop_last()) * 10 + ((d.last() - 48) as nat)
    }
}

/// Parse `number ("," number)* "]"`: the inside of one packet's JSON array,
/// closing bracket included. Returns the byte values and what follows the
/// bracket.
pub open spec fn parse_packet_rest(s: Seq<u8>) -> Option<(Seq<u8>, Seq<u8>)>
    decreases s.len(),
{
    let run = digit_run_len(s);
    if run == 0 || run >= s.len() {
        None
    } else if digits_val(s.take(run as int)) > 255 {
        None
    } else if s[run as int] == 93 {
        Some((seq![digits_val(s.take(run as int)) as u8], s.skip(run as int + 1)))
    } else if s[run as int] == 44 {
        match parse_packet_rest(s.skip(run as int + 1)) {
            None => None,
            Some((vals, rest)) => Some(
                (seq![digits_val(s.take(run as int)) as u8] + vals, rest),
            ),
        }
    } else {
        None
    }
}

/// Parse one packet's JSON array of byte values. Returns the packet bytes
/// and what follows the array.
pub open spec fn parse_packet(s: Seq<u8>) -> Option<(Seq<u8>, Seq<u8>)> {
    if s.len() == 0 || s[0] != 91 {
        None
    } else if s.len() >= 2 && s[1] == 93 {
        Some((Seq::<u8>::empty(), s.skip(2)))
    } else {
        parse_packet_rest(s.skip(1))
    }
}

/// A successful packet parse consumes at least one byte.
proof fn lemma_parse_packet_rest_consumes(s: Seq<u8>)
    ensures
        parse_packet_rest(s) matches Some(pr) ==> pr.1.len() < s.len(),
    decreases s.len(),
{
    let run = digit_run_len(s);
    if run != 0 && run < s.len() && digits_val(s.take(run as int)) <= 255 && s[run as int]
        == 44 {
        lemma_parse_packet_rest_consumes(s.skip(run as int + 1));
    }
}

/// A successful packet parse consumes at least one byte.
proof fn lemma_parse_packet_consumes(s: Seq<u8>)
    ensures
        parse_packet(s) matches Some(pr) ==> pr.1.len() < s.len(),
{
    if s.len() > 0 && s[0] == 91 && !(s.len() >= 2 && s[1] == 93) {
        lemma_parse_packet_rest_consumes(s.skip(1));
    }
}

/// Parse `packet ("," packet)* "]"`: the inside of the capture file's outer
/// array, closing bracket included.
pub open spec fn parse_capture_rest(s: Seq<u8>) -> Option<(Seq<Seq<u8>>, Seq<u8>)>
    decreases s.len(),
    via parse_capture_rest_dec
{
    match parse_packet(s) {
        None => None,
        Some((p, rest)) => if rest.len() == 0 {
            None
        } else if rest[0] == 93 {
            Some((seq![p], rest.skip(1)))
        } else if rest[0] == 44 {
            match parse_capture_rest(rest.skip(1)) {
                None => None,
                Some((ps, after)) => Some((seq![p] + ps, after)),
            }
        } else {
            None
        },
    }
}

#[via_fn]
proof fn parse_capture_rest_dec(s: Seq<u8>) {
    lemma_parse_packet_consumes(s);
}

/// Parse a whole capture file: a JSON array of packets, each a JSON array
/// of byte values, with nothing after the outer closing bracket.
pub open spec fn parse_capture(s: Seq<u8>) -> Option<Seq<Seq<u8>>> {
    if s.len() < 2 || s[0] != 91 {
        None
    } else if s[1] == 93 {
        if s.len() == 2 {
            Some(Seq::<Seq<u8>>::empty())
        } else {
            None
        }
    } else {
        match parse_capture_rest(s.skip(1)) {
            None => None,
            Some((ps, after)) => if after.len() == 0 {
                Some(ps)
            } else {
                None
            },
        }
    }
}

/// Every byte of a decimal rendering is a digit, and there is at least one.
proof fn lemma_dec_bytes_digits(n: nat)
    ensures
        all_digits(dec_bytes(n)),
        dec_bytes(n).len() >= 1,
    decreases n,
{
    if n < 10 {
    } else {
        lemma_dec_bytes_digits(n / 10);
        assert forall|i: int| 0 <= i < dec_bytes(n).len() implies is_digit(
            #[trigger] dec_bytes(n)[i],
        ) by {
            if i < dec_bytes(n).len() - 1 {
                assert(dec_bytes(n)[i] == dec_bytes(n / 10)[i]);
            }
        }
    }
}

/// Rendering then revaluing a number gives the number back.
proof fn lemma_digits_val_dec_bytes(n: nat)
    ensures
        digits_val(dec_bytes(n)) == n,
    decreases n,
{
    if n < 10 {
        assert(dec_bytes(n).drop_last() =~= Seq::<u8>::empty());
        assert(digits_val(Seq::<u8>::empty()) == 0);
        assert(dec_bytes(n).last() == (48 + n) as u8);
    } else {
        lemma_digits_val_dec_bytes(n / 10);
        assert(dec_bytes(n).drop_last() =~= dec_bytes(n / 10));
        assert(n / 10 * 10 + n % 10 == n) by {
            vstd::arithmetic::div_mod::lemma_fundamental_div_mod(n as int, 10);
        }
    }
}

/// The digit run of an all-digit string followed by a non-digit is exactly
/// that string.
proof fn lemma_digit_run_of_digits(d: Seq<u8>, rest: Seq<u8>)
    requires
        all_digits(d),
        rest.len() == 0 || !is_digit(rest[0]),
    ensures
        digit_run_len(d + rest) == d.len(),
    decreases d.len(),
{
    if d.len() == 0 {
        assert(d + rest =~= rest);
    } else {
        assert((d + rest)[0] == d[0]);
        assert((d + rest).drop_first() =~= d.drop_first() + rest);
        assert(all_digits(d.drop_first())) by {
            assert(forall|i: int|
                0 <= i < d.drop_first().len() ==> #[trigger] d.drop_first()[i] == d[i + 1]);
        }
        lemma_digit_run_of_digits(d.drop_first(), rest);
    }
}

/// At the head of `dec_bytes(n) + rest`, with `rest` not starting in a
/// digit, the digit run is exactly the rendering of `n` and it revalues to
/// `n`.
proof fn lemma_parse_number(n: nat, rest: Seq<u8>)
    requires
        rest.len() == 0 || !is_digit(rest[0]),
    ensures
        digit_run_len(dec_bytes(n) + rest) == dec_bytes(n).len(),
        (dec_bytes(n) + rest).take(dec_bytes(n).len() as int) == dec_bytes(n),
        (dec_bytes(n) + rest).skip(dec_bytes(n).len() as int) == rest,
        digits_val((dec_bytes(n) + rest).take(dec_bytes(n).len() as int)) == n,
        dec_bytes(n).len() >= 1,
{
    lemma_dec_bytes_digits(n);
    lemma_digit_run_of_digits(dec_bytes(n), rest);
    lemma_digits_val_dec_bytes(n);
    assert((dec_bytes(n) + rest).take(dec_bytes(n).len() as int) =~= dec_bytes(n));
    assert((dec_bytes(n) + rest).skip(dec_bytes(n).len() as int) =~= rest);
}

/// The packet-items rendering unfolded from the left.
proof fn lemma_packet_items_left(p: Seq<u8>)
    requires
        p.len() >= 2,
    ensures
        json_packet_items(p) == dec_bytes(p[0] as nat) + seq![44u8] + json_packet_items(
            p.drop_first(),
        ),
    decreases p.len(),
{
    if p.len() == 2 {
        assert(p.drop_last() =~= seq![p[0]]);
        assert(p.drop_first() =~= seq![p[1]]);
        assert(json_packet_items(p) =~= dec_bytes(p[0] as nat) + seq![44u8]
            + json_packet_items(p.drop_first()));
    } else {
        lemma_packet_items_left(p.drop_last());
        assert(p.drop_last().drop_first() =~= p.drop_first().drop_last());
        assert(p.drop_first().last() == p.last());
        assert(p.drop_last()[0] == p[0]);
        assert(json_packet_items(p) == json_packet_items(p.drop_last()) + seq![44u8]
            + dec_bytes(p.last() as nat));
        assert(json_packet_items(p.drop_first()) == json_packet_items(
            p.drop_first().drop_last(),
        ) + seq![44u8] + dec_bytes(p.drop_first().last() as nat));
        assert(json_packet_items(p) =~= dec_bytes(p[0] as nat) + seq![44u8]
            + json_packet_items(p.drop_first()));
    }
}

/// Parsing the inside of a packet array undoes its rendering, whatever
/// follows the closing bracket.
proof fn lemma_parse_packet_rest_round(p: Seq<u8>, rest: Seq<u8>)
    requires
        p.len() >= 1,
    ensures
        parse_packet_rest(json_packet_items(p) + seq![93u8] + rest) == Some((p, rest)),
    decreases p.len(),
{
    let s = json_packet_items(p) + seq![93u8] + rest;
    if p.len() == 1 {
        lemma_parse_number(p[0] as nat, seq![93u8] + rest);
        assert(s =~= dec_bytes(p[0] as nat) + (seq![93u8] + rest));
        let run = digit_run_len(s);
        assert(run == dec_bytes(p[0] as nat).len());
        assert(s.take(run as int) == dec_bytes(p[0] as nat));
        assert(s.skip(run as int) =~= seq![93u8] + rest);
        assert(s[run as int] == 93);
        assert(s.skip(run as int + 1) =~= rest);
        assert(digits_val(s.take(run as int)) == p[0] as nat);
        assert(seq![digits_val(s.take(run as int)) as u8] =~= p);
    } else {
        lemma_packet_items_left(p);
        let tail = seq![44u8] + json_packet_items(p.drop_first()) + seq![93u8] + rest;
        lemma_parse_number(p[0] as nat, tail);
        assert(s =~= dec_bytes(p[0] as nat) + tail);
        let run = digit_run_len(s);
        assert(run == dec_bytes(p[0] as nat).len());
        assert(s.take(run as int) == dec_bytes(p[0] as nat));
        assert(s.skip(run as int) =~= tail);
        assert(s[run as int] == 44);
        assert(s.skip(run as int + 1) =~= json_packet_items(p.drop_first()) + seq![93u8]
            + rest);
        lemma_parse_packet_rest_round(p.drop_first(), rest);
        assert(digits_val(s.take(run as int)) == p[0] as nat);
        assert(seq![digits_val(s.take(run as int)) as u8] + p.drop_first() =~= p);
    }
}

/// Parsing one packet array undoes its rendering, whatever follows it.
proof fn lemma_parse_packet_round(p: Seq<u8>, rest: Seq<u8>)
    ensures
        parse_packet(json_packet(p) + rest) == Some((p, rest)),
{
    let s = json_packet(p) + rest;
    assert(s[0] == 91);
    if p.len() == 0 {
        assert(json_packet_items(p) =~= Seq::<u8>::empty());
        assert(s[1] == 93);
        assert(s.skip(2) =~= rest);
        assert(parse_packet(s) == Some((Seq::<u8>::empty(), rest)));
        assert(p =~= Seq::<u8>::empty());
    } else {
        lemma_dec_bytes_digits(p[0] as nat);
        if p.len() == 1 {
            assert(json_packet_items(p)[0] == dec_bytes(p[0] as nat)[0]);
        } else {
            lemma_packet_items_left(p);
            assert(json_packet_items(p)[0] == dec_bytes(p[0] as nat)[0]);
        }
        assert(is_digit(json_packet_items(p)[0]));
        assert(s[1] == json_packet_items(p)[0]);
        assert(s[1] != 93);
        assert(s.skip(1) =~= json_packet_items(p) + seq![93u8] + rest);
        lemma_parse_packet_rest_round(p, rest);
    }
}

/// The capture-items rendering unfolded from the left.
proof fn lemma_capture_items_left(ps: Seq<Seq<u8>>)
    requires
        ps.len() >= 2,
    ensures
        json_capture_items(ps) == json_packet(ps[0]) + seq![44u8] + json_capture_items(
            ps.drop_first(),
        ),
    decreases ps.len(),
{
    if ps.len() == 2 {
        assert(ps.drop_last() =~= seq![ps[0]]);
        assert(ps.drop_first() =~= seq![ps[1]]);
        assert(json_capture_items(ps) =~= json_packet(ps[0]) + seq![44u8]
            + json_capture_items(ps.drop_first()));
    } else {
        lemma_capture_items_left(ps.drop_last());
        assert(ps.drop_last().drop_first() =~= ps.drop_first().drop_last());
        assert(ps.drop_first().last() == ps.last());
        assert(ps.drop_last()[0] == ps[0]);
        assert(json_capture_items(ps) == json_capture_items(ps.drop_last()) + seq![44u8]
            + json_packet(ps.last()));
        assert(json_capture_items(ps.drop_first()) == json_capture_items(
            ps.drop_first().drop_last(),
        ) + seq![44u8] + json_packet(ps.drop_first().last()));
        assert(json_capture_items(ps) =~= json_packet(ps[0]) + seq![44u8]
            + json_capture_items(ps.drop_first()));
    }
}

/// Parsing the inside of the outer array undoes its rendering.
proof fn lemma_parse_capture_rest_round(ps: Seq<Seq<u8>>, rest: Seq<u8>)
    requires
        ps.len() >= 1,
    ensures
        parse_capture_rest(json_capture_items(ps) + seq![93u8] + rest) == Some((ps, rest)),
    decreases ps.len(),
{
    let s = json_capture_items(ps) + seq![93u8] + rest;
    if ps.len() == 1 {
        assert(s =~= json_packet(ps[0]) + (seq![93u8] + rest));
        lemma_parse_packet_round(ps[0], seq![93u8] + rest);
        assert((seq![93u8] + rest).skip(1) =~= rest);
        assert(seq![ps[0]] =~= ps);
    } else {
        lemma_capture_items_left(ps);
        let tail = seq![44u8] + json_capture_items(ps.drop_first()) + seq![93u8] + rest;
        assert(s =~= json_packet(ps[0]) + tail);
        lemma_parse_packet_round(ps[0], tail);
        assert(tail.skip(1) =~= json_capture_items(ps.drop_first()) + seq![93u8] + rest);
        lemma_parse_capture_rest_round(ps.drop_first(), rest);
        assert(seq![ps[0]] + ps.drop_first() =~= ps);
    }
}

/// The capture file, when parsed, reproduces the exact ordered byte
/// sequences captured, no more and no fewer: parsing the rendering of any
/// capture buffer yields the buffer itself.
pub proof fn lemma_capture_round_trip(ps: Seq<Seq<u8>>)
    ensures
        parse_capture(json_capture(ps)) == Some(ps),
{
    let s = json_capture(ps);
    assert(s[0] == 91);
    if ps.len() == 0 {
        assert(json_capture_items(ps) =~= Seq::<u8>::empty());
        assert(s =~= seq![91u8, 93u8]);
        assert(ps =~= Seq::<Seq<u8>>::empty());
    } else {
        if ps.len() == 1 {
            assert(json_capture_items(ps)[0] == json_packet(ps[0])[0]);
        } else {
            lemma_capture_items_left(ps);
            assert(json_capture_items(ps)[0] == json_packet(ps[0])[0]);
        }
        assert(json_packet(ps[0])[0] == 91);
        assert(s[1] == 91);
        assert(s.skip(1) =~= json_capture_items(ps) + seq![93u8] + Seq::<u8>::empty());
        lemma_parse_capture_rest_round(ps, Seq::<u8>::empty());
    }
}

} // verus!
