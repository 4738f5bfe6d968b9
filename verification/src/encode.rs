//! Wire encodings built and proved byte by byte: decimal rendering of
//! integers, RFC 3986 percent-encoding, and `x-www-form-urlencoded` query
//! strings over an ordered parameter list. These encodings must be
//! byte-identical to what the OAuth1 signer signs, or the server rejects
//! the request's authentication.

use vstd::prelude::*;
use vstd::utf8::{decode_utf8, encode_utf8, valid_utf8};

verus! {

/// The character for the decimal digit `d`.
pub open spec fn digit_char(d: int) -> char
    recommends
        0 <= d < 10,
{
    ((0x30 + d) as u8) as char
}

/// The decimal rendering of `n`, most significant digit first, no sign and
/// no leading zeros (`0` renders as "0").
pub open spec fn dec_chars(n: nat) -> Seq<char>
    decreases n,
{
    if n < 10 {
        seq![digit_char(n as int)]
    } else {
        dec_chars(n / 10).push(digit_char((n % 10) as int))
    }
}

/// The decimal rendering of a possibly negative integer: a leading minus
/// sign, then the digits of the absolute value.
pub open spec fn int_dec_chars(v: int) -> Seq<char> {
    if v < 0 {
        seq!['-'] + dec_chars((-v) as nat)
    } else {
        dec_chars(v as nat)
    }
}

/// The one-character string for the decimal digit `d`.
fn digit_str(d: u64) -> (r: &'static str)
    requires
        d < 10,
    ensures
        r@ == seq![digit_char(d as int)],
{
    let r: &'static str = match d {
        0 => "0",
        1 => "1",
        2 => "2",
        3 => "3",
        4 => "4",
        5 => "5",
        6 => "6",
        7 => "7",
        8 => "8",
        _ => "9",
    };
    proof {
        reveal_strlit("0");
        reveal_strlit("1");
        reveal_strlit("2");
        reveal_strlit("3");
        reveal_strlit("4");
        reveal_strlit("5");
        reveal_strlit("6");
        reveal_strlit("7");
        reveal_strlit("8");
        reveal_strlit("9");
        assert(r@ =~= seq![digit_char(d as int)]);
    }
    r
}

/// Renders `n` in decimal.
pub fn u64_dec_string(n: u64) -> (r: String)
    ensures
        r@ == dec_chars(n as nat),
    decreases n,
{
    if n < 10 {
        digit_str(n).to_owned()
    } else {
        let mut s = u64_dec_string(n / 10);
        s.append(digit_str(n % 10));
        proof {
            assert(s@ =~= dec_chars(n as nat));
        }
        s
    }
}

/// Renders `v` in decimal, with a minus sign if negative.
pub fn i32_dec_string(v: i32) -> (r: String)
    ensures
        r@ == int_dec_chars(v as int),
{
    if v < 0 {
        let magnitude: u64 = (-(v as i64)) as u64;
        let mut s = String::from_str("-");
        s.append(u64_dec_string(magnitude).as_str());
        proof {
            reveal_strlit("-");
            assert(s@ =~= int_dec_chars(v as int));
        }
        s
    } else {
        u64_dec_string(v as u64)
    }
}

/// An RFC 3986 unreserved byte, left bare by percent-encoding: letters,
/// digits, hyphen, period, underscore and tilde.
pub open spec fn is_unreserved(b: u8) -> bool {
    ||| 0x41 <= b <= 0x5a
    ||| 0x61 <= b <= 0x7a
    ||| 0x30 <= b <= 0x39
    ||| b == 0x2d
    ||| b == 0x2e
    ||| b == 0x5f
    ||| b == 0x7e
}

/// The byte for the uppercase hexadecimal digit `d`.
pub open spec fn hex_byte(d: int) -> u8
    recommends
        0 <= d < 16,
{
    if d < 10 {
        (0x30 + d) as u8
    } else {
        (0x37 + d) as u8
    }
}

/// The percent-encoding of one byte: unreserved bytes stand for
/// themselves, every other byte becomes `%` and two uppercase hex digits.
pub open spec fn pct_byte(b: u8) -> Seq<u8> {
    if is_unreserved(b) {
        seq![b]
    } else {
        seq![0x25u8, hex_byte((b / 16) as int), hex_byte((b % 16) as int)]
    }
}

/// The percent-encoding of a byte sequence.
pub open spec fn pct_encode(s: Seq<u8>) -> Seq<u8>
    decreases s.len(),
{
    if s.len() == 0 {
        Seq::empty()
    } else {
        pct_byte(s[0]) + pct_encode(s.drop_first())
    }
}

/// Percent-encoding distributes over concatenation.
pub proof fn lemma_pct_app(a: Seq<u8>, b: Seq<u8>)
    ensures
        pct_encode(a + b) == pct_encode(a) + pct_encode(b),
    decreases a.len(),
{
    if a.len() == 0 {
        assert(a + b =~= b);
        assert(pct_encode(a) + pct_encode(b) =~= pct_encode(b));
    } else {
        assert((a + b)[0] == a[0]);
        assert((a + b).drop_first() =~= a.drop_first() + b);
        lemma_pct_app(a.drop_first(), b);
        assert(pct_byte(a[0]) + (pct_encode(a.drop_first()) + pct_encode(b)) =~= (pct_byte(a[0])
            + pct_encode(a.drop_first())) + pct_encode(b));
    }
}

/// Appending one byte appends its encoding.
pub proof fn lemma_pct_snoc(s: Seq<u8>, b: u8)
    ensures
        pct_encode(s.push(b)) == pct_encode(s) + pct_byte(b),
{
    assert(s.push(b) =~= s + seq![b]);
    lemma_pct_app(s, seq![b]);
    assert(seq![b][0] == b);
    assert(seq![b].drop_first() =~= Seq::<u8>::empty());
    assert(pct_byte(b) + pct_encode(Seq::<u8>::empty()) =~= pct_byte(b));
}

/// Appends the percent-encoding of `bytes` to `out`.
pub fn pct_encode_onto(out: &mut Vec<u8>, bytes: &[u8])
    ensures
        final(out)@ == old(out)@ + pct_encode(bytes@),
{
    let ghost start: Seq<u8> = out@;
    let mut i: usize = 0;
    proof {
        assert(bytes@.take(0) =~= Seq::<u8>::empty());
        assert(out@ =~= start + pct_encode(bytes@.take(0)));
    }
    while i < bytes.len()
        invariant
            i <= bytes.len(),
            out@ == start + pct_encode(bytes@.take(i as int)),
        decreases bytes.len() - i,
    {
        let b = bytes[i];
        proof {
            assert(bytes@.take(i + 1) =~= bytes@.take(i as int).push(b));
            lemma_pct_snoc(bytes@.take(i as int), b);
        }
        let unreserved = (b >= 0x41 && b <= 0x5a) || (b >= 0x61 && b <= 0x7a) || (b >= 0x30 && b
            <= 0x39) || b == 0x2d || b == 0x2e || b == 0x5f || b == 0x7e;
        if unreserved {
            out.push(b);
        } else {
            out.push(0x25);
            let hi = b / 16;
            let lo = b % 16;
            out.push(if hi < 10 { 0x30 + hi } else { 0x37 + hi });
            out.push(if lo < 10 { 0x30 + lo } else { 0x37 + lo });
        }
        proof {
            assert(out@ =~= start + pct_encode(bytes@.take(i + 1)));
        }
        i = i + 1;
    }
    proof {
        assert(bytes@.take(bytes@.len() as int) =~= bytes@);
    }
}

/// The ampersand that separates query pairs and the equals sign within one.
pub const AMPERSAND: u8 = 0x26;

/// The equals sign between a key and its value.
pub const EQUALS_SIGN: u8 = 0x3d;

/// One `key=value` pair, both sides percent-encoded over their UTF-8 bytes.
pub open spec fn pair_bytes(p: (Seq<char>, Seq<char>)) -> Seq<u8> {
    pct_encode(encode_utf8(p.0)) + seq![EQUALS_SIGN] + pct_encode(encode_utf8(p.1))
}

/// The tail of a query string: each pair preceded by an ampersand.
pub open spec fn tail_qs(ps: Seq<(Seq<char>, Seq<char>)>) -> Seq<u8>
    decreases ps.len(),
{
    if ps.len() == 0 {
        Seq::empty()
    } else {
        seq![AMPERSAND] + pair_bytes(ps[0]) + tail_qs(ps.drop_first())
    }
}

/// The `x-www-form-urlencoded` rendering of an ordered parameter list:
/// `k1=v1&k2=v2&...`, keys and values percent-encoded.
pub open spec fn query_string(ps: Seq<(Seq<char>, Seq<char>)>) -> Seq<u8> {
    if ps.len() == 0 {
        Seq::empty()
    } else {
        pair_bytes(ps[0]) + tail_qs(ps.drop_first())
    }
}

/// Appending a pair appends `&key=value` (or bare `key=value` if first).
pub proof fn lemma_query_snoc(ps: Seq<(Seq<char>, Seq<char>)>, p: (Seq<char>, Seq<char>))
    ensures
        ps.len() == 0 ==> query_string(ps.push(p)) == pair_bytes(p),
        ps.len() > 0 ==> query_string(ps.push(p)) == query_string(ps) + seq![AMPERSAND]
            + pair_bytes(p),
    decreases ps.len(),
{
    lemma_tail_qs_snoc(ps, p);
    if ps.len() == 0 {
        let q = ps.push(p);
        assert(q.len() == 1);
        assert(q[0] == p);
        assert(q.drop_first() =~= Seq::<(Seq<char>, Seq<char>)>::empty());
        assert(tail_qs(q.drop_first()) == Seq::<u8>::empty());
        assert(query_string(q) == pair_bytes(p) + tail_qs(q.drop_first()));
        assert(query_string(q) =~= pair_bytes(p));
    } else {
        assert(ps.push(p)[0] == ps[0]);
        assert(ps.push(p).drop_first() =~= ps.drop_first().push(p));
        lemma_tail_qs_snoc(ps.drop_first(), p);
        assert(pair_bytes(ps[0]) + (tail_qs(ps.drop_first()) + seq![AMPERSAND] + pair_bytes(p))
            =~= (pair_bytes(ps[0]) + tail_qs(ps.drop_first())) + seq![AMPERSAND] + pair_bytes(p));
    }
}

/// Appending a pair to the tail appends `&key=value`.
pub proof fn lemma_tail_qs_snoc(ps: Seq<(Seq<char>, Seq<char>)>, p: (Seq<char>, Seq<char>))
    ensures
        tail_qs(ps.push(p)) == tail_qs(ps) + seq![AMPERSAND] + pair_bytes(p),
    decreases ps.len(),
{
    if ps.len() == 0 {
        let q = ps.push(p);
        assert(q.len() == 1);
        assert(q[0] == p);
        assert(q.drop_first() =~= Seq::<(Seq<char>, Seq<char>)>::empty());
        assert(tail_qs(q.drop_first()) == Seq::<u8>::empty());
        assert(tail_qs(ps) == Seq::<u8>::empty());
        assert(tail_qs(q) == seq![AMPERSAND] + pair_bytes(p) + tail_qs(q.drop_first()));
        assert(tail_qs(q) =~= tail_qs(ps) + seq![AMPERSAND] + pair_bytes(p));
    } else {
        assert(ps.push(p)[0] == ps[0]);
        assert(ps.push(p).drop_first() =~= ps.drop_first().push(p));
        lemma_tail_qs_snoc(ps.drop_first(), p);
        assert(seq![AMPERSAND] + pair_bytes(ps[0]) + (tail_qs(ps.drop_first()) + seq![AMPERSAND]
            + pair_bytes(p)) =~= (seq![AMPERSAND] + pair_bytes(ps[0]) + tail_qs(ps.drop_first()))
            + seq![AMPERSAND] + pair_bytes(p));
    }
}

/// The views of an ordered parameter list of strings.
pub open spec fn params_view(ps: Seq<(String, String)>) -> Seq<(Seq<char>, Seq<char>)> {
    Seq::new(ps.len(), |i: int| (ps[i].0@, ps[i].1@))
}

/// Renders an ordered parameter list as an `x-www-form-urlencoded` byte
/// string, in the given order.
pub fn encode_query(params: &Vec<(String, String)>) -> (r: Vec<u8>)
    ensures
        r@ == query_string(params_view(params@)),
{
    let ghost pv: Seq<(Seq<char>, Seq<char>)> = params_view(params@);
    let mut out: Vec<u8> = Vec::new();
    let mut i: usize = 0;
    proof {
        assert(pv.take(0) =~= Seq::<(Seq<char>, Seq<char>)>::empty());
        assert(out@ =~= query_string(pv.take(0)));
    }
    while i < params.len()
        invariant
            i <= params.len(),
            pv == params_view(params@),
            pv.len() == params.len(),
            out@ == query_string(pv.take(i as int)),
        decreases params.len() - i,
    {
        proof {
            assert(pv.take(i + 1) =~= pv.take(i as int).push(pv[i as int]));
            lemma_query_snoc(pv.take(i as int), pv[i as int]);
        }
        if i > 0 {
            out.push(AMPERSAND);
        }
        let pair: &(String, String) = &params[i];
        proof {
            assert(pair.0@ == pv[i as int].0);
            assert(pair.1@ == pv[i as int].1);
        }
        pct_encode_onto(&mut out, pair.0.as_str().as_bytes());
        out.push(EQUALS_SIGN);
        pct_encode_onto(&mut out, pair.1.as_str().as_bytes());
        proof {
            assert(out@ =~= query_string(pv.take(i + 1)));
        }
        i = i + 1;
    }
    proof {
        assert(pv.take(pv.len() as int) =~= pv);
    }
    out
}

/// Percent-encoded output consists of ASCII bytes only.
pub proof fn lemma_pct_ascii(s: Seq<u8>)
    ensures
        forall|i: int| 0 <= i < pct_encode(s).len() ==> #[trigger] pct_encode(s)[i] < 0x80,
    decreases s.len(),
{
    if s.len() == 0 {
    } else {
        lemma_pct_ascii(s.drop_first());
        assert forall|i: int| 0 <= i < pct_encode(s).len() implies #[trigger] pct_encode(s)[i]
            < 0x80 by {
            let head = pct_byte(s[0]);
            if i < head.len() {
                assert(pct_encode(s)[i] == head[i]);
            } else {
                assert(pct_encode(s)[i] == pct_encode(s.drop_first())[i - head.len()]);
            }
        }
    }
}

/// A query string consists of ASCII bytes only.
pub proof fn lemma_query_ascii(ps: Seq<(Seq<char>, Seq<char>)>)
    ensures
        forall|i: int|
            0 <= i < query_string(ps).len() ==> #[trigger] query_string(ps)[i] < 0x80,
    decreases ps.len(),
{
    if ps.len() == 0 {
    } else {
        lemma_pair_ascii(ps[0]);
        lemma_tail_ascii(ps.drop_first());
        assert forall|i: int| 0 <= i < query_string(ps).len() implies #[trigger] query_string(
            ps,
        )[i] < 0x80 by {
            let head = pair_bytes(ps[0]);
            if i < head.len() {
                assert(query_string(ps)[i] == head[i]);
            } else {
                assert(query_string(ps)[i] == tail_qs(ps.drop_first())[i - head.len()]);
            }
        }
    }
}

/// One encoded pair consists of ASCII bytes only.
proof fn lemma_pair_ascii(p: (Seq<char>, Seq<char>))
    ensures
        forall|i: int| 0 <= i < pair_bytes(p).len() ==> #[trigger] pair_bytes(p)[i] < 0x80,
{
    lemma_pct_ascii(encode_utf8(p.0));
    lemma_pct_ascii(encode_utf8(p.1));
    assert forall|i: int| 0 <= i < pair_bytes(p).len() implies #[trigger] pair_bytes(p)[i]
        < 0x80 by {
        let k = pct_encode(encode_utf8(p.0));
        let v = pct_encode(encode_utf8(p.1));
        if i < k.len() {
            assert(pair_bytes(p)[i] == k[i]);
        } else if i == k.len() {
            assert(pair_bytes(p)[i] == EQUALS_SIGN);
        } else {
            assert(pair_bytes(p)[i] == v[i - k.len() - 1]);
        }
    }
}

/// The tail of a query string consists of ASCII bytes only.
proof fn lemma_tail_ascii(ps: Seq<(Seq<char>, Seq<char>)>)
    ensures
        forall|i: int| 0 <= i < tail_qs(ps).len() ==> #[trigger] tail_qs(ps)[i] < 0x80,
    decreases ps.len(),
{
    if ps.len() == 0 {
    } else {
        lemma_pair_ascii(ps[0]);
        lemma_tail_ascii(ps.drop_first());
        assert forall|i: int| 0 <= i < tail_qs(ps).len() implies #[trigger] tail_qs(ps)[i]
            < 0x80 by {
            let head = seq![AMPERSAND] + pair_bytes(ps[0]);
            if i < head.len() {
                assert(tail_qs(ps)[i] == head[i]);
            } else {
                assert(tail_qs(ps)[i] == tail_qs(ps.drop_first())[i - head.len()]);
            }
        }
    }
}

/// The characters spelled by a sequence of ASCII bytes.
pub open spec fn ascii_chars(bytes: Seq<u8>) -> Seq<char> {
    bytes.map(|i: int, b: u8| b as char)
}

/// Joins rendered items with commas: `a,b,c`.
pub open spec fn join_commas(items: Seq<Seq<char>>) -> Seq<char>
    decreases items.len(),
{
    if items.len() == 0 {
        Seq::empty()
    } else if items.len() == 1 {
        items[0]
    } else {
        items[0] + seq![','] + join_commas(items.drop_first())
    }
}

/// Appending an item appends `,item` (or the bare item if first).
pub proof fn lemma_join_commas_snoc(items: Seq<Seq<char>>, x: Seq<char>)
    ensures
        items.len() == 0 ==> join_commas(items.push(x)) == x,
        items.len() > 0 ==> join_commas(items.push(x)) == join_commas(items) + seq![','] + x,
    decreases items.len(),
{
    let q = items.push(x);
    if items.len() == 0 {
        assert(q[0] == x);
    } else if items.len() == 1 {
        assert(q[0] == items[0]);
        assert(q.drop_first() =~= seq![x]);
        assert(join_commas(q.drop_first()) == x);
        assert(join_commas(items) == items[0]);
    } else {
        assert(q[0] == items[0]);
        assert(q.drop_first() =~= items.drop_first().push(x));
        lemma_join_commas_snoc(items.drop_first(), x);
        assert(items[0] + seq![','] + (join_commas(items.drop_first()) + seq![','] + x) =~= (
        items[0] + seq![','] + join_commas(items.drop_first())) + seq![','] + x);
    }
}

/// A sequence of bytes below 0x80 is valid UTF-8 and decodes to the same
/// values as characters.
pub proof fn lemma_ascii_bytes_utf8(s: Seq<u8>)
    requires
        forall|i: int| 0 <= i < s.len() ==> #[trigger] s[i] < 0x80,
    ensures
        valid_utf8(s),
        decode_utf8(s) == s.map(|i: int, b: u8| b as char),
    decreases s.len(),
{
    if s.len() == 0 {
        assert(decode_utf8(s) =~= s.map(|i: int, b: u8| b as char));
    } else {
        let b = s[0];
        assert(b < 0x80);
        assert(vstd::utf8::is_leading_byte_width_1(b));
        assert(b & 0x7F == b) by (bit_vector)
            requires
                b < 0x80,
        ;
        assert(vstd::utf8::length_of_first_scalar(s) == 1);
        assert(vstd::utf8::decode_first_scalar(s) == b as u32);
        assert(vstd::utf8::valid_first_scalar(s));
        let rest = vstd::utf8::pop_first_scalar(s);
        assert(rest =~= s.drop_first());
        lemma_ascii_bytes_utf8(s.drop_first());
        assert(valid_utf8(s));
        assert((b as u32) as char == b as char);
        assert(decode_utf8(s) =~= s.map(|i: int, b: u8| b as char));
    }
}

} // verus!
