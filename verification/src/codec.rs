//! The binary wire scheme for call payloads: a fixed, versioned format in
//! which an unsigned count is compact-encoded, a byte string is its
//! compact-encoded length followed by its bytes, and a list of byte strings
//! is its compact-encoded count followed by the encoded items.
//!
//! Encoding of the primitives goes through the scheme's reference
//! implementation; decoding is implemented and verified here, and proved to
//! invert the encoding.

use vstd::arithmetic::div_mod::{
    lemma_div_denominator, lemma_fundamental_div_mod, lemma_fundamental_div_mod_converse,
    lemma_mod_mod, lemma_small_mod,
};
use vstd::prelude::*;

verus! {

/// The two little-endian bytes of a value below 65536.
pub open spec fn le2(v: int) -> Seq<u8> {
    seq![(v % 256) as u8, ((v / 256) % 256) as u8]
}

/// The four little-endian bytes of a value below 2^32.
pub open spec fn le4(v: int) -> Seq<u8> {
    seq![
        (v % 256) as u8,
        ((v / 256) % 256) as u8,
        ((v / 65536) % 256) as u8,
        ((v / 16777216) % 256) as u8,
    ]
}

/// The compact encoding of an unsigned 32-bit count: two mode bits in the
/// first byte select a one-, two-, four- or five-byte little-endian form.
pub open spec fn spec_compact_u32(n: u32) -> Seq<u8> {
    if n < 64 {
        seq![(n * 4) as u8]
    } else if n < 16384 {
        le2(n * 4 + 1)
    } else if n < 1073741824 {
        le4(n * 4 + 2)
    } else {
        seq![3u8] + le4(n as int)
    }
}

/// A boolean encodes as one byte, one for true and zero for false.
pub open spec fn spec_encode_bool(b: bool) -> Seq<u8> {
    seq![if b { 1u8 } else { 0u8 }]
}

/// A 32-bit value encodes as its four little-endian bytes.
pub open spec fn spec_encode_u32(n: u32) -> Seq<u8> {
    le4(n as int)
}

/// A byte string encodes as its compact length followed by its bytes.
pub open spec fn spec_encode_bytes(b: Seq<u8>) -> Seq<u8> {
    spec_compact_u32(b.len() as u32) + b
}

/// The concatenation of the encodings of a sequence of byte strings.
pub open spec fn concat_encoded(items: Seq<Seq<u8>>) -> Seq<u8>
    decreases items.len(),
{
    if items.len() == 0 {
        Seq::empty()
    } else {
        spec_encode_bytes(items[0]) + concat_encoded(items.drop_first())
    }
}

/// A list of byte strings encodes as its compact count followed by the
/// encoded items.
pub open spec fn spec_encode_byteslist(items: Seq<Seq<u8>>) -> Seq<u8> {
    spec_compact_u32(items.len() as u32) + concat_encoded(items)
}

/// Every item of a list is short enough for its length to be compact-encoded.
pub open spec fn items_encodable(items: Seq<Seq<u8>>) -> bool {
    &&& items.len() <= u32::MAX
    &&& forall|i: int| 0 <= i < items.len() ==> #[trigger] items[i].len() <= u32::MAX
}

/// Relies on parity_scale_codec's `Encode` impl for `Compact<u32>`: one
/// byte `n * 4` below 64, two little-endian bytes `n * 4 + 1` below 2^14,
/// four little-endian bytes `n * 4 + 2` below 2^30, and a `3` byte followed
/// by the four little-endian bytes of `n` otherwise.
#[verifier::external_body]
fn compact_u32_encoded(n: u32) -> (r: Vec<u8>)
    ensures
        r@ == spec_compact_u32(n),
{
    parity_scale_codec::Encode::encode(&parity_scale_codec::Compact(n))
}

/// Relies on parity_scale_codec's `Encode` impl for `bool`: one byte, one
/// for true and zero for false.
#[verifier::external_body]
fn bool_encoded(b: bool) -> (r: Vec<u8>)
    ensures
        r@ == spec_encode_bool(b),
{
    parity_scale_codec::Encode::encode(&b)
}

/// Relies on parity_scale_codec's `Encode` impl for `u32`: the four
/// little-endian bytes of the value.
#[verifier::external_body]
fn u32_encoded(n: u32) -> (r: Vec<u8>)
    ensures
        r@ == spec_encode_u32(n),
{
    parity_scale_codec::Encode::encode(&n)
}

/// Appends a copy of `src` to `dst`.
pub fn push_all(dst: &mut Vec<u8>, src: &Vec<u8>)
    ensures
        final(dst)@ == old(dst)@ + src@,
{
    let mut i: usize = 0;
    while i < src.len()
        invariant
            i <= src@.len(),
            dst@ == old(dst)@ + src@.take(i as int),
        decreases src@.len() - i,
    {
        dst.push(src[i]);
        assert(src@.take(i + 1) == src@.take(i as int).push(src@[i as int]));
        i += 1;
    }
    assert(src@.take(src@.len() as int) == src@);
}

/// Appends the compact encoding of `n` to `dst`.
pub fn encode_compact_u32_into(dst: &mut Vec<u8>, n: u32)
    ensures
        final(dst)@ == old(dst)@ + spec_compact_u32(n),
{
    let c = compact_u32_encoded(n);
    push_all(dst, &c);
}

/// Appends the one-byte encoding of `b` to `dst`.
pub fn encode_bool_into(dst: &mut Vec<u8>, b: bool)
    ensures
        final(dst)@ == old(dst)@ + spec_encode_bool(b),
{
    let c = bool_encoded(b);
    push_all(dst, &c);
}

/// Appends the four-byte little-endian encoding of `n` to `dst`.
pub fn encode_u32_into(dst: &mut Vec<u8>, n: u32)
    ensures
        final(dst)@ == old(dst)@ + spec_encode_u32(n),
{
    let c = u32_encoded(n);
    push_all(dst, &c);
}

/// Appends the length-prefixed encoding of `b` to `dst`.
pub fn encode_bytes_into(dst: &mut Vec<u8>, b: &Vec<u8>)
    requires
        b@.len() <= u32::MAX,
    ensures
        final(dst)@ == old(dst)@ + spec_encode_bytes(b@),
{
    encode_compact_u32_into(dst, b.len() as u32);
    push_all(dst, b);
    assert(dst@ == old(dst)@ + spec_encode_bytes(b@));
}

/// `concat_encoded` distributes over appending one item at the end.
pub proof fn lemma_concat_encoded_push(items: Seq<Seq<u8>>, x: Seq<u8>)
    ensures
        concat_encoded(items.push(x)) == concat_encoded(items) + spec_encode_bytes(x),
    decreases items.len(),
{
    if items.len() == 0 {
        assert(items.push(x)[0] == x);
        assert(items.push(x).drop_first() =~= Seq::<Seq<u8>>::empty());
        assert(concat_encoded(items.push(x).drop_first()) == Seq::<u8>::empty());
        assert(concat_encoded(items.push(x)) == spec_encode_bytes(x) + Seq::<u8>::empty());
        assert(concat_encoded(items) == Seq::<u8>::empty());
        assert(concat_encoded(items.push(x)) =~= concat_encoded(items) + spec_encode_bytes(x));
    } else {
        assert(items.push(x).drop_first() =~= items.drop_first().push(x));
        lemma_concat_encoded_push(items.drop_first(), x);
        assert(items.push(x)[0] == items[0]);
        assert(concat_encoded(items.push(x)) =~= concat_encoded(items) + spec_encode_bytes(x));
    }
}

/// Appends the count-prefixed encoding of `items` to `dst`.
pub fn encode_byteslist_into(dst: &mut Vec<u8>, items: &Vec<Vec<u8>>)
    requires
        items_encodable(items.deep_view()),
    ensures
        final(dst)@ == old(dst)@ + spec_encode_byteslist(items.deep_view()),
{
    encode_compact_u32_into(dst, items.len() as u32);
    let ghost base = dst@;
    let mut i: usize = 0;
    while i < items.len()
        invariant
            i <= items@.len(),
            items.deep_view().len() == items@.len(),
            items_encodable(items.deep_view()),
            forall|j: int|
                0 <= j < items@.len() ==> #[trigger] items.deep_view()[j] == items@[j]@,
            dst@ == base + concat_encoded(items.deep_view().take(i as int)),
        decreases items@.len() - i,
    {
        proof {
            let dv = items.deep_view();
            assert(dv[i as int] == items@[i as int]@);
            assert(dv[i as int].len() <= u32::MAX);
        }
        encode_bytes_into(dst, &items[i]);
        proof {
            let dv = items.deep_view();
            assert(dv.take(i + 1) =~= dv.take(i as int).push(dv[i as int]));
            lemma_concat_encoded_push(dv.take(i as int), dv[i as int]);
        }
        i += 1;
    }
    proof {
        let dv = items.deep_view();
        assert(dv.take(dv.len() as int) =~= dv);
    }
}

// ---- decoding ----

/// Decodes a compact count from the front of `s`, rejecting non-canonical
/// forms, and returns the count with the remaining bytes.
pub open spec fn dec_compact(s: Seq<u8>) -> Option<(u32, Seq<u8>)> {
    if s.len() == 0 {
        None
    } else {
        let b0 = s[0] as int;
        if b0 % 4 == 0 {
            Some(((b0 / 4) as u32, s.skip(1)))
        } else if b0 % 4 == 1 {
            if s.len() < 2 {
                None
            } else {
                let v = (b0 + (s[1] as int) * 256) / 4;
                if 64 <= v < 16384 {
                    Some((v as u32, s.skip(2)))
                } else {
                    None
                }
            }
        } else if b0 % 4 == 2 {
            if s.len() < 4 {
                None
            } else {
                let v = (b0 + (s[1] as int) * 256 + (s[2] as int) * 65536 + (s[3] as int)
                    * 16777216) / 4;
                if 16384 <= v < 1073741824 {
                    Some((v as u32, s.skip(4)))
                } else {
                    None
                }
            }
        } else {
            if b0 != 3 || s.len() < 5 {
                None
            } else {
                let v = (s[1] as int) + (s[2] as int) * 256 + (s[3] as int) * 65536 + (
                s[4] as int) * 16777216;
                if v >= 1073741824 {
                    Some((v as u32, s.skip(5)))
                } else {
                    None
                }
            }
        }
    }
}

/// Decodes a length-prefixed byte string from the front of `s`.
pub open spec fn dec_bytes(s: Seq<u8>) -> Option<(Seq<u8>, Seq<u8>)> {
    match dec_compact(s) {
        Some((n, rest)) => if rest.len() >= n {
            Some((rest.take(n as int), rest.skip(n as int)))
        } else {
            None
        },
        None => None,
    }
}

/// Decodes `n` length-prefixed byte strings from the front of `s`.
pub open spec fn dec_items(s: Seq<u8>, n: nat) -> Option<(Seq<Seq<u8>>, Seq<u8>)>
    decreases n,
{
    if n == 0 {
        Some((Seq::empty(), s))
    } else {
        match dec_bytes(s) {
            Some((b, rest)) => match dec_items(rest, (n - 1) as nat) {
                Some((items, rest2)) => Some((seq![b] + items, rest2)),
                None => None,
            },
            None => None,
        }
    }
}

/// Decodes a count-prefixed list of byte strings from the front of `s`.
pub open spec fn dec_byteslist(s: Seq<u8>) -> Option<(Seq<Seq<u8>>, Seq<u8>)> {
    match dec_compact(s) {
        Some((n, rest)) => dec_items(rest, n as nat),
        None => None,
    }
}

/// Decodes a boolean from the front of `s`; any byte other than zero or one
/// is rejected.
pub open spec fn dec_bool(s: Seq<u8>) -> Option<(bool, Seq<u8>)> {
    if s.len() == 0 {
        None
    } else if s[0] == 0 {
        Some((false, s.skip(1)))
    } else if s[0] == 1 {
        Some((true, s.skip(1)))
    } else {
        None
    }
}

/// Decodes a four-byte little-endian value from the front of `s`.
pub open spec fn dec_u32(s: Seq<u8>) -> Option<(u32, Seq<u8>)> {
    if s.len() < 4 {
        None
    } else {
        Some((
            ((s[0] as int) + (s[1] as int) * 256 + (s[2] as int) * 65536 + (s[3] as int)
                * 16777216) as u32,
            s.skip(4),
        ))
    }
}

// ---- executable decoding ----

/// Decodes a compact count at position `pos` of `v`.
pub fn decode_compact_u32(v: &Vec<u8>, pos: usize) -> (r: Option<(u32, usize)>)
    requires
        pos <= v@.len(),
    ensures
        match r {
            Some(t) => pos <= t.1 <= v@.len() && dec_compact(v@.skip(pos as int)) == Some(
                (t.0, v@.skip(t.1 as int)),
            ),
            None => dec_compact(v@.skip(pos as int)) is None,
        },
{
    let ghost s = v@.skip(pos as int);
    if pos >= v.len() {
        return None;
    }
    let b0 = v[pos];
    assert(s[0] == b0);
    if b0 % 4 == 0 {
        let n = (b0 / 4) as u32;
        assert(v@.skip(pos as int).skip(1) =~= v@.skip(pos + 1));
        Some((n, pos + 1))
    } else if b0 % 4 == 1 {
        if v.len() - pos < 2 {
            return None;
        }
        assert(s[1] == v@[pos + 1]);
        let n = (b0 as u32 + v[pos + 1] as u32 * 256) / 4;
        if 64 <= n && n < 16384 {
            assert(v@.skip(pos as int).skip(2) =~= v@.skip(pos + 2));
            Some((n, pos + 2))
        } else {
            None
        }
    } else if b0 % 4 == 2 {
        if v.len() - pos < 4 {
            return None;
        }
        assert(s[1] == v@[pos + 1] && s[2] == v@[pos + 2] && s[3] == v@[pos + 3]);
        let n = (b0 as u32 + v[pos + 1] as u32 * 256 + v[pos + 2] as u32 * 65536 + v[pos
            + 3] as u32 * 16777216) / 4;
        if 16384 <= n && n < 1073741824 {
            assert(v@.skip(pos as int).skip(4) =~= v@.skip(pos + 4));
            Some((n, pos + 4))
        } else {
            None
        }
    } else {
        if b0 != 3 || v.len() - pos < 5 {
            return None;
        }
        assert(s[1] == v@[pos + 1] && s[2] == v@[pos + 2] && s[3] == v@[pos + 3] && s[4] == v@[pos
            + 4]);
        let n = v[pos + 1] as u32 + v[pos + 2] as u32 * 256 + v[pos + 3] as u32 * 65536 + v[pos
            + 4] as u32 * 16777216;
        if n >= 1073741824 {
            assert(v@.skip(pos as int).skip(5) =~= v@.skip(pos + 5));
            Some((n, pos + 5))
        } else {
            None
        }
    }
}

/// Decodes a boolean at position `pos` of `v`.
pub fn decode_bool(v: &Vec<u8>, pos: usize) -> (r: Option<(bool, usize)>)
    requires
        pos <= v@.len(),
    ensures
        match r {
            Some(t) => pos <= t.1 <= v@.len() && dec_bool(v@.skip(pos as int)) == Some(
                (t.0, v@.skip(t.1 as int)),
            ),
            None => dec_bool(v@.skip(pos as int)) is None,
        },
{
    if pos >= v.len() {
        return None;
    }
    let b0 = v[pos];
    assert(v@.skip(pos as int)[0] == b0);
    assert(v@.skip(pos as int).skip(1) =~= v@.skip(pos + 1));
    if b0 == 0 {
        Some((false, pos + 1))
    } else if b0 == 1 {
        Some((true, pos + 1))
    } else {
        None
    }
}

/// Decodes a four-byte little-endian value at position `pos` of `v`.
pub fn decode_u32(v: &Vec<u8>, pos: usize) -> (r: Option<(u32, usize)>)
    requires
        pos <= v@.len(),
    ensures
        match r {
            Some(t) => pos <= t.1 <= v@.len() && dec_u32(v@.skip(pos as int)) == Some(
                (t.0, v@.skip(t.1 as int)),
            ),
            None => dec_u32(v@.skip(pos as int)) is None,
        },
{
    if v.len() - pos < 4 {
        return None;
    }
    let ghost s = v@.skip(pos as int);
    assert(s[0] == v@[pos as int] && s[1] == v@[pos + 1] && s[2] == v@[pos + 2] && s[3] == v@[pos
        + 3]);
    let n = v[pos] as u32 + v[pos + 1] as u32 * 256 + v[pos + 2] as u32 * 65536 + v[pos
        + 3] as u32 * 16777216;
    assert(v@.skip(pos as int).skip(4) =~= v@.skip(pos + 4));
    Some((n, pos + 4))
}

/// Decodes a length-prefixed byte string at position `pos` of `v`.
pub fn decode_bytes(v: &Vec<u8>, pos: usize) -> (r: Option<(Vec<u8>, usize)>)
    requires
        pos <= v@.len(),
    ensures
        match r {
            Some(t) => pos <= t.1 <= v@.len() && dec_bytes(v@.skip(pos as int)) == Some(
                (t.0@, v@.skip(t.1 as int)),
            ),
            None => dec_bytes(v@.skip(pos as int)) is None,
        },
{
    match decode_compact_u32(v, pos) {
        None => None,
        Some((n, p)) => {
            let ghost rest = v@.skip(p as int);
            let nn = n as usize;
            if v.len() - p < nn {
                assert(rest.len() < n);
                return None;
            }
            let mut out: Vec<u8> = Vec::new();
            let mut i: usize = 0;
            while i < nn
                invariant
                    i <= nn,
                    p + nn <= v@.len(),
                    v@.len() <= usize::MAX,
                    out@ == v@.subrange(p as int, p + i),
                decreases nn - i,
            {
                out.push(v[p + i]);
                assert(v@.subrange(p as int, p + i + 1) =~= v@.subrange(p as int, p + i).push(
                    v@[p + i],
                ));
                i += 1;
            }
            assert(rest.take(n as int) =~= v@.subrange(p as int, p + nn));
            assert(rest.skip(n as int) =~= v@.skip(p + nn));
            Some((out, p + nn))
        },
    }
}

/// Decodes a count-prefixed list of byte strings at position `pos` of `v`.
pub fn decode_byteslist(v: &Vec<u8>, pos: usize) -> (r: Option<(Vec<Vec<u8>>, usize)>)
    requires
        pos <= v@.len(),
    ensures
        match r {
            Some(t) => pos <= t.1 <= v@.len() && dec_byteslist(v@.skip(pos as int)) == Some(
                (t.0.deep_view(), v@.skip(t.1 as int)),
            ),
            None => dec_byteslist(v@.skip(pos as int)) is None,
        },
{
    match decode_compact_u32(v, pos) {
        None => None,
        Some((n, p0)) => {
            let mut out: Vec<Vec<u8>> = Vec::new();
            let mut p = p0;
            let mut i: u32 = 0;
            while i < n
                invariant
                    i <= n,
                    pos <= v@.len(),
                    pos <= p <= v@.len(),
                    dec_compact(v@.skip(pos as int)) == Some((n, v@.skip(p0 as int))),
                    out.deep_view().len() == i,
                    dec_items(v@.skip(p0 as int), n as nat) == (match dec_items(
                        v@.skip(p as int),
                        (n - i) as nat,
                    ) {
                        Some((items, rest)) => Some((out.deep_view() + items, rest)),
                        None => None::<(Seq<Seq<u8>>, Seq<u8>)>,
                    }),
                decreases n - i,
            {
                match decode_bytes(v, p) {
                    None => {
                        return None;
                    },
                    Some((b, p2)) => {
                        let ghost prev = out.deep_view();
                        let ghost bv = b@;
                        proof {
                            let items_rest = dec_items(v@.skip(p2 as int), (n - i - 1) as nat);
                            if items_rest is Some {
                                let (items, rest) = items_rest->Some_0;
                                assert(prev.push(bv) + items =~= prev + (seq![bv] + items));
                            }
                        }
                        out.push(b);
                        assert(out.deep_view() =~~= prev.push(bv));
                        p = p2;
                    },
                }
                i += 1;
            }
            assert(dec_items(v@.skip(p as int), 0nat) == Some(
                (Seq::<Seq<u8>>::empty(), v@.skip(p as int)),
            ));
            assert(out.deep_view() + Seq::<Seq<u8>>::empty() =~= out.deep_view());
            Some((out, p))
        },
    }
}

// ---- round-trip proofs ----

/// A value below 2^32 is recovered from its four little-endian bytes.
proof fn lemma_le4_reconstruct(v: int)
    requires
        0 <= v < 4294967296,
    ensures
        (v % 256) + ((v / 256) % 256) * 256 + ((v / 65536) % 256) * 65536 + ((v / 16777216) % 256)
            * 16777216 == v,
{
    lemma_fundamental_div_mod(v, 256);
    lemma_fundamental_div_mod(v / 256, 256);
    lemma_div_denominator(v, 256, 256);
    lemma_fundamental_div_mod(v / 65536, 256);
    lemma_div_denominator(v, 65536, 256);
    lemma_fundamental_div_mod(v, 16777216);
    assert(v / 16777216 < 256);
    lemma_small_mod((v / 16777216) as nat, 256nat);
}

/// A value below 65536 is recovered from its two little-endian bytes.
proof fn lemma_le2_reconstruct(v: int)
    requires
        0 <= v < 65536,
    ensures
        (v % 256) + ((v / 256) % 256) * 256 == v,
{
    lemma_fundamental_div_mod(v, 256);
    assert(v / 256 < 256);
    lemma_small_mod((v / 256) as nat, 256nat);
}

/// Decoding inverts the compact encoding, for every count and every suffix.
pub proof fn lemma_compact_round_trip(n: u32, tail: Seq<u8>)
    ensures
        dec_compact(spec_compact_u32(n) + tail) == Some((n, tail)),
{
    let s = spec_compact_u32(n) + tail;
    if n < 64 {
        let v: int = n * 4;
        assert(s[0] == (v as u8));
        lemma_fundamental_div_mod_converse(v, 4, n as int, 0);
        assert(s.skip(1) =~= tail);
    } else if n < 16384 {
        let v: int = n * 4 + 1;
        lemma_fundamental_div_mod_converse(v, 4, n as int, 1);
        lemma_le2_reconstruct(v);
        lemma_mod_mod(v, 4, 64);
        assert(s[0] as int == v % 256);
        assert(s[1] as int == (v / 256) % 256);
        assert((s[0] as int) % 4 == 1);
        assert((s[0] as int) + (s[1] as int) * 256 == v);
        assert(s.skip(2) =~= tail);
    } else if n < 1073741824 {
        let v: int = n * 4 + 2;
        lemma_fundamental_div_mod_converse(v, 4, n as int, 2);
        lemma_le4_reconstruct(v);
        lemma_mod_mod(v, 4, 64);
        assert(s[0] as int == v % 256);
        assert(s[1] as int == (v / 256) % 256);
        assert(s[2] as int == (v / 65536) % 256);
        assert(s[3] as int == (v / 16777216) % 256);
        assert((s[0] as int) % 4 == 2);
        assert((s[0] as int) + (s[1] as int) * 256 + (s[2] as int) * 65536 + (s[3] as int)
            * 16777216 == v);
        assert(s.skip(4) =~= tail);
    } else {
        let v: int = n as int;
        lemma_le4_reconstruct(v);
        assert(s[0] == 3u8);
        assert(s[1] as int == v % 256);
        assert(s[2] as int == (v / 256) % 256);
        assert(s[3] as int == (v / 65536) % 256);
        assert(s[4] as int == (v / 16777216) % 256);
        assert((s[1] as int) + (s[2] as int) * 256 + (s[3] as int) * 65536 + (s[4] as int)
            * 16777216 == v);
        assert(s.skip(5) =~= tail);
    }
}

/// Decoding inverts the length-prefixed encoding of a byte string.
pub proof fn lemma_bytes_round_trip(b: Seq<u8>, tail: Seq<u8>)
    requires
        b.len() <= u32::MAX,
    ensures
        dec_bytes(spec_encode_bytes(b) + tail) == Some((b, tail)),
{
    lemma_compact_round_trip(b.len() as u32, b + tail);
    assert(spec_encode_bytes(b) + tail =~= spec_compact_u32(b.len() as u32) + (b + tail));
    assert((b + tail).take(b.len() as int) =~= b);
    assert((b + tail).skip(b.len() as int) =~= tail);
}

/// Decoding inverts the concatenated encoding of a sequence of byte strings.
pub proof fn lemma_items_round_trip(items: Seq<Seq<u8>>, tail: Seq<u8>)
    requires
        items_encodable(items),
    ensures
        dec_items(concat_encoded(items) + tail, items.len()) == Some((items, tail)),
    decreases items.len(),
{
    if items.len() == 0 {
        assert(concat_encoded(items) + tail =~= tail);
        assert(Seq::<Seq<u8>>::empty() =~= items);
    } else {
        let rest = items.drop_first();
        assert(items_encodable(rest)) by {
            assert(forall|i: int|
                0 <= i < rest.len() ==> #[trigger] rest[i].len() == items[i + 1].len());
        }
        assert(concat_encoded(items) + tail =~= spec_encode_bytes(items[0]) + (concat_encoded(rest)
            + tail));
        lemma_bytes_round_trip(items[0], concat_encoded(rest) + tail);
        lemma_items_round_trip(rest, tail);
        assert(seq![items[0]] + rest =~= items);
    }
}

/// Decoding inverts the count-prefixed encoding of a list of byte strings.
#[verifier::rlimit(30)]
pub proof fn lemma_byteslist_round_trip(items: Seq<Seq<u8>>, tail: Seq<u8>)
    requires
        items_encodable(items),
    ensures
        dec_byteslist(spec_encode_byteslist(items) + tail) == Some((items, tail)),
{
    lemma_compact_round_trip(items.len() as u32, concat_encoded(items) + tail);
    assert(spec_encode_byteslist(items) + tail =~= spec_compact_u32(items.len() as u32) + (
    concat_encoded(items) + tail));
    lemma_items_round_trip(items, tail);
}

/// Decoding inverts the boolean encoding.
pub proof fn lemma_bool_round_trip(b: bool, tail: Seq<u8>)
    ensures
        dec_bool(spec_encode_bool(b) + tail) == Some((b, tail)),
{
    let s = spec_encode_bool(b) + tail;
    assert(s.skip(1) =~= tail);
}

/// Decoding inverts the four-byte little-endian encoding.
pub proof fn lemma_u32_round_trip(n: u32, tail: Seq<u8>)
    ensures
        dec_u32(spec_encode_u32(n) + tail) == Some((n, tail)),
{
    let s = spec_encode_u32(n) + tail;
    lemma_le4_reconstruct(n as int);
    assert(s[0] as int == (n as int) % 256);
    assert(s[1] as int == ((n as int) / 256) % 256);
    assert(s[2] as int == ((n as int) / 65536) % 256);
    assert(s[3] as int == ((n as int) / 16777216) % 256);
    assert(s.skip(4) =~= tail);
}

} // verus!
