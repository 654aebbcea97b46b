//! The call payload handed to the execution engine: an ordered tuple of the
//! normalized block, the two force-disabled safety switches, and the
//! try-state selector, encoded in a fixed order. Any change to field order or
//! count is a breaking wire-format change.

use crate::block::{dec_block, encode_block_into, spec_encode_block, Block, BlockView};
use crate::codec::{
    dec_bool, dec_byteslist, dec_u32, decode_bool, decode_byteslist, decode_u32,
    encode_bool_into, encode_byteslist_into, encode_u32_into, items_encodable,
    lemma_bool_round_trip, lemma_byteslist_round_trip, lemma_u32_round_trip, spec_encode_bool,
    spec_encode_byteslist, spec_encode_u32,
};
use crate::ReplayError;
use vstd::prelude::*;

verus! {

/// Selects which subsystem invariants the execution engine verifies
/// internally after applying a block. Opaque to this core: only constructed
/// and forwarded, never interpreted locally.
#[derive(Debug, Clone)]
pub enum TryStateSelect {
    /// Check no target at all. (The engine's wire name for this variant is
    /// its first, count-zero alternative.)
    Nothing,
    /// Check every target.
    All,
    /// Check the given number of targets in a round-robin fashion.
    RoundRobin(u32),
    /// Check only the targets with the given names.
    Only(Vec<Vec<u8>>),
}

/// The mathematical model of a try-state selector.
pub enum SelectorView {
    Nothing,
    All,
    RoundRobin(u32),
    Only(Seq<Seq<u8>>),
}

impl View for TryStateSelect {
    type V = SelectorView;

    open spec fn view(&self) -> SelectorView {
        match self {
            TryStateSelect::Nothing => SelectorView::Nothing,
            TryStateSelect::All => SelectorView::All,
            TryStateSelect::RoundRobin(n) => SelectorView::RoundRobin(*n),
            TryStateSelect::Only(items) => SelectorView::Only(items.deep_view()),
        }
    }
}

impl SelectorView {
    /// A selector is encodable when its name list is.
    pub open spec fn wf(self) -> bool {
        match self {
            SelectorView::Only(items) => items_encodable(items),
            _ => true,
        }
    }
}

/// A selector encodes as a variant index byte followed by its payload.
pub open spec fn spec_encode_selector(s: SelectorView) -> Seq<u8> {
    match s {
        SelectorView::Nothing => seq![0u8],
        SelectorView::All => seq![1u8],
        SelectorView::RoundRobin(n) => seq![2u8] + spec_encode_u32(n),
        SelectorView::Only(items) => seq![3u8] + spec_encode_byteslist(items),
    }
}

/// Decodes a selector from the front of `s`.
pub open spec fn dec_selector(s: Seq<u8>) -> Option<(SelectorView, Seq<u8>)> {
    if s.len() == 0 {
        None
    } else if s[0] == 0 {
        Some((SelectorView::Nothing, s.skip(1)))
    } else if s[0] == 1 {
        Some((SelectorView::All, s.skip(1)))
    } else if s[0] == 2 {
        match dec_u32(s.skip(1)) {
            Some((n, rest)) => Some((SelectorView::RoundRobin(n), rest)),
            None => None,
        }
    } else if s[0] == 3 {
        match dec_byteslist(s.skip(1)) {
            Some((items, rest)) => Some((SelectorView::Only(items), rest)),
            None => None,
        }
    } else {
        None
    }
}

/// Appends the encoding of `sel` to `dst`.
pub fn encode_selector_into(dst: &mut Vec<u8>, sel: &TryStateSelect)
    requires
        sel@.wf(),
    ensures
        final(dst)@ == old(dst)@ + spec_encode_selector(sel@),
{
    match sel {
        TryStateSelect::Nothing => {
            dst.push(0);
            assert(dst@ =~= old(dst)@ + spec_encode_selector(sel@));
        },
        TryStateSelect::All => {
            dst.push(1);
            assert(dst@ =~= old(dst)@ + spec_encode_selector(sel@));
        },
        TryStateSelect::RoundRobin(n) => {
            dst.push(2);
            encode_u32_into(dst, *n);
            assert(dst@ =~= old(dst)@ + spec_encode_selector(sel@));
        },
        TryStateSelect::Only(items) => {
            dst.push(3);
            encode_byteslist_into(dst, items);
            assert(dst@ =~= old(dst)@ + spec_encode_selector(sel@));
        },
    }
}

/// Decodes a selector at position `pos` of `v`.
pub fn decode_selector(v: &Vec<u8>, pos: usize) -> (r: Option<(TryStateSelect, usize)>)
    requires
        pos <= v@.len(),
    ensures
        match r {
            Some(t) => pos <= t.1 <= v@.len() && dec_selector(v@.skip(pos as int)) == Some(
                (t.0@, v@.skip(t.1 as int)),
            ),
            None => dec_selector(v@.skip(pos as int)) is None,
        },
{
    if pos >= v.len() {
        return None;
    }
    let b0 = v[pos];
    assert(v@.skip(pos as int)[0] == b0);
    assert(v@.skip(pos as int).skip(1) =~= v@.skip(pos + 1));
    if b0 == 0 {
        Some((TryStateSelect::Nothing, pos + 1))
    } else if b0 == 1 {
        Some((TryStateSelect::All, pos + 1))
    } else if b0 == 2 {
        match decode_u32(v, pos + 1) {
            Some((n, p)) => Some((TryStateSelect::RoundRobin(n), p)),
            None => None,
        }
    } else if b0 == 3 {
        match decode_byteslist(v, pos + 1) {
            Some((items, p)) => Some((TryStateSelect::Only(items), p)),
            None => None,
        }
    } else {
        None
    }
}

/// Decoding inverts the selector encoding, for every selector variant and
/// every suffix.
pub proof fn lemma_selector_round_trip(sel: SelectorView, tail: Seq<u8>)
    requires
        sel.wf(),
    ensures
        dec_selector(spec_encode_selector(sel) + tail) == Some((sel, tail)),
{
    let s = spec_encode_selector(sel) + tail;
    match sel {
        SelectorView::Nothing => {
            assert(s.skip(1) =~= tail);
        },
        SelectorView::All => {
            assert(s.skip(1) =~= tail);
        },
        SelectorView::RoundRobin(n) => {
            assert(s.skip(1) =~= spec_encode_u32(n) + tail);
            lemma_u32_round_trip(n, tail);
        },
        SelectorView::Only(items) => {
            assert(s.skip(1) =~= spec_encode_byteslist(items) + tail);
            lemma_byteslist_round_trip(items, tail);
        },
    }
}

// ---- the selector's command surface ----

/// An ASCII blank: space or tab.
pub open spec fn is_space(b: u8) -> bool {
    b == 32 || b == 9
}

/// Drops leading blanks.
pub open spec fn trim_front(s: Seq<u8>) -> Seq<u8>
    decreases s.len(),
{
    if s.len() > 0 && is_space(s[0]) {
        trim_front(s.skip(1))
    } else {
        s
    }
}

/// Drops trailing blanks.
pub open spec fn trim_back(s: Seq<u8>) -> Seq<u8>
    decreases s.len(),
{
    if s.len() > 0 && is_space(s.last()) {
        trim_back(s.drop_last())
    } else {
        s
    }
}

/// Drops blanks on both ends.
pub open spec fn trim_spaces(s: Seq<u8>) -> Seq<u8> {
    trim_back(trim_front(s))
}

/// Splits on commas, trimming each piece; `cur` is the piece read so far.
pub open spec fn split_rec(s: Seq<u8>, cur: Seq<u8>) -> Seq<Seq<u8>>
    decreases s.len(),
{
    if s.len() == 0 {
        seq![trim_spaces(cur)]
    } else if s[0] == 44 {
        seq![trim_spaces(cur)] + split_rec(s.skip(1), Seq::empty())
    } else {
        split_rec(s.skip(1), cur.push(s[0]))
    }
}

/// The comma-separated pieces of `s`, each trimmed; an empty input is one
/// empty piece.
pub open spec fn split_commas(s: Seq<u8>) -> Seq<Seq<u8>> {
    split_rec(s, Seq::empty())
}

/// Non-empty and all decimal digits.
pub open spec fn is_digits(s: Seq<u8>) -> bool {
    s.len() > 0 && forall|i: int| 0 <= i < s.len() ==> 48 <= #[trigger] s[i] <= 57
}

/// The decimal value of a digit string.
pub open spec fn digits_value(s: Seq<u8>) -> int
    decreases s.len(),
{
    if s.len() == 0 {
        0
    } else {
        digits_value(s.drop_last()) * 10 + (s.last() - 48)
    }
}

/// The word selecting every target.
pub open spec fn lit_all() -> Seq<u8> {
    seq![97u8, 108u8, 108u8]
}

/// The capitalized form of the same word.
pub open spec fn lit_all_caps() -> Seq<u8> {
    seq![65u8, 108u8, 108u8]
}

/// The word selecting no target.
pub open spec fn lit_none() -> Seq<u8> {
    seq![110u8, 111u8, 110u8, 101u8]
}

/// The capitalized form of the same word.
pub open spec fn lit_none_caps() -> Seq<u8> {
    seq![78u8, 111u8, 110u8, 101u8]
}

/// The round-robin prefix.
pub open spec fn lit_rr() -> Seq<u8> {
    seq![114u8, 114u8, 45u8]
}

/// What the selector flag means: the two fixed words, a round-robin count
/// whose digits must fit 32 bits, or a comma-separated list of target names;
/// a malformed count is the one parse failure.
pub open spec fn spec_parse_try_state(s: Seq<u8>) -> Option<SelectorView> {
    if s == lit_all() || s == lit_all_caps() {
        Some(SelectorView::All)
    } else if s == lit_none() || s == lit_none_caps() {
        Some(SelectorView::Nothing)
    } else if s.len() >= 3 && s.take(3) == lit_rr() {
        if is_digits(s.skip(3)) && digits_value(s.skip(3)) <= u32::MAX {
            Some(SelectorView::RoundRobin(digits_value(s.skip(3)) as u32))
        } else {
            None
        }
    } else {
        Some(SelectorView::Only(split_commas(s)))
    }
}

/// A digit string's value is never negative.
proof fn lemma_digits_value_nonneg(d: Seq<u8>)
    requires
        forall|i: int| 0 <= i < d.len() ==> 48 <= #[trigger] d[i] <= 57,
    ensures
        digits_value(d) >= 0,
    decreases d.len(),
{
    if d.len() > 0 {
        assert(forall|i: int|
            0 <= i < d.drop_last().len() ==> 48 <= #[trigger] d.drop_last()[i] <= 57);
        lemma_digits_value_nonneg(d.drop_last());
    }
}

/// Reading more digits never shrinks the value.
proof fn lemma_digits_value_mono(d: Seq<u8>, k: int)
    requires
        0 <= k <= d.len(),
        forall|i: int| 0 <= i < d.len() ==> 48 <= #[trigger] d[i] <= 57,
    ensures
        digits_value(d) >= digits_value(d.take(k)),
    decreases d.len() - k,
{
    if k < d.len() {
        assert(d.take(k + 1).drop_last() =~= d.take(k));
        assert(d.take(k + 1).last() == d[k]);
        assert(forall|i: int| 0 <= i < d.take(k).len() ==> 48 <= #[trigger] d.take(k)[i] <= 57);
        lemma_digits_value_nonneg(d.take(k));
        assert(digits_value(d.take(k + 1)) >= digits_value(d.take(k)));
        lemma_digits_value_mono(d, k + 1);
    } else {
        assert(d.take(k) =~= d);
    }
}

/// Blanks stripped in front are exactly the leading blank run.
proof fn lemma_trim_front_skip(s: Seq<u8>, k: int)
    requires
        0 <= k <= s.len(),
        forall|j: int| 0 <= j < k ==> is_space(#[trigger] s[j]),
        k == s.len() || !is_space(s[k]),
    ensures
        trim_front(s) == s.skip(k),
    decreases k,
{
    if k == 0 {
        assert(s.skip(0) =~= s);
    } else {
        lemma_trim_front_skip(s.skip(1), k - 1);
        assert(s.skip(1).skip(k - 1) =~= s.skip(k));
    }
}

/// Blanks stripped behind are exactly the trailing blank run.
proof fn lemma_trim_back_take(s: Seq<u8>, k: int)
    requires
        0 <= k <= s.len(),
        forall|j: int| k <= j < s.len() ==> is_space(#[trigger] s[j]),
        k == 0 || !is_space(s[k - 1]),
    ensures
        trim_back(s) == s.take(k),
    decreases s.len(),
{
    if s.len() > k {
        assert(is_space(s.last()));
        assert(s.drop_last() =~= s.take(s.len() - 1));
        lemma_trim_back_take(s.drop_last(), k);
        assert(s.drop_last().take(k) =~= s.take(k));
    } else {
        assert(s.take(k) =~= s);
    }
}

/// Strips blanks from both ends of a byte string.
pub fn trim_ascii(v: &Vec<u8>) -> (r: Vec<u8>)
    ensures
        r@ == trim_spaces(v@),
{
    let mut start: usize = 0;
    while start < v.len() && (v[start] == 32 || v[start] == 9)
        invariant
            start <= v@.len(),
            forall|j: int| 0 <= j < start ==> is_space(#[trigger] v@[j]),
        decreases v@.len() - start,
    {
        start += 1;
    }
    proof {
        lemma_trim_front_skip(v@, start as int);
    }
    let mut end: usize = v.len();
    while end > start && (v[end - 1] == 32 || v[end - 1] == 9)
        invariant
            start <= end <= v@.len(),
            forall|j: int| end <= j < v@.len() ==> is_space(#[trigger] v@[j]),
        decreases end,
    {
        end -= 1;
    }
    proof {
        let t = v@.skip(start as int);
        assert(forall|j: int|
            end - start <= j < t.len() ==> is_space(#[trigger] t[j])) by {
            assert(forall|j: int|
                end - start <= j < t.len() ==> t[j] == v@[j + start]
                    && is_space(#[trigger] v@[j + start]));
        }
        lemma_trim_back_take(t, end - start);
    }
    let mut out: Vec<u8> = Vec::new();
    let mut i: usize = start;
    while i < end
        invariant
            start <= i <= end <= v@.len(),
            out@ == v@.subrange(start as int, i as int),
        decreases end - i,
    {
        out.push(v[i]);
        assert(v@.subrange(start as int, i + 1) =~= v@.subrange(start as int, i as int).push(
            v@[i as int],
        ));
        i += 1;
    }
    assert(v@.skip(start as int).take(end - start) =~= v@.subrange(start as int, end as int));
    out
}

/// Whether `s` is exactly these three bytes.
fn matches3(s: &Vec<u8>, b0: u8, b1: u8, b2: u8) -> (r: bool)
    ensures
        r == (s@ == seq![b0, b1, b2]),
{
    if s.len() == 3 && s[0] == b0 && s[1] == b1 && s[2] == b2 {
        assert(s@ =~= seq![b0, b1, b2]);
        true
    } else {
        false
    }
}

/// Whether `s` is exactly these four bytes.
fn matches4(s: &Vec<u8>, b0: u8, b1: u8, b2: u8, b3: u8) -> (r: bool)
    ensures
        r == (s@ == seq![b0, b1, b2, b3]),
{
    if s.len() == 4 && s[0] == b0 && s[1] == b1 && s[2] == b2 && s[3] == b3 {
        assert(s@ =~= seq![b0, b1, b2, b3]);
        true
    } else {
        false
    }
}

/// Parses the selector flag: the two fixed words (either capitalization), a
/// round-robin count, or a comma-separated list of target names. A malformed
/// or oversized count is a configuration error, surfaced before any network
/// access.
pub fn parse_try_state(s: &Vec<u8>) -> (r: Result<TryStateSelect, ReplayError>)
    ensures
        match r {
            Ok(sel) => spec_parse_try_state(s@) == Some(sel@),
            Err(e) => spec_parse_try_state(s@) is None && e == ReplayError::Configuration,
        },
{
    if matches3(s, 97, 108, 108) || matches3(s, 65, 108, 108) {
        return Ok(TryStateSelect::All);
    }
    if matches4(s, 110, 111, 110, 101) || matches4(s, 78, 111, 110, 101) {
        return Ok(TryStateSelect::Nothing);
    }
    if s.len() >= 3 && s[0] == 114 && s[1] == 114 && s[2] == 45 {
        assert(s@.take(3) =~= lit_rr());
        if s.len() == 3 {
            return Err(ReplayError::Configuration);
        }
        let mut acc: u64 = 0;
        let mut i: usize = 3;
        while i < s.len()
            invariant
                3 <= i <= s@.len(),
                s@.len() > 3,
                s@ != lit_all() && s@ != lit_all_caps() && s@ != lit_none() && s@
                    != lit_none_caps(),
                s@.take(3) == lit_rr(),
                acc <= u32::MAX,
                forall|j: int| 3 <= j < i ==> 48 <= #[trigger] s@[j] <= 57,
                acc == digits_value(s@.subrange(3, i as int)),
            decreases s@.len() - i,
        {
            let b = s[i];
            if b < 48 || b > 57 {
                assert(s@.skip(3)[i - 3] == s@[i as int]);
                return Err(ReplayError::Configuration);
            }
            acc = acc * 10 + (b - 48) as u64;
            proof {
                assert(s@.subrange(3, i + 1).drop_last() =~= s@.subrange(3, i as int));
                assert(s@.subrange(3, i + 1).last() == s@[i as int]);
            }
            if acc > 0xffff_ffff {
                proof {
                    if is_digits(s@.skip(3)) && digits_value(s@.skip(3)) <= u32::MAX {
                        lemma_digits_value_mono(s@.skip(3), i + 1 - 3);
                        assert(s@.skip(3).take(i + 1 - 3) =~= s@.subrange(3, i + 1));
                        assert(false);
                    }
                }
                return Err(ReplayError::Configuration);
            }
            i += 1;
        }
        proof {
            assert(s@.subrange(3, s@.len() as int) =~= s@.skip(3));
            assert(forall|j: int|
                0 <= j < s@.skip(3).len() ==> #[trigger] s@.skip(3)[j] == s@[j + 3]);
        }
        return Ok(TryStateSelect::RoundRobin(acc as u32));
    }
    let mut items: Vec<Vec<u8>> = Vec::new();
    let mut cur: Vec<u8> = Vec::new();
    let mut i: usize = 0;
    assert(s@.skip(0) =~= s@);
    assert(items.deep_view() + split_rec(s@, cur@) =~= split_rec(s@, cur@));
    while i < s.len()
        invariant
            i <= s@.len(),
            split_commas(s@) == items.deep_view() + split_rec(s@.skip(i as int), cur@),
        decreases s@.len() - i,
    {
        let b = s[i];
        proof {
            assert(s@.skip(i as int)[0] == s@[i as int]);
            assert(s@.skip(i as int).skip(1) =~= s@.skip(i + 1));
        }
        if b == 44 {
            let t = trim_ascii(&cur);
            let ghost prev = items.deep_view();
            let ghost curv = cur@;
            items.push(t);
            proof {
                assert(items.deep_view() =~~= prev.push(trim_spaces(curv)));
                assert(prev.push(trim_spaces(curv)) + split_rec(s@.skip(i + 1), Seq::empty())
                    =~= prev + (seq![trim_spaces(curv)] + split_rec(s@.skip(i + 1), Seq::empty())));
            }
            cur = Vec::new();
        } else {
            cur.push(b);
        }
        i += 1;
    }
    proof {
        assert(s@.skip(s@.len() as int) =~= Seq::<u8>::empty());
    }
    let t = trim_ascii(&cur);
    let ghost prev = items.deep_view();
    let ghost curv = cur@;
    items.push(t);
    proof {
        assert(items.deep_view() =~~= prev.push(trim_spaces(curv)));
        assert(prev.push(trim_spaces(curv)) =~= prev + seq![trim_spaces(curv)]);
    }
    Ok(TryStateSelect::Only(items))
}

// ---- the call payload ----

/// The payload is the ordered tuple of the block, the state-root check
/// switch, the signature check switch, and the try-state selector.
pub open spec fn spec_encode_payload(
    b: BlockView,
    state_root_check: bool,
    signature_check: bool,
    sel: SelectorView,
) -> Seq<u8> {
    spec_encode_block(b) + spec_encode_bool(state_root_check) + spec_encode_bool(signature_check)
        + spec_encode_selector(sel)
}

/// Decodes a whole payload; trailing bytes are rejected.
pub open spec fn dec_payload(s: Seq<u8>) -> Option<(BlockView, bool, bool, SelectorView)> {
    match dec_block(s) {
        Some((b, s1)) => match dec_bool(s1) {
            Some((rc, s2)) => match dec_bool(s2) {
                Some((sc, s3)) => match dec_selector(s3) {
                    Some((sel, s4)) => if s4.len() == 0 {
                        Some((b, rc, sc, sel))
                    } else {
                        None
                    },
                    None => None,
                },
                None => None,
            },
            None => None,
        },
        None => None,
    }
}

/// Encodes the call payload for the given block and selector, with both
/// safety switches carried explicitly.
pub fn assemble_payload(
    block: &Block,
    state_root_check: bool,
    signature_check: bool,
    sel: &TryStateSelect,
) -> (r: Vec<u8>)
    requires
        block@.wf(),
        sel@.wf(),
    ensures
        r@ == spec_encode_payload(block@, state_root_check, signature_check, sel@),
{
    let mut out: Vec<u8> = Vec::new();
    encode_block_into(&mut out, block);
    encode_bool_into(&mut out, state_root_check);
    encode_bool_into(&mut out, signature_check);
    encode_selector_into(&mut out, sel);
    assert(out@ =~= spec_encode_payload(block@, state_root_check, signature_check, sel@));
    out
}

/// Decodes a whole payload back into its tuple.
pub fn decode_payload(v: &Vec<u8>) -> (r: Option<(Block, bool, bool, TryStateSelect)>)
    ensures
        match r {
            Some(t) => dec_payload(v@) == Some((t.0@, t.1, t.2, t.3@)),
            None => dec_payload(v@) is None,
        },
{
    assert(v@.skip(0) =~= v@);
    let (block, p1) = match crate::block::decode_block(v, 0) {
        Some(t) => t,
        None => {
            return None;
        },
    };
    let (rc, p2) = match decode_bool(v, p1) {
        Some(t) => t,
        None => {
            return None;
        },
    };
    let (sc, p3) = match decode_bool(v, p2) {
        Some(t) => t,
        None => {
            return None;
        },
    };
    let (sel, p4) = match decode_selector(v, p3) {
        Some(t) => t,
        None => {
            return None;
        },
    };
    if p4 != v.len() {
        return None;
    }
    Some((block, rc, sc, sel))
}

/// The payload round trip: decoding an assembled payload yields exactly the
/// tuple that was encoded, for every well-formed block, both switches, and
/// every selector variant.
pub proof fn lemma_payload_round_trip(
    b: BlockView,
    state_root_check: bool,
    signature_check: bool,
    sel: SelectorView,
)
    requires
        b.wf(),
        sel.wf(),
    ensures
        dec_payload(spec_encode_payload(b, state_root_check, signature_check, sel)) == Some(
            (b, state_root_check, signature_check, sel),
        ),
{
    let t1 = spec_encode_bool(state_root_check) + (spec_encode_bool(signature_check)
        + (spec_encode_selector(sel) + Seq::<u8>::empty()));
    let s = spec_encode_payload(b, state_root_check, signature_check, sel);
    assert(s =~= spec_encode_block(b) + t1);
    crate::block::lemma_block_round_trip(b, t1);
    lemma_bool_round_trip(state_root_check, spec_encode_bool(signature_check)
        + (spec_encode_selector(sel) + Seq::<u8>::empty()));
    lemma_bool_round_trip(signature_check, spec_encode_selector(sel) + Seq::<u8>::empty());
    lemma_selector_round_trip(sel, Seq::<u8>::empty());
}

} // verus!
