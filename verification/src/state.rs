//! State specifications: a live remote source or a static snapshot, and the
//! resolution of a live spec to an explicit baseline block identifier.

use crate::ReplayError;
use vstd::prelude::*;

verus! {

/// The lowercase hexadecimal digit for a nibble.
pub open spec fn hex_digit(d: u8) -> char {
    if d < 10 {
        ((48 + d) as u8) as char
    } else {
        ((87 + d) as u8) as char
    }
}

/// The lowercase hexadecimal rendering of a byte string, high nibble first.
pub open spec fn spec_hex(b: Seq<u8>) -> Seq<char>
    decreases b.len(),
{
    if b.len() == 0 {
        Seq::empty()
    } else {
        seq![hex_digit(b[0] / 16), hex_digit(b[0] % 16)] + spec_hex(b.drop_first())
    }
}

/// Relies on hex's encode: each byte becomes two lowercase hexadecimal
/// digits, high nibble first.
#[verifier::external_body]
pub(crate) fn hex_encoded(b: &Vec<u8>) -> (r: String)
    ensures
        r@ == spec_hex(b@),
{
    hex::encode(b)
}

/// A live remote state source: an endpoint, an optional explicit block
/// identifier, and the scoping filters applied while fetching.
#[derive(Debug, Clone)]
pub struct LiveState {
    /// The websocket endpoint of the remote source.
    pub uri: String,
    /// The block identifier whose state is wanted, as a hexadecimal hash;
    /// absent means the chain's current best block.
    pub at: Option<String>,
    /// Fetch only the storage of these modules, when non-empty.
    pub pallet: Vec<String>,
    /// Fetch only keys under these hashed prefixes, when non-empty.
    pub hashed_prefixes: Vec<Vec<u8>>,
    /// Include child trees.
    pub child_tree: bool,
}

/// The state type to use: a live remote source or a local snapshot capture.
/// The replay flow accepts only the live variant.
#[derive(Debug, Clone)]
pub enum State {
    Live(LiveState),
    Snap { path: Option<String> },
}

/// What a resolved live spec looks like when the baseline identifier came
/// from the best-block header query: the endpoint is the block-fetch
/// endpoint, the identifier is the hexadecimal hash of the reported best
/// block, and the scoping filters are reset.
pub open spec fn resolved_from_latest(res: LiveState, block_ws_uri: String, h: Seq<u8>) -> bool {
    &&& res.uri == block_ws_uri
    &&& res.at is Some
    &&& res.at->0@ == spec_hex(h)
    &&& res.pallet@ == Seq::<String>::empty()
    &&& res.hashed_prefixes@ == Seq::<Vec<u8>>::empty()
    &&& res.child_tree == false
}

/// The full resolution contract: an explicit identifier is kept verbatim
/// (no silent substitution); otherwise the best-block hash reported by the
/// header query becomes the identifier, and a header query that reported no
/// block at all is a missing-block failure.
pub open spec fn resolve_spec(
    live: LiveState,
    block_ws_uri: String,
    latest: Option<Seq<u8>>,
    r: Result<LiveState, ReplayError>,
) -> bool {
    if live.at is Some {
        r == Ok::<LiveState, ReplayError>(live)
    } else {
        match latest {
            Some(h) => r is Ok && resolved_from_latest(r->Ok_0, block_ws_uri, h),
            None => r == Err::<LiveState, ReplayError>(ReplayError::BlockNotFound),
        }
    }
}

/// Resolves a live spec to one with an explicit baseline identifier.
/// `latest_hash` is the hash of the chain's current best block as reported
/// by a header query with no argument, or absent if that query reported
/// nothing; it is consulted only when the spec has no identifier of its own.
pub fn resolve_live(live: LiveState, block_ws_uri: String, latest_hash: Option<&Vec<u8>>) -> (r:
    Result<LiveState, ReplayError>)
    ensures
        resolve_spec(
            live,
            block_ws_uri,
            match latest_hash {
                Some(h) => Some(h@),
                None => None,
            },
            r,
        ),
{
    if live.at.is_some() {
        Ok(live)
    } else {
        match latest_hash {
            Some(h) => Ok(
                LiveState {
                    uri: block_ws_uri,
                    at: Some(hex_encoded(h)),
                    pallet: Vec::new(),
                    hashed_prefixes: Vec::new(),
                    child_tree: false,
                },
            ),
            None => Err(ReplayError::BlockNotFound),
        }
    }
}

/// Law: resolving without an explicit identifier agrees with resolving after
/// obtaining the best-block hash independently and passing it explicitly —
/// both paths settle on the same baseline identifier.
pub proof fn lemma_resolve_latest_agrees(
    live1: LiveState,
    uri1: String,
    h: Seq<u8>,
    r1: Result<LiveState, ReplayError>,
    live2: LiveState,
    uri2: String,
    latest2: Option<Seq<u8>>,
    r2: Result<LiveState, ReplayError>,
)
    requires
        live1.at is None,
        resolve_spec(live1, uri1, Some(h), r1),
        live2.at is Some,
        live2.at->0@ == spec_hex(h),
        resolve_spec(live2, uri2, latest2, r2),
    ensures
        r1 is Ok && r2 is Ok,
        r1->Ok_0.at is Some && r2->Ok_0.at is Some,
        r1->Ok_0.at->0@ == r2->Ok_0.at->0@,
{
}

} // verus!
