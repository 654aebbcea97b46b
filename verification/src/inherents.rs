//! Custom inherent data providers: polymorphic injectors of per-block
//! contextual data, registered in an inherent set under unique identifiers.
//! The para provider supplies parent-header-derived contextual data with
//! empty placeholder collections, as a pure replay needs no live backing or
//! dispute data.

use crate::block::{
    dec_header, decode_header, encode_header_into, lemma_header_round_trip, spec_encode_header,
    Header, HeaderView,
};
use crate::externalities::{kv_view, lookup, lookup_exec};
use vstd::prelude::*;

verus! {

/// The failures of the inherent set.
#[derive(Debug, Clone, PartialEq, Eq)]
pub enum InherentError {
    /// Data was already provided under this identifier; providing twice is
    /// a configuration error, never a silent overwrite.
    DataExists,
    /// The stored data could not be decoded as what was asked for.
    DecodingFailed,
}

/// The eight-byte identifier of the parachains inherent.
pub open spec fn parachains_inherent_identifier() -> Seq<u8> {
    seq![112u8, 97u8, 114u8, 97u8, 99u8, 104u8, 110u8, 48u8]
}

/// The identifier as a value.
pub fn parachains_identifier() -> (r: Vec<u8>)
    ensures
        r@ == parachains_inherent_identifier(),
{
    let mut v: Vec<u8> = Vec::new();
    v.push(112);
    v.push(97);
    v.push(114);
    v.push(97);
    v.push(99);
    v.push(104);
    v.push(110);
    v.push(48);
    assert(v@ =~= parachains_inherent_identifier());
    v
}

/// The inherent set: encoded inherent data keyed by unique identifiers.
#[derive(Debug)]
pub struct InherentData {
    entries: Vec<(Vec<u8>, Vec<u8>)>,
}

impl InherentData {
    /// The model: identifier-to-data pairs, in insertion order.
    pub closed spec fn entries_view(self) -> Seq<(Seq<u8>, Seq<u8>)> {
        kv_view(self.entries@)
    }

    /// An empty inherent set.
    pub fn new() -> (r: InherentData)
        ensures
            r.entries_view() == Seq::<(Seq<u8>, Seq<u8>)>::empty(),
    {
        let r = InherentData { entries: Vec::new() };
        assert(r.entries_view() =~= Seq::<(Seq<u8>, Seq<u8>)>::empty());
        r
    }

    /// Registers data under an identifier. Identifiers are unique within
    /// one set: providing under an occupied identifier is an error and
    /// leaves the set unchanged.
    pub fn put_data(&mut self, identifier: Vec<u8>, inherent: Vec<u8>) -> (r: Result<
        (),
        InherentError,
    >)
        ensures
            match r {
                Ok(_) => lookup(old(self).entries_view(), identifier@) is None && final(self).entries_view() == old(self).entries_view().push((identifier@, inherent@)),
                Err(e) => e == InherentError::DataExists && lookup(
                    old(self).entries_view(),
                    identifier@,
                ) is Some && final(self).entries_view() == old(self).entries_view(),
            },
    {
        if lookup_exec(&self.entries, &identifier).is_some() {
            return Err(InherentError::DataExists);
        }
        let ghost before = kv_view(self.entries@);
        let ghost idv = identifier@;
        let ghost inv = inherent@;
        self.entries.push((identifier, inherent));
        proof {
            assert(kv_view(self.entries@) =~= before.push((idv, inv)));
        }
        Ok(())
    }

    /// The raw data registered under an identifier, if any.
    pub fn get_data(&self, identifier: &Vec<u8>) -> (r: Option<Vec<u8>>)
        ensures
            (match r {
                Some(v) => Some(v@),
                None => None,
            }) == lookup(self.entries_view(), identifier@),
    {
        lookup_exec(&self.entries, identifier)
    }
}

/// The encoding of the para inherent for a pure replay: three empty
/// placeholder collections — no live backing, bitfield or dispute data is
/// synthesized — followed by the parent header.
pub open spec fn spec_para_inherent(h: HeaderView) -> Seq<u8> {
    seq![0u8, 0u8, 0u8] + spec_encode_header(h)
}

/// Decodes a para inherent back to the parent header it carries; trailing
/// bytes or non-empty placeholder collections are rejected.
pub open spec fn dec_para_inherent(s: Seq<u8>) -> Option<HeaderView> {
    if s.len() >= 3 && s[0] == 0 && s[1] == 0 && s[2] == 0 {
        match dec_header(s.skip(3)) {
            Some((h, rest)) => if rest.len() == 0 {
                Some(h)
            } else {
                None
            },
            None => None,
        }
    } else {
        None
    }
}

/// Law: extracting a para inherent that was just encoded yields the same
/// parent header back.
pub proof fn lemma_para_inherent_round_trip(h: HeaderView)
    requires
        h.wf(),
    ensures
        dec_para_inherent(spec_para_inherent(h)) == Some(h),
{
    assert(spec_para_inherent(h).skip(3) =~= spec_encode_header(h) + Seq::<u8>::empty());
    lemma_header_round_trip(h, Seq::<u8>::empty());
}

/// A provider that supplies parent-header-derived contextual data for
/// secondary-chain validation during a replay.
#[derive(Debug)]
pub struct ParaInherentDataProvider {
    parent_header: Header,
}

impl ParaInherentDataProvider {
    /// The parent header this provider injects.
    pub closed spec fn parent(self) -> HeaderView {
        self.parent_header@
    }

    pub fn new(parent_header: Header) -> (r: Self)
        ensures
            r.parent() == parent_header@,
    {
        Self { parent_header }
    }

    /// Injects the para inherent under its identifier: the encoded
    /// placeholder collections and the parent header. Providing into a set
    /// that already holds a para inherent is an error, and the set is left
    /// unchanged.
    pub fn provide_inherent_data(&self, inherent_data: &mut InherentData) -> (r: Result<
        (),
        InherentError,
    >)
        requires
            self.parent().wf(),
        ensures
            match r {
                Ok(_) => lookup(
                    old(inherent_data).entries_view(),
                    parachains_inherent_identifier(),
                ) is None && final(inherent_data).entries_view() == old(
                    inherent_data,
                ).entries_view().push(
                    (parachains_inherent_identifier(), spec_para_inherent(self.parent())),
                ),
                Err(e) => e == InherentError::DataExists && lookup(
                    old(inherent_data).entries_view(),
                    parachains_inherent_identifier(),
                ) is Some && final(inherent_data).entries_view() == old(
                    inherent_data,
                ).entries_view(),
            },
    {
        let mut para_data: Vec<u8> = Vec::new();
        para_data.push(0);
        para_data.push(0);
        para_data.push(0);
        encode_header_into(&mut para_data, &self.parent_header);
        assert(para_data@ =~= spec_para_inherent(self.parent()));
        inherent_data.put_data(parachains_identifier(), para_data)
    }

    /// This provider never reinterprets an engine-reported error: it always
    /// declines.
    pub fn try_handle_error(&self, identifier: &Vec<u8>, error: &Vec<u8>) -> (r: Option<
        Result<(), InherentError>,
    >)
        ensures
            r is None,
    {
        None
    }
}

/// Auxiliary trait to extract para inherent data from an inherent set.
pub trait ParaInherentData {
    /// The parent header the para inherent carries: absent when none was
    /// provided, a decoding failure when the stored bytes are not a para
    /// inherent.
    fn para_inherent_data(&self) -> Result<Option<Header>, InherentError>;
}

impl InherentData {
    /// The contract behind the trait method, over the set's model.
    pub fn extract_para_inherent(&self) -> (r: Result<Option<Header>, InherentError>)
        ensures
            match lookup(self.entries_view(), parachains_inherent_identifier()) {
                None => r == Ok::<Option<Header>, InherentError>(None),
                Some(bytes) => match dec_para_inherent(bytes) {
                    Some(h) => r is Ok && r->Ok_0 is Some && r->Ok_0->0@ == h,
                    None => r == Err::<Option<Header>, InherentError>(
                        InherentError::DecodingFailed,
                    ),
                },
            },
    {
        let bytes = match self.get_data(&parachains_identifier()) {
            Some(b) => b,
            None => {
                return Ok(None);
            },
        };
        if bytes.len() < 3 {
            return Err(InherentError::DecodingFailed);
        }
        if !(bytes[0] == 0 && bytes[1] == 0 && bytes[2] == 0) {
            return Err(InherentError::DecodingFailed);
        }
        let (header, p) = match decode_header(&bytes, 3) {
            Some(t) => t,
            None => {
                return Err(InherentError::DecodingFailed);
            },
        };
        if p != bytes.len() {
            return Err(InherentError::DecodingFailed);
        }
        assert(bytes@.skip(3).len() == 0 ==> dec_header(bytes@.skip(3)) is None);
        Ok(Some(header))
    }
}

impl ParaInherentData for InherentData {
    fn para_inherent_data(&self) -> Result<Option<Header>, InherentError> {
        self.extract_para_inherent()
    }
}

} // verus!
