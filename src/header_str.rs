use crate::header_slice::HeaderSlice;
use crate::order::{compare_elements, lemma_bytes_compare, seq_partial_cmp};
use crate::layout::{block_align, block_fits, block_layout, block_size, Layout, LayoutError};
use core::cmp::Ordering;
use vstd::pervasive::unreached;
use vstd::prelude::*;
use vstd::std_specs::cmp::{PartialEqSpec, PartialOrdSpec};
use vstd::string::StringSliceAdditionalSpecFns;
use vstd::utf8::{decode_utf8, encode_utf8_decode_utf8, encode_utf8_valid_utf8, valid_utf8};

verus! {

/// One block holding a length word, a header and `length` bytes of UTF-8
/// text. Built only from a `&str`, and its bytes are always valid UTF-8.
#[derive(Debug, Eq, Ord, Hash)]
pub struct HeaderStr<Header> {
    pub header: Header,
    bytes: Vec<u8>,
    length: usize,
}

/// Relies on `std::str::from_utf8`: it succeeds exactly on valid UTF-8, and
/// the text it returns borrows the same bytes.
#[verifier::external_body]
fn text_of_bytes(bytes: &[u8]) -> (r: Option<&str>)
    ensures
        r is Some <==> valid_utf8(bytes@),
        r matches Some(t) ==> t.spec_bytes() == bytes@,
{
    std::str::from_utf8(bytes).ok()
}

impl<Header> HeaderStr<Header> {
    pub closed spec fn wf(&self) -> bool {
        &&& self.length == self.bytes@.len()
        &&& block_fits::<u8, Header>(self.length as int)
        &&& valid_utf8(self.bytes@)
    }

    /// The text that the bytes encode.
    pub closed spec fn text(&self) -> Seq<char> {
        decode_utf8(self.bytes@)
    }

    pub closed spec fn header_value(&self) -> Header {
        self.header
    }

    /// The text's bytes after the header.
    pub closed spec fn payload(&self) -> Seq<u8> {
        self.bytes@
    }

    /// The length word stored at the front of the block.
    pub closed spec fn stored_len(&self) -> nat {
        self.length as nat
    }

    /// A well-formed block's length word counts its elements.
    pub proof fn lemma_wf_len(&self)
        requires
            self.wf(),
        ensures
            self.stored_len() == self.payload().len(),
            block_fits::<u8, Header>(self.stored_len() as int),
            valid_utf8(self.payload()),
    {
    }

    /// The length word stored at the front of the block.
    pub fn len(&self) -> (r: usize)
        ensures
            r == self.stored_len(),
    {
        self.length
    }

    pub fn header(&self) -> (r: &Header)
        ensures
            *r == self.header_value(),
    {
        &self.header
    }

    pub fn as_str(&self) -> (r: &str)
        requires
            self.wf(),
        ensures
            r@ == self.text(),
            r.spec_bytes() == self.payload(),
    {
        match text_of_bytes(self.bytes.as_slice()) {
            Some(t) => {
                proof {
                    encode_utf8_decode_utf8(t@);
                }
                t
            },
            None => unreached(),
        }
    }

    pub fn as_bytes(&self) -> (r: &[u8])
        ensures
            r@ == self.payload(),
    {
        self.bytes.as_slice()
    }

    /// The layout of a block with `len` bytes of text.
    pub fn layout_for(len: usize) -> (r: Result<Layout, LayoutError>)
        ensures
            r is Ok <==> block_fits::<u8, Header>(len as int),
            r matches Ok(l) ==> {
                &&& l.wf()
                &&& l.size_spec() == block_size::<u8, Header>(len as int)
                &&& l.align_spec() == block_align::<u8, Header>()
                &&& l.size_spec() % l.align_spec() == 0
            },
    {
        block_layout::<u8, Header>(len)
    }

    /// Views a byte block as text; its bytes must be valid UTF-8.
    fn cast(block: HeaderSlice<u8, Header>) -> (r: Self)
        requires
            block.wf(),
            valid_utf8(block.payload()),
        ensures
            r.wf(),
            r.stored_len() == block.stored_len(),
            r.header_value() == block.header_value(),
            r.payload() == block.payload(),
    {
        let (header, bytes) = block.into_parts();
        let length = bytes.len();
        HeaderStr { header, bytes, length }
    }

    /// Builds a block in `memory` holding `header` and a copy of the bytes of
    /// `s`.
    pub fn new_into(memory: Vec<u8>, s: &str, header: Header) -> (r: Self)
        requires
            memory@.len() == 0,
            block_fits::<u8, Header>(s.spec_bytes().len() as int),
        ensures
            r.wf(),
            r.stored_len() == s.spec_bytes().len(),
            r.header_value() == header,
            r.payload() == s.spec_bytes(),
            r.text() == s@,
    {
        proof {
            encode_utf8_valid_utf8(s@);
            encode_utf8_decode_utf8(s@);
        }
        Self::cast(HeaderSlice::<u8, Header>::copy_from_into(memory, header, s.as_bytes()))
    }

    /// Takes the block apart into its header and bytes.
    pub(crate) fn into_parts(self) -> (r: (Header, Vec<u8>))
        ensures
            r.0 == self.header_value(),
            r.1@ == self.payload(),
            self.wf() ==> self.stored_len() == r.1@.len() && block_fits::<u8, Header>(
                r.1@.len() as int,
            ) && valid_utf8(r.1@),
    {
        (self.header, self.bytes)
    }

    /// Puts a block together from a header and bytes that were taken from
    /// such a block.
    pub(crate) fn from_parts(length: usize, header: Header, bytes: Vec<u8>) -> (r: Self)
        requires
            length == bytes@.len(),
            block_fits::<u8, Header>(bytes@.len() as int),
            valid_utf8(bytes@),
        ensures
            r.wf(),
            r.stored_len() == bytes@.len(),
            r.header_value() == header,
            r.payload() == bytes@,
    {
        HeaderStr { header, bytes, length }
    }
}

impl<Header: PartialEq> PartialEq for HeaderStr<Header> {
    fn eq(&self, other: &Self) -> (r: bool) {
        let same_header = self.header == other.header;
        if !same_header {
            return false;
        }
        let same_text = self.bytes == other.bytes;
        proof {
            if same_text {
                assert(self.bytes@ =~= other.bytes@);
            }
        }
        same_text
    }
}

impl<Header: PartialEq> vstd::std_specs::cmp::PartialEqSpecImpl for HeaderStr<Header> {
    open spec fn obeys_eq_spec() -> bool {
        Header::obeys_eq_spec()
    }

    open spec fn eq_spec(&self, other: &Self) -> bool {
        self.header_value().eq_spec(&other.header_value()) && self.payload() == other.payload()
    }
}

impl<Header: PartialOrd> PartialOrd for HeaderStr<Header> {
    fn partial_cmp(&self, other: &Self) -> (r: Option<Ordering>) {
        match self.header.partial_cmp(&other.header) {
            Some(Ordering::Equal) => compare_elements(self.bytes.as_slice(), other.bytes.as_slice()),
            o => o,
        }
    }
}

impl<Header: PartialOrd> vstd::std_specs::cmp::PartialOrdSpecImpl for HeaderStr<Header> {
    open spec fn obeys_partial_cmp_spec() -> bool {
        Header::obeys_partial_cmp_spec()
    }

    open spec fn partial_cmp_spec(&self, other: &Self) -> Option<Ordering> {
        match self.header_value().partial_cmp_spec(&other.header_value()) {
            Some(Ordering::Equal) => seq_partial_cmp(self.payload(), other.payload()),
            o => o,
        }
    }
}

/// Text blocks compare as the pair (header, bytes): equal headers and equal
/// bytes make equal blocks, a smaller header makes a smaller block whatever
/// the text, and equal headers leave the decision to the bytes.
pub proof fn lemma_header_str_order<Header: PartialOrd>(a: HeaderStr<Header>, b: HeaderStr<Header>)
    ensures
        Header::obeys_eq_spec() ==> HeaderStr::<Header>::obeys_eq_spec(),
        Header::obeys_partial_cmp_spec() ==> HeaderStr::<Header>::obeys_partial_cmp_spec(),
        a.header_value().partial_cmp_spec(&b.header_value()) == Some(Ordering::Equal)
            ==> a.partial_cmp_spec(&b) is Some,
        a.header_value().eq_spec(&b.header_value()) && a.payload() == b.payload() ==> a.eq_spec(
            &b,
        ),
        a.header_value().partial_cmp_spec(&b.header_value()) == Some(Ordering::Less)
            ==> a.partial_cmp_spec(&b) == Some(Ordering::Less),
        a.header_value().partial_cmp_spec(&b.header_value()) == Some(Ordering::Greater)
            ==> a.partial_cmp_spec(&b) == Some(Ordering::Greater),
        a.header_value().partial_cmp_spec(&b.header_value()) == Some(Ordering::Equal)
            ==> a.partial_cmp_spec(&b) == seq_partial_cmp(a.payload(), b.payload()),
{
    lemma_bytes_compare(a.payload(), b.payload());
}

} // verus!
