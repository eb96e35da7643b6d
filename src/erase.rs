use crate::header_slice::HeaderSlice;
use crate::header_str::HeaderStr;
use crate::layout::block_fits;
use vstd::prelude::*;
use vstd::utf8::valid_utf8;

verus! {

/// A block of elements reached through a one-word handle. The handle carries
/// no length: the length word at the front of the block is the only record of
/// how many elements follow the header.
pub struct ErasedHeaderSlice<T, Header> {
    length: usize,
    header: Header,
    region: Vec<T>,
}

/// A block of text reached through a one-word handle; see
/// [`ErasedHeaderSlice`].
pub struct ErasedHeaderStr<Header> {
    length: usize,
    header: Header,
    region: Vec<u8>,
}

impl<T, Header> ErasedHeaderSlice<T, Header> {
    /// The length word is accurate, and the block's layout for it fits.
    pub closed spec fn wf(&self) -> bool {
        self.length == self.region@.len() && block_fits::<T, Header>(self.length as int)
    }

    /// The length word stored at the front of the block.
    pub closed spec fn stored_word(&self) -> nat {
        self.length as nat
    }

    pub closed spec fn header_value(&self) -> Header {
        self.header
    }

    /// The elements that follow the header.
    pub closed spec fn region(&self) -> Seq<T> {
        self.region@
    }
}

impl<Header> ErasedHeaderStr<Header> {
    /// The length word is accurate, the block's layout for it fits, and the
    /// bytes are valid UTF-8.
    pub closed spec fn wf(&self) -> bool {
        &&& self.length == self.region@.len()
        &&& block_fits::<u8, Header>(self.length as int)
        &&& valid_utf8(self.region@)
    }

    /// The length word stored at the front of the block.
    pub closed spec fn stored_word(&self) -> nat {
        self.length as nat
    }

    pub closed spec fn header_value(&self) -> Header {
        self.header
    }

    /// The bytes that follow the header.
    pub closed spec fn region(&self) -> Seq<u8> {
        self.region@
    }
}

impl<T, Header> HeaderSlice<T, Header> {
    /// Drops the length from the handle; the block keeps its length word.
    pub fn erase(self) -> (r: ErasedHeaderSlice<T, Header>)
        requires
            self.wf(),
        ensures
            r.wf(),
            r.stored_word() == self.stored_len(),
            r.header_value() == self.header_value(),
            r.region() == self.payload(),
    {
        let length = self.len();
        let (header, region) = self.into_parts();
        ErasedHeaderSlice { length, header, region }
    }

    /// Recovers the full handle, whose length is the block's length word.
    pub fn unerase(this: ErasedHeaderSlice<T, Header>) -> (r: Self)
        requires
            this.wf(),
        ensures
            r.wf(),
            r.stored_len() == this.stored_word(),
            r.header_value() == this.header_value(),
            r.payload() == this.region(),
    {
        let ErasedHeaderSlice { length, header, region } = this;
        HeaderSlice::from_parts(length, header, region)
    }
}

impl<Header> HeaderStr<Header> {
    /// Drops the length from the handle; the block keeps its length word.
    pub fn erase(self) -> (r: ErasedHeaderStr<Header>)
        requires
            self.wf(),
        ensures
            r.wf(),
            r.stored_word() == self.stored_len(),
            r.header_value() == self.header_value(),
            r.region() == self.payload(),
    {
        let length = self.len();
        let (header, region) = self.into_parts();
        ErasedHeaderStr { length, header, region }
    }

    /// Recovers the full handle, whose length is the block's length word.
    pub fn unerase(this: ErasedHeaderStr<Header>) -> (r: Self)
        requires
            this.wf(),
        ensures
            r.wf(),
            r.stored_len() == this.stored_word(),
            r.header_value() == this.header_value(),
            r.payload() == this.region(),
    {
        let ErasedHeaderStr { length, header, region } = this;
        HeaderStr::from_parts(length, header, region)
    }
}

/// Erasing a block's handle and recovering it gives back a handle with the
/// same length, header and elements, for every length.
pub proof fn lemma_erase_round_trip<T, Header>(
    h: HeaderSlice<T, Header>,
    e: ErasedHeaderSlice<T, Header>,
    back: HeaderSlice<T, Header>,
)
    requires
        h.wf(),
        e.stored_word() == h.stored_len(),
        e.header_value() == h.header_value(),
        e.region() == h.payload(),
        back.stored_len() == e.stored_word(),
        back.header_value() == e.header_value(),
        back.payload() == e.region(),
    ensures
        back.stored_len() == h.stored_len(),
        back.header_value() == h.header_value(),
        back.payload() == h.payload(),
        back.payload().len() == back.stored_len(),
{
    h.lemma_wf_len();
}

/// Erasing a text block's handle and recovering it gives back a handle with
/// the same length, header and bytes, for every length.
pub proof fn lemma_erase_round_trip_str<Header>(
    h: HeaderStr<Header>,
    e: ErasedHeaderStr<Header>,
    back: HeaderStr<Header>,
)
    requires
        h.wf(),
        e.stored_word() == h.stored_len(),
        e.header_value() == h.header_value(),
        e.region() == h.payload(),
        back.stored_len() == e.stored_word(),
        back.header_value() == e.header_value(),
        back.payload() == e.region(),
    ensures
        back.stored_len() == h.stored_len(),
        back.header_value() == h.header_value(),
        back.payload() == h.payload(),
        back.payload().len() == back.stored_len(),
{
    h.lemma_wf_len();
}

} // verus!
