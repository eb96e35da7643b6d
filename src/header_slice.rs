use crate::layout::{block_align, block_fits, block_layout, block_size, Layout, LayoutError};
use crate::order::{compare_elements, seq_eq, seq_partial_cmp};
use crate::writer::SliceWriter;
use core::cmp::Ordering;
use vstd::pervasive::{cloned, unreached};
use vstd::prelude::*;
use vstd::std_specs::cmp::{PartialEqSpec, PartialOrdSpec};

verus! {

/// One block holding a length word, a header and `length` elements.
///
/// The stored length always equals the number of elements, and the block's
/// layout for that length can be described without overflow.
#[derive(Debug, Eq, Ord, Hash)]
pub struct HeaderSlice<T, Header> {
    pub header: Header,
    slice: Vec<T>,
    length: usize,
}

/// A construction that ran out of elements: the elements written so far, the
/// header that was to be stored, and the length that was asked for.
pub struct HeaderSliceInitError<T, Header> {
    data: Vec<T>,
    pub header: Header,
    length: usize,
    expected_length: usize,
}

/// Why an allocating constructor failed. Each variant hands the header back.
pub enum TryNewError<Header> {
    /// The block's layout overflows the address space.
    LayoutTooLarge(Header),
    /// The source yielded fewer elements than it announced; those it did
    /// yield have been dropped.
    NotEnoughItems(Header),
    /// The allocator refused the block of the given layout.
    AllocError(Header, Layout),
}

impl<T, Header> HeaderSliceInitError<T, Header> {
    pub closed spec fn wf(&self) -> bool {
        self.length == self.data@.len() && self.length < self.expected_length
    }

    /// The header value.
    pub closed spec fn header_value(&self) -> Header {
        self.header
    }

    /// The elements written before the source ran out.
    pub closed spec fn written(&self) -> Seq<T> {
        self.data@
    }

    pub closed spec fn expected(&self) -> nat {
        self.expected_length as nat
    }

    pub fn written_len(&self) -> (r: usize)
        ensures
            r == self.written().len(),
    {
        self.data.len()
    }

    pub fn expected_length(&self) -> (r: usize)
        ensures
            r == self.expected(),
    {
        self.expected_length
    }

    /// Hands the written elements and the header to the caller.
    pub fn take_ownership(self) -> (r: (Vec<T>, Header))
        ensures
            r.0@ == self.written(),
            r.1 == self.header_value(),
    {
        (self.data, self.header)
    }

    /// Drops each written element once and returns the header.
    pub fn drop_in_place(self) -> (r: Header)
        ensures
            r == self.header_value(),
    {
        // The written elements are dropped when `_data` leaves scope.
        let HeaderSliceInitError { data: _data, header, .. } = self;
        header
    }
}

impl TryNewError<()> {
    /// The same failure, carrying `header`.
    pub fn with_header<Header>(self, header: Header) -> (r: TryNewError<Header>)
        ensures
            self is LayoutTooLarge <==> r == TryNewError::LayoutTooLarge(header),
            self is NotEnoughItems <==> r == TryNewError::NotEnoughItems(header),
            self matches TryNewError::AllocError(_, l) ==> r == TryNewError::AllocError(header, l),
            self is AllocError <==> r is AllocError,
    {
        match self {
            TryNewError::LayoutTooLarge(()) => TryNewError::LayoutTooLarge(header),
            TryNewError::NotEnoughItems(()) => TryNewError::NotEnoughItems(header),
            TryNewError::AllocError((), layout) => TryNewError::AllocError(header, layout),
        }
    }
}

/// Reserves room for the `len` payload elements of a block, after checking
/// that the block's layout can be described. An allocator failure reports
/// that layout.
fn allocate_payload<T, Header>(len: usize) -> (r: Result<Vec<T>, TryNewError<()>>)
    ensures
        r is Err && r->Err_0 is LayoutTooLarge <==> !block_fits::<T, Header>(len as int),
        r matches Ok(v) ==> v@.len() == 0 && block_fits::<T, Header>(len as int),
        r matches Err(TryNewError::AllocError(_, l)) ==> {
            &&& block_fits::<T, Header>(len as int)
            &&& l.size_spec() == block_size::<T, Header>(len as int)
            &&& l.align_spec() == block_align::<T, Header>()
        },
        !(r matches Err(TryNewError::NotEnoughItems(_))),
{
    let layout = match block_layout::<T, Header>(len) {
        Ok(layout) => layout,
        Err(_) => {
            return Err(TryNewError::LayoutTooLarge(()));
        },
    };
    let mut memory: Vec<T> = Vec::new();
    match memory.try_reserve(len) {
        Ok(()) => Ok(memory),
        Err(_) => Err(TryNewError::AllocError((), layout)),
    }
}

impl<T, Header> HeaderSlice<T, Header> {
    pub closed spec fn wf(&self) -> bool {
        self.length == self.slice@.len() && block_fits::<T, Header>(self.length as int)
    }

    /// The header value.
    pub closed spec fn header_value(&self) -> Header {
        self.header
    }

    /// The elements after the header.
    pub closed spec fn payload(&self) -> Seq<T> {
        self.slice@
    }

    /// The length word stored at the front of the block.
    pub closed spec fn stored_len(&self) -> nat {
        self.length as nat
    }

    /// A well-formed block's length word counts its elements.
    pub proof fn lemma_wf_len(&self)
        requires
            self.wf(),
        ensures
            self.stored_len() == self.payload().len(),
            block_fits::<T, Header>(self.stored_len() as int),
    {
    }

    /// The length word stored at the front of the block.
    pub fn len(&self) -> (r: usize)
        ensures
            r == self.stored_len(),
    {
        self.length
    }

    pub fn header(&self) -> (r: &Header)
        ensures
            *r == self.header_value(),
    {
        &self.header
    }

    pub fn slice(&self) -> (r: &[T])
        ensures
            r@ == self.payload(),
    {
        self.slice.as_slice()
    }

    /// Replaces the element at `i` with `value`.
    pub fn set(&mut self, i: usize, value: T)
        requires
            old(self).wf(),
            i < old(self).stored_len(),
        ensures
            final(self).wf(),
            final(self).stored_len() == old(self).stored_len(),
            final(self).header_value() == old(self).header_value(),
            final(self).payload() == old(self).payload().update(i as int, value),
    {
        self.slice.set(i, value);
    }

    /// Takes the block apart into its header and elements.
    pub(crate) fn into_parts(self) -> (r: (Header, Vec<T>))
        ensures
            r.0 == self.header_value(),
            r.1@ == self.payload(),
            self.wf() ==> self.stored_len() == r.1@.len() && block_fits::<T, Header>(
                r.1@.len() as int,
            ),
    {
        (self.header, self.slice)
    }

    /// Puts a block together from its parts.
    pub(crate) fn from_parts(length: usize, header: Header, slice: Vec<T>) -> (r: Self)
        requires
            length == slice@.len(),
            block_fits::<T, Header>(slice@.len() as int),
        ensures
            r.wf(),
            r.stored_len() == slice@.len(),
            r.header_value() == header,
            r.payload() == slice@,
    {
        HeaderSlice { header, slice, length }
    }

    /// The layout of a block with `len` elements.
    pub fn layout_for(len: usize) -> (r: Result<Layout, LayoutError>)
        ensures
            r is Ok <==> block_fits::<T, Header>(len as int),
            r matches Ok(l) ==> {
                &&& l.wf()
                &&& l.size_spec() == block_size::<T, Header>(len as int)
                &&& l.align_spec() == block_align::<T, Header>()
                &&& l.size_spec() % l.align_spec() == 0
            },
    {
        block_layout::<T, Header>(len)
    }

    /// Builds a block in `memory` from the first `length` elements that
    /// `iter` yields. Where it yields fewer, the elements written so far come
    /// back in the error with the header.
    pub fn new_into(memory: Vec<T>, length: usize, header: Header, iter: Vec<T>) -> (r: Result<
        Self,
        HeaderSliceInitError<T, Header>,
    >)
        requires
            memory@.len() == 0,
            block_fits::<T, Header>(length as int),
        ensures
            r is Ok <==> iter@.len() >= length,
            r matches Ok(h) ==> {
                &&& h.wf()
                &&& h.stored_len() == length
                &&& h.header_value() == header
                &&& h.payload() == iter@.subrange(0, length as int)
            },
            r matches Err(e) ==> {
                &&& e.wf()
                &&& e.written() == iter@
                &&& e.header_value() == header
                &&& e.expected() == length
            },
    {
        let mut source = iter;
        source.truncate(length);
        let ghost taken = source@;
        let n: usize = source.len();
        // Reverse the source so that popping yields its elements in order.
        let mut pending: Vec<T> = Vec::new();
        while source.len() > 0
            invariant
                source@ == taken.subrange(0, source@.len() as int),
                pending@.len() + source@.len() == n,
                n == taken.len(),
                forall|i: int| 0 <= i < pending@.len() ==> pending@[i] == taken[n - 1 - i],
            decreases source@.len(),
        {
            let value = source.pop().unwrap();
            pending.push(value);
        }
        let mut writer = SliceWriter::new(memory, length);
        while pending.len() > 0
            invariant
                writer.wf(),
                writer.max() == length,
                n <= length,
                n == taken.len(),
                pending@.len() + writer.written().len() == n,
                writer.written() == taken.subrange(0, writer.written().len() as int),
                forall|i: int| 0 <= i < pending@.len() ==> pending@[i] == taken[n - 1 - i],
            decreases pending@.len(),
        {
            let value = pending.pop().unwrap();
            proof {
                assert(value == taken[writer.written().len() as int]);
                assert(taken.subrange(0, writer.written().len() + 1int) =~= writer.written().push(
                    value,
                ));
            }
            writer.write(value);
        }
        let written_len = writer.len();
        let data = writer.finish();
        proof {
            assert(data@ =~= taken);
            assert(iter@.len() < length ==> taken =~= iter@);
        }
        if written_len == length {
            Ok(HeaderSlice { header, slice: data, length })
        } else {
            Err(HeaderSliceInitError { data, header, length: written_len, expected_length: length })
        }
    }

    /// Builds a block in `memory` holding a clone of each element of `slice`.
    pub fn clone_from_into(memory: Vec<T>, header: Header, slice: &[T]) -> (r: Self) where
        T: Clone,

        requires
            memory@.len() == 0,
            block_fits::<T, Header>(slice@.len() as int),
        ensures
            r.wf(),
            r.stored_len() == slice@.len(),
            r.header_value() == header,
            r.payload().len() == slice@.len(),
            forall|i: int| 0 <= i < slice@.len() ==> cloned(slice@[i], #[trigger] r.payload()[i]),
    {
        let mut clones: Vec<T> = Vec::with_capacity(slice.len());
        let mut i: usize = 0;
        while i < slice.len()
            invariant
                i <= slice@.len(),
                clones@.len() == i,
                forall|j: int| 0 <= j < i ==> cloned(slice@[j], #[trigger] clones@[j]),
            decreases slice@.len() - i,
        {
            let c = slice[i].clone();
            clones.push(c);
            i = i + 1;
        }
        match Self::new_into(memory, slice.len(), header, clones) {
            Ok(h) => {
                assert(clones@.subrange(0, slice@.len() as int) =~= clones@);
                h
            },
            Err(_) => unreached(),
        }
    }

    /// Builds a block in `memory` holding a bitwise copy of `slice`.
    pub fn copy_from_into(memory: Vec<T>, header: Header, slice: &[T]) -> (r: Self) where
        T: Copy,

        requires
            memory@.len() == 0,
            block_fits::<T, Header>(slice@.len() as int),
        ensures
            r.wf(),
            r.stored_len() == slice@.len(),
            r.header_value() == header,
            r.payload() == slice@,
    {
        let mut data = memory;
        let mut i: usize = 0;
        while i < slice.len()
            invariant
                i <= slice@.len(),
                data@ == slice@.subrange(0, i as int),
            decreases slice@.len() - i,
        {
            data.push(slice[i]);
            i = i + 1;
            assert(data@ =~= slice@.subrange(0, i as int));
        }
        assert(data@ =~= slice@);
        HeaderSlice { header, slice: data, length: slice.len() }
    }

    /// Allocates a block for the `len` elements that a source announces and
    /// fills it from `iter`, what the source actually yields.
    pub fn try_new(header: Header, len: usize, iter: Vec<T>) -> (r: Result<Self, TryNewError<Header>>)
        ensures
            r matches Err(TryNewError::LayoutTooLarge(h)) ==> h == header,
            r == Err::<Self, _>(TryNewError::LayoutTooLarge(header)) <==> !block_fits::<
                T,
                Header,
            >(len as int),
            r matches Err(TryNewError::AllocError(h, l)) ==> {
                &&& h == header
                &&& block_fits::<T, Header>(len as int)
                &&& l.size_spec() == block_size::<T, Header>(len as int)
                &&& l.align_spec() == block_align::<T, Header>()
            },
            r matches Err(TryNewError::NotEnoughItems(h)) ==> h == header,
            block_fits::<T, Header>(len as int) && !(r matches Err(TryNewError::AllocError(_, _)))
                ==> (r is Ok <==> iter@.len() >= len),
            r matches Ok(h) ==> {
                &&& h.wf()
                &&& h.stored_len() == len
                &&& h.header_value() == header
                &&& h.payload() == iter@.subrange(0, len as int)
            },
    {
        let memory = match allocate_payload::<T, Header>(len) {
            Ok(memory) => memory,
            Err(err) => {
                return Err(err.with_header(header));
            },
        };
        match Self::new_into(memory, len, header, iter) {
            Ok(h) => Ok(h),
            Err(err) => Err(TryNewError::NotEnoughItems(err.drop_in_place())),
        }
    }

    /// Allocates a block holding `header` and a clone of each element of
    /// `slice`. The source is exact, so it never runs short.
    pub fn try_clone_from(header: Header, slice: &[T]) -> (r: Result<Self, TryNewError<Header>>) where
        T: Clone,

        ensures
            r matches Err(TryNewError::LayoutTooLarge(h)) ==> h == header,
            r == Err::<Self, _>(TryNewError::LayoutTooLarge(header)) <==> !block_fits::<
                T,
                Header,
            >(slice@.len() as int),
            r matches Err(TryNewError::AllocError(h, l)) ==> {
                &&& h == header
                &&& block_fits::<T, Header>(slice@.len() as int)
                &&& l.size_spec() == block_size::<T, Header>(slice@.len() as int)
                &&& l.align_spec() == block_align::<T, Header>()
            },
            !(r matches Err(TryNewError::NotEnoughItems(_))),
            r matches Ok(h) ==> {
                &&& h.wf()
                &&& h.stored_len() == slice@.len()
                &&& h.header_value() == header
                &&& h.payload().len() == slice@.len()
                &&& forall|i: int|
                    0 <= i < slice@.len() ==> cloned(slice@[i], #[trigger] h.payload()[i])
            },
    {
        let memory = match allocate_payload::<T, Header>(slice.len()) {
            Ok(memory) => memory,
            Err(err) => {
                return Err(err.with_header(header));
            },
        };
        Ok(Self::clone_from_into(memory, header, slice))
    }

    /// Allocates a block holding `header` and a bitwise copy of `slice`. The
    /// source is exact, so it never runs short.
    pub fn try_copy_from(header: Header, slice: &[T]) -> (r: Result<Self, TryNewError<Header>>) where
        T: Copy,

        ensures
            r matches Err(TryNewError::LayoutTooLarge(h)) ==> h == header,
            r == Err::<Self, _>(TryNewError::LayoutTooLarge(header)) <==> !block_fits::<
                T,
                Header,
            >(slice@.len() as int),
            r matches Err(TryNewError::AllocError(h, l)) ==> {
                &&& h == header
                &&& block_fits::<T, Header>(slice@.len() as int)
                &&& l.size_spec() == block_size::<T, Header>(slice@.len() as int)
                &&& l.align_spec() == block_align::<T, Header>()
            },
            !(r matches Err(TryNewError::NotEnoughItems(_))),
            r matches Ok(h) ==> {
                &&& h.wf()
                &&& h.stored_len() == slice@.len()
                &&& h.header_value() == header
                &&& h.payload() == slice@
            },
    {
        let memory = match allocate_payload::<T, Header>(slice.len()) {
            Ok(memory) => memory,
            Err(err) => {
                return Err(err.with_header(header));
            },
        };
        Ok(Self::copy_from_into(memory, header, slice))
    }

    /// Allocates and fills a block from the first `len` elements of `iter`.
    /// An allocation failure takes the platform's out-of-memory path.
    pub fn new(header: Header, len: usize, iter: Vec<T>) -> (r: Self)
        requires
            block_fits::<T, Header>(len as int),
            iter@.len() >= len,
        ensures
            r.wf(),
            r.stored_len() == len,
            r.header_value() == header,
            r.payload() == iter@.subrange(0, len as int),
    {
        let memory: Vec<T> = Vec::with_capacity(len);
        match Self::new_into(memory, len, header, iter) {
            Ok(h) => h,
            Err(_) => unreached(),
        }
    }

    /// Allocates a block holding `header` and a clone of each element of
    /// `slice`. An allocation failure takes the platform's out-of-memory path.
    pub fn clone_from(header: Header, slice: &[T]) -> (r: Self) where
        T: Clone,

        requires
            block_fits::<T, Header>(slice@.len() as int),
        ensures
            r.wf(),
            r.stored_len() == slice@.len(),
            r.header_value() == header,
            r.payload().len() == slice@.len(),
            forall|i: int| 0 <= i < slice@.len() ==> cloned(slice@[i], #[trigger] r.payload()[i]),
    {
        let memory: Vec<T> = Vec::with_capacity(slice.len());
        Self::clone_from_into(memory, header, slice)
    }

    /// Allocates a block holding `header` and a bitwise copy of `slice`. An
    /// allocation failure takes the platform's out-of-memory path.
    pub fn copy_from(header: Header, slice: &[T]) -> (r: Self) where
        T: Copy,

        requires
            block_fits::<T, Header>(slice@.len() as int),
        ensures
            r.wf(),
            r.stored_len() == slice@.len(),
            r.header_value() == header,
            r.payload() == slice@,
    {
        let memory: Vec<T> = Vec::with_capacity(slice.len());
        Self::copy_from_into(memory, header, slice)
    }
}

impl<T: PartialEq, Header: PartialEq> PartialEq for HeaderSlice<T, Header> {
    fn eq(&self, other: &Self) -> (r: bool) {
        let same_header = self.header == other.header;
        if !same_header {
            return false;
        }
        let same_payload = self.slice == other.slice;
        proof {
            if T::obeys_eq_spec() {
                assert(same_payload == seq_eq(self.slice@, other.slice@));
            }
        }
        same_payload
    }
}

impl<T: PartialEq, Header: PartialEq> vstd::std_specs::cmp::PartialEqSpecImpl for HeaderSlice<T, Header> {
    open spec fn obeys_eq_spec() -> bool {
        Header::obeys_eq_spec() && T::obeys_eq_spec()
    }

    open spec fn eq_spec(&self, other: &Self) -> bool {
        self.header_value().eq_spec(&other.header_value()) && seq_eq(
            self.payload(),
            other.payload(),
        )
    }
}

impl<T: PartialOrd, Header: PartialOrd> PartialOrd for HeaderSlice<T, Header> {
    fn partial_cmp(&self, other: &Self) -> (r: Option<Ordering>) {
        match self.header.partial_cmp(&other.header) {
            Some(Ordering::Equal) => compare_elements(self.slice.as_slice(), other.slice.as_slice()),
            o => o,
        }
    }
}

impl<T: PartialOrd, Header: PartialOrd> vstd::std_specs::cmp::PartialOrdSpecImpl for HeaderSlice<T, Header> {
    open spec fn obeys_partial_cmp_spec() -> bool {
        Header::obeys_partial_cmp_spec() && T::obeys_partial_cmp_spec()
    }

    open spec fn partial_cmp_spec(&self, other: &Self) -> Option<Ordering> {
        match self.header_value().partial_cmp_spec(&other.header_value()) {
            Some(Ordering::Equal) => seq_partial_cmp(self.payload(), other.payload()),
            o => o,
        }
    }
}

/// Blocks compare as the pair (header, payload): equal headers and equal
/// payloads make equal blocks, a smaller header makes a smaller block whatever
/// the payloads, and equal headers leave the decision to the payloads.
pub proof fn lemma_header_slice_order<T: PartialOrd, Header: PartialOrd>(
    a: HeaderSlice<T, Header>,
    b: HeaderSlice<T, Header>,
)
    ensures
        Header::obeys_eq_spec() && T::obeys_eq_spec() ==> HeaderSlice::<
            T,
            Header,
        >::obeys_eq_spec(),
        Header::obeys_partial_cmp_spec() && T::obeys_partial_cmp_spec() ==> HeaderSlice::<
            T,
            Header,
        >::obeys_partial_cmp_spec(),
        a.header_value().eq_spec(&b.header_value()) && seq_eq(a.payload(), b.payload())
            ==> a.eq_spec(&b),
        a.header_value().partial_cmp_spec(&b.header_value()) == Some(Ordering::Less)
            ==> a.partial_cmp_spec(&b) == Some(Ordering::Less),
        a.header_value().partial_cmp_spec(&b.header_value()) == Some(Ordering::Greater)
            ==> a.partial_cmp_spec(&b) == Some(Ordering::Greater),
        a.header_value().partial_cmp_spec(&b.header_value()) == Some(Ordering::Equal)
            ==> a.partial_cmp_spec(&b) == seq_partial_cmp(a.payload(), b.payload()),
{
}

} // verus!
