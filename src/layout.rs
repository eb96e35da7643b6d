use vstd::layout::{align_of, layout_for_type_is_valid, size_of};
use vstd::prelude::*;

verus! {

/// The largest size that a region of alignment `align` may have: the largest
/// multiple of `align` that is at most `isize::MAX`.
pub open spec fn max_size(align: int) -> int {
    isize::MAX as int - (isize::MAX as int % align)
}

/// `x` rounded up to the next multiple of `align`.
pub open spec fn round_up(x: int, align: int) -> int {
    if x % align == 0 {
        x
    } else {
        x + (align - x % align)
    }
}

pub open spec fn max_align(a: int, b: int) -> int {
    if a >= b {
        a
    } else {
        b
    }
}

/// Offset of the header: the length word extended by the header's alignment.
pub open spec fn header_offset<Header>() -> int {
    round_up(size_of::<usize>() as int, align_of::<Header>() as int)
}

/// The `{length, Header}` prefix: its size and its alignment.
pub open spec fn prefix_size<Header>() -> int {
    header_offset::<Header>() + size_of::<Header>()
}

pub open spec fn prefix_align<Header>() -> int {
    max_align(align_of::<usize>() as int, align_of::<Header>() as int)
}

/// Offset of the payload: the `{length, Header}` prefix padded to the
/// alignment of `T`.
pub open spec fn payload_offset<T, Header>() -> int {
    round_up(prefix_size::<Header>(), align_of::<T>() as int)
}

/// Alignment of the whole `{length, Header, [T]}` block.
pub open spec fn block_align<T, Header>() -> int {
    max_align(prefix_align::<Header>(), align_of::<T>() as int)
}

/// Size of the block before the final padding, for `n` elements.
pub open spec fn unpadded_size<T, Header>(n: int) -> int {
    payload_offset::<T, Header>() + n * size_of::<T>()
}

/// Whether the block for `n` elements can be described without overflow.
pub open spec fn block_fits<T, Header>(n: int) -> bool {
    &&& n * size_of::<T>() <= max_size(align_of::<T>() as int)
    &&& prefix_size::<Header>() <= max_size(prefix_align::<Header>())
    &&& unpadded_size::<T, Header>(n) <= max_size(block_align::<T, Header>())
}

/// Size of the whole block for `n` elements, padded to its alignment.
pub open spec fn block_size<T, Header>(n: int) -> int {
    round_up(unpadded_size::<T, Header>(n), block_align::<T, Header>())
}

/// Rounding up yields a multiple of the alignment, no smaller than the input
/// and less than one alignment above it.
pub proof fn lemma_round_up(x: int, align: int)
    requires
        x >= 0,
        align > 0,
    ensures
        round_up(x, align) % align == 0,
        x <= round_up(x, align) < x + align,
{
    let q = x / align;
    let r = x % align;
    assert(x == align * q + r) by (nonlinear_arith)
        requires
            align > 0,
            q == x / align,
            r == x % align,
    ;
    assert(0 <= r < align) by (nonlinear_arith)
        requires
            align > 0,
            r == x % align,
    ;
    if r != 0 {
        assert((align * (q + 1)) % align == 0) by (nonlinear_arith)
            requires
                align > 0,
        ;
        assert(align * (q + 1) == align * q + align) by (nonlinear_arith);
        assert(round_up(x, align) == align * (q + 1));
    }
}

/// Rounding up never passes a multiple of the alignment that lies at or
/// above the input.
pub proof fn lemma_round_up_below(x: int, align: int, k: int)
    requires
        x >= 0,
        align > 0,
        x <= k,
        k % align == 0,
    ensures
        round_up(x, align) <= k,
{
    lemma_round_up(x, align);
    let q = x / align;
    let m = k / align;
    assert(x == align * q + x % align && k == align * m) by (nonlinear_arith)
        requires
            align > 0,
            q == x / align,
            m == k / align,
            k % align == 0,
    ;
    if x % align != 0 {
        assert(0 < x % align < align) by (nonlinear_arith)
            requires
                align > 0,
                x % align != 0,
        ;
        assert(m >= q + 1) by (nonlinear_arith)
            requires
                align > 0,
                align * q < x,
                x <= align * m,
        ;
        assert(align * m >= align * q + align) by (nonlinear_arith)
            requires
                align > 0,
                m >= q + 1,
        ;
        assert(round_up(x, align) == align * q + align);
    }
}

proof fn lemma_max_size(align: int)
    requires
        align > 0,
    ensures
        max_size(align) % align == 0,
        0 <= max_size(align) <= isize::MAX,
{
    let m = isize::MAX as int;
    let q = m / align;
    assert(m == align * q + m % align && 0 <= m % align) by (nonlinear_arith)
        requires
            align > 0,
            q == m / align,
    ;
    assert((align * q) % align == 0) by (nonlinear_arith)
        requires
            align > 0,
    ;
}

/// A size and alignment that a region of memory must satisfy.
pub struct Layout {
    size: usize,
    align: usize,
}

/// The size of a requested layout does not fit the address space.
#[derive(Debug, Clone, Copy, PartialEq, Eq, Structural)]
pub struct LayoutError;

impl Layout {
    pub closed spec fn size_spec(&self) -> int {
        self.size as int
    }

    pub closed spec fn align_spec(&self) -> int {
        self.align as int
    }

    /// A nonzero alignment, and a size that stays at most `isize::MAX` when
    /// padded to it.
    pub closed spec fn wf(&self) -> bool {
        self.align > 0 && self.size <= max_size(self.align as int)
    }

    pub fn size(&self) -> (r: usize)
        ensures
            r == self.size_spec(),
    {
        self.size
    }

    pub fn align(&self) -> (r: usize)
        ensures
            r == self.align_spec(),
    {
        self.align
    }

    /// Largest size that a layout of this alignment admits.
    fn max_size_for(align: usize) -> (r: usize)
        requires
            align > 0,
        ensures
            r == max_size(align as int),
    {
        let m: usize = isize::MAX as usize;
        proof {
            assert(m % align <= m) by (nonlinear_arith)
                requires
                    align > 0,
            ;
        }
        m - m % align
    }

    /// The layout of one value of type `V`.
    pub fn new_of<V>() -> (r: Layout)
        ensures
            r.wf(),
            r.size_spec() == size_of::<V>(),
            r.align_spec() == align_of::<V>(),
    {
        layout_for_type_is_valid::<V>();
        Layout { size: core::mem::size_of::<V>(), align: core::mem::align_of::<V>() }
    }

    /// The layout of `n` consecutive values of type `V`.
    pub fn array<V>(n: usize) -> (r: Result<Layout, LayoutError>)
        ensures
            r is Ok <==> n * size_of::<V>() <= max_size(align_of::<V>() as int),
            r matches Ok(l) ==> l.wf() && l.size_spec() == n * size_of::<V>() && l.align_spec()
                == align_of::<V>(),
    {
        layout_for_type_is_valid::<V>();
        let size = core::mem::size_of::<V>();
        let align = core::mem::align_of::<V>();
        match n.checked_mul(size) {
            None => {
                proof {
                    lemma_max_size(align as int);
                }
                Err(LayoutError)
            },
            Some(total) => {
                if total <= Self::max_size_for(align) {
                    Ok(Layout { size: total, align })
                } else {
                    Err(LayoutError)
                }
            },
        }
    }

    /// This layout followed by `next` at `next`'s alignment: the combined
    /// layout and the offset at which `next` starts.
    pub fn extend(&self, next: &Layout) -> (r: Result<(Layout, usize), LayoutError>)
        requires
            self.wf(),
            next.wf(),
        ensures
            r is Ok <==> round_up(self.size_spec(), next.align_spec()) + next.size_spec()
                <= max_size(max_align(self.align_spec(), next.align_spec())),
            r matches Ok((l, off)) ==> {
                &&& l.wf()
                &&& off == round_up(self.size_spec(), next.align_spec())
                &&& l.size_spec() == off + next.size_spec()
                &&& l.align_spec() == max_align(self.align_spec(), next.align_spec())
            },
    {
        let new_align = if self.align >= next.align {
            self.align
        } else {
            next.align
        };
        proof {
            lemma_max_size(new_align as int);
            lemma_round_up(self.size as int, next.align as int);
        }
        let rem = self.size % next.align;
        let pad = if rem == 0 {
            0
        } else {
            next.align - rem
        };
        let offset = match self.size.checked_add(pad) {
            Some(o) => o,
            None => {
                return Err(LayoutError);
            },
        };
        let new_size = match offset.checked_add(next.size) {
            Some(s) => s,
            None => {
                return Err(LayoutError);
            },
        };
        if new_size <= Self::max_size_for(new_align) {
            Ok((Layout { size: new_size, align: new_align }, offset))
        } else {
            Err(LayoutError)
        }
    }

    /// This layout with its size rounded up to a multiple of its alignment.
    pub fn pad_to_align(&self) -> (r: Layout)
        requires
            self.wf(),
        ensures
            r.wf(),
            r.size_spec() == round_up(self.size_spec(), self.align_spec()),
            r.align_spec() == self.align_spec(),
            r.size_spec() % r.align_spec() == 0,
    {
        proof {
            lemma_max_size(self.align as int);
            lemma_round_up(self.size as int, self.align as int);
            lemma_round_up_below(self.size as int, self.align as int, max_size(self.align as int));
        }
        let rem = self.size % self.align;
        if rem == 0 {
            Layout { size: self.size, align: self.align }
        } else {
            Layout { size: self.size + (self.align - rem), align: self.align }
        }
    }
}

/// The layout of a `{length, Header, [T; n]}` block: the length word, then the
/// header, then `n` elements, each at its natural alignment, the whole padded
/// to the largest of the three alignments.
pub fn block_layout<T, Header>(n: usize) -> (r: Result<Layout, LayoutError>)
    ensures
        r is Ok <==> block_fits::<T, Header>(n as int),
        r matches Ok(l) ==> {
            &&& l.wf()
            &&& l.size_spec() == block_size::<T, Header>(n as int)
            &&& l.align_spec() == block_align::<T, Header>()
            &&& l.size_spec() % l.align_spec() == 0
        },
{
    let length = Layout::new_of::<usize>();
    let header = Layout::new_of::<Header>();
    let values = match Layout::array::<T>(n) {
        Ok(v) => v,
        Err(e) => {
            return Err(e);
        },
    };
    let part1 = match length.extend(&header) {
        Ok((p, _)) => p,
        Err(e) => {
            return Err(e);
        },
    };
    let part2 = match part1.extend(&values) {
        Ok((p, _)) => p,
        Err(e) => {
            return Err(e);
        },
    };
    Ok(part2.pad_to_align())
}

/// The block's size is a multiple of its alignment, the payload starts at the
/// `{length, Header}` prefix padded to `T`'s alignment, and the payload ends
/// within the block.
pub proof fn lemma_block_layout<T, Header>(n: nat)
    requires
        align_of::<usize>() > 0,
        align_of::<Header>() > 0,
        align_of::<T>() > 0,
        block_fits::<T, Header>(n as int),
    ensures
        block_align::<T, Header>() > 0,
        block_size::<T, Header>(n as int) % block_align::<T, Header>() == 0,
        payload_offset::<T, Header>() == round_up(
            prefix_size::<Header>(),
            align_of::<T>() as int,
        ),
        prefix_size::<Header>() <= payload_offset::<T, Header>(),
        payload_offset::<T, Header>() + n * size_of::<T>() <= block_size::<T, Header>(n as int),
        block_size::<T, Header>(n as int) <= isize::MAX,
{
    let a = block_align::<T, Header>();
    assert(n * size_of::<T>() >= 0) by (nonlinear_arith);
    lemma_round_up(size_of::<usize>() as int, align_of::<Header>() as int);
    lemma_round_up(prefix_size::<Header>(), align_of::<T>() as int);
    lemma_round_up(unpadded_size::<T, Header>(n as int), a);
    lemma_max_size(a);
    lemma_round_up_below(unpadded_size::<T, Header>(n as int), a, max_size(a));
}

} // verus!
