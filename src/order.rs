use core::cmp::Ordering;
use vstd::prelude::*;
use vstd::std_specs::cmp::{PartialEqSpec, PartialOrdSpec};

verus! {

/// Element-wise equality of two sequences of the same length.
pub open spec fn seq_eq<T: PartialEq>(a: Seq<T>, b: Seq<T>) -> bool {
    a.len() == b.len() && forall|i: int| #![auto] 0 <= i < a.len() ==> a[i].eq_spec(&b[i])
}

/// Lexicographic comparison of two sequences: the first pair of elements
/// that does not compare equal decides; otherwise the shorter one is smaller.
pub open spec fn seq_partial_cmp<T: PartialOrd>(a: Seq<T>, b: Seq<T>) -> Option<Ordering>
    decreases a.len(),
{
    if a.len() == 0 {
        if b.len() == 0 {
            Some(Ordering::Equal)
        } else {
            Some(Ordering::Less)
        }
    } else if b.len() == 0 {
        Some(Ordering::Greater)
    } else {
        match a[0].partial_cmp_spec(&b[0]) {
            Some(Ordering::Equal) => seq_partial_cmp(a.drop_first(), b.drop_first()),
            o => o,
        }
    }
}

/// Byte sequences always compare: the lexicographic order on bytes is total.
pub proof fn lemma_bytes_compare(a: Seq<u8>, b: Seq<u8>)
    ensures
        seq_partial_cmp(a, b) is Some,
    decreases a.len(),
{
    if a.len() > 0 && b.len() > 0 {
        lemma_bytes_compare(a.drop_first(), b.drop_first());
    }
}

/// Compares two runs of elements lexicographically.
pub fn compare_elements<T: PartialOrd>(a: &[T], b: &[T]) -> (r: Option<Ordering>)
    ensures
        T::obeys_partial_cmp_spec() ==> r == seq_partial_cmp(a@, b@),
{
    let mut i: usize = 0;
    assert(a@.subrange(0, a@.len() as int) =~= a@);
    assert(b@.subrange(0, b@.len() as int) =~= b@);
    while i < a.len() && i < b.len()
        invariant
            i <= a@.len(),
            i <= b@.len(),
            T::obeys_partial_cmp_spec() ==> seq_partial_cmp(a@, b@) == seq_partial_cmp(
                a@.subrange(i as int, a@.len() as int),
                b@.subrange(i as int, b@.len() as int),
            ),
        decreases a@.len() - i,
    {
        let o = a[i].partial_cmp(&b[i]);
        proof {
            let sa = a@.subrange(i as int, a@.len() as int);
            let sb = b@.subrange(i as int, b@.len() as int);
            assert(sa[0] == a@[i as int] && sb[0] == b@[i as int]);
            assert(sa.drop_first() =~= a@.subrange(i + 1, a@.len() as int));
            assert(sb.drop_first() =~= b@.subrange(i + 1, b@.len() as int));
        }
        match o {
            Some(Ordering::Equal) => {},
            _ => {
                return o;
            },
        }
        i = i + 1;
    }
    if i < a.len() {
        Some(Ordering::Greater)
    } else if i < b.len() {
        Some(Ordering::Less)
    } else {
        Some(Ordering::Equal)
    }
}

} // verus!
