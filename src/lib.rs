//! Header-prefixed, length-tagged blocks: a length word, a header value and a
//! run of elements described by one layout, built by a guarded writer.
mod erase;
mod header_slice;
mod header_str;
mod layout;
mod order;
mod writer;

pub use erase::{
    lemma_erase_round_trip, lemma_erase_round_trip_str, ErasedHeaderSlice, ErasedHeaderStr,
};
pub use header_slice::{lemma_header_slice_order, HeaderSlice, HeaderSliceInitError, TryNewError};
pub use header_str::{lemma_header_str_order, HeaderStr};
pub use layout::{block_layout, lemma_block_layout, Layout, LayoutError};
pub use order::{compare_elements, lemma_bytes_compare, seq_eq, seq_partial_cmp};
