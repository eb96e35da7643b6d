use header_slice::{compare_elements, HeaderSlice, HeaderStr, Layout, TryNewError};
use std::cmp::Ordering;
use std::cell::Cell;
use std::rc::Rc;

struct Counted {
    drops: Rc<Cell<usize>>,
}

impl Drop for Counted {
    fn drop(&mut self) {
        self.drops.set(self.drops.get() + 1);
    }
}

fn counted(drops: &Rc<Cell<usize>>, n: usize) -> Vec<Counted> {
    (0..n).map(|_| Counted { drops: drops.clone() }).collect()
}

#[test]
fn builds_header_and_payload_in_order() {
    let h = HeaderSlice::<u32, u32>::try_new(7, 3, vec![10, 20, 30]).ok().unwrap();
    assert_eq!(h.len(), 3);
    assert_eq!(*h.header(), 7);
    assert_eq!(h.slice(), &[10, 20, 30]);
}

#[test]
fn short_source_reports_written_and_expected() {
    let err = HeaderSlice::<u32, u32>::new_into(Vec::new(), 3, 7, vec![10, 20]).err().unwrap();
    assert_eq!(err.written_len(), 2);
    assert_eq!(err.expected_length(), 3);
    let (written, header) = err.take_ownership();
    assert_eq!(written, vec![10, 20]);
    assert_eq!(header, 7);
}

#[test]
fn short_source_fails_with_not_enough_items() {
    match HeaderSlice::<u32, u32>::try_new(7, 3, vec![10, 20]) {
        Err(TryNewError::NotEnoughItems(h)) => assert_eq!(h, 7),
        _ => panic!("expected NotEnoughItems"),
    }
}

#[test]
fn short_source_drops_each_written_element_once() {
    let drops = Rc::new(Cell::new(0));
    let items = counted(&drops, 3);
    match HeaderSlice::<Counted, u8>::try_new(9, 5, items) {
        Err(TryNewError::NotEnoughItems(h)) => assert_eq!(h, 9),
        _ => panic!("expected NotEnoughItems"),
    }
    assert_eq!(drops.get(), 3);
}

#[test]
fn drop_in_place_returns_header_and_drops_elements() {
    let drops = Rc::new(Cell::new(0));
    let items = counted(&drops, 2);
    let err = HeaderSlice::<Counted, &str>::new_into(Vec::new(), 4, "hdr", items).err().unwrap();
    assert_eq!(drops.get(), 0);
    assert_eq!(err.drop_in_place(), "hdr");
    assert_eq!(drops.get(), 2);
}

#[test]
fn built_block_drops_each_element_once() {
    let drops = Rc::new(Cell::new(0));
    let h = HeaderSlice::<Counted, ()>::new((), 4, counted(&drops, 4));
    assert_eq!(h.len(), 4);
    assert_eq!(drops.get(), 0);
    drop(h);
    assert_eq!(drops.get(), 4);
}

#[test]
fn extra_items_are_not_stored() {
    let h = HeaderSlice::<u8, ()>::new((), 2, vec![1, 2, 3, 4]);
    assert_eq!(h.len(), 2);
    assert_eq!(h.slice(), &[1, 2]);
}

#[test]
fn empty_block() {
    let h = HeaderSlice::<u64, u16>::new(5, 0, Vec::new());
    assert_eq!(h.len(), 0);
    assert_eq!(h.slice(), &[] as &[u64]);
    assert_eq!(*h.header(), 5);
}

#[test]
fn huge_length_is_layout_too_large() {
    match HeaderSlice::<u64, u32>::try_new(3, usize::MAX, Vec::new()) {
        Err(TryNewError::LayoutTooLarge(h)) => assert_eq!(h, 3),
        _ => panic!("expected LayoutTooLarge"),
    }
    assert!(HeaderSlice::<u64, u32>::layout_for(usize::MAX).is_err());
}

#[test]
fn clone_from_clones_each_element() {
    let src = vec![String::from("a"), String::from("bc")];
    let h = HeaderSlice::<String, u8>::clone_from(1, &src);
    assert_eq!(h.len(), 2);
    assert_eq!(h.slice(), &src[..]);
    let t = HeaderSlice::<String, u8>::try_clone_from(2, &src).ok().unwrap();
    assert_eq!(t.slice(), &src[..]);
    assert_eq!(*t.header(), 2);
}

#[test]
fn copy_from_copies_bytes() {
    let src = [1u32, 2, 3, 4, 5];
    let h = HeaderSlice::<u32, bool>::copy_from(true, &src);
    assert_eq!(h.len(), 5);
    assert_eq!(h.slice(), &src);
    let t = HeaderSlice::<u32, bool>::try_copy_from(false, &src).ok().unwrap();
    assert_eq!(t.slice(), &src);
    assert!(!*t.header());
}

#[test]
fn text_block_holds_utf8_bytes() {
    let s = HeaderStr::<()>::new_into(Vec::new(), "héllo", ());
    assert_eq!(s.len(), 6);
    assert_eq!(s.as_bytes(), "héllo".as_bytes());
    assert_eq!(s.as_bytes(), &[0x68, 0xc3, 0xa9, 0x6c, 0x6c, 0x6f]);
}

#[test]
fn erase_round_trip_keeps_everything() {
    for n in [0usize, 1, 7] {
        let items: Vec<u16> = (0..n as u16).collect();
        let h = HeaderSlice::<u16, char>::new('x', n, items.clone());
        let back = HeaderSlice::unerase(h.erase());
        assert_eq!(back.len(), n);
        assert_eq!(*back.header(), 'x');
        assert_eq!(back.slice(), &items[..]);
    }
    let s = HeaderStr::<u8>::new_into(Vec::new(), "abc", 4);
    let back = HeaderStr::unerase(s.erase());
    assert_eq!(back.len(), 3);
    assert_eq!(*back.header(), 4);
    assert_eq!(back.as_bytes(), b"abc");
}

#[test]
fn order_is_header_then_payload() {
    let a = HeaderSlice::<u8, u8>::copy_from(1, &[9, 9, 9]);
    let b = HeaderSlice::<u8, u8>::copy_from(2, &[0]);
    let c = HeaderSlice::<u8, u8>::copy_from(2, &[0, 1]);
    let d = HeaderSlice::<u8, u8>::copy_from(2, &[0, 1]);
    assert!(a < b);
    assert!(b < c);
    assert_eq!(c, d);
    assert_ne!(a, b);
    let s = HeaderStr::<u8>::new_into(Vec::new(), "zzz", 1);
    let t = HeaderStr::<u8>::new_into(Vec::new(), "a", 2);
    let u = HeaderStr::<u8>::new_into(Vec::new(), "a", 2);
    assert!(s < t);
    assert_eq!(t, u);
}

#[test]
fn layout_for_exact_values() {
    // length word at 0, u8 header at 8, u32 payload at 12, three of them.
    let l = HeaderSlice::<u32, u8>::layout_for(3).ok().unwrap();
    assert_eq!(l.size(), 24);
    assert_eq!(l.align(), 8);
    let l = HeaderSlice::<u8, ()>::layout_for(5).ok().unwrap();
    assert_eq!(l.size(), 16);
    assert_eq!(l.align(), 8);
    let l = HeaderStr::<u16>::layout_for(6).ok().unwrap();
    assert_eq!(l.size(), 16);
    assert_eq!(l.align(), 8);
    for n in 0..20 {
        let l = HeaderSlice::<u16, u32>::layout_for(n).ok().unwrap();
        assert_eq!(l.size() % l.align(), 0);
        assert!(l.size() >= 12 + 2 * n);
        assert!(l.size() < 12 + 2 * n + 8);
    }
    // u32 header at 8, u16 payload at 12: 12 + 6 = 18, padded to 24.
    assert_eq!(HeaderSlice::<u16, u32>::layout_for(3).ok().unwrap().size(), 24);
}

#[test]
fn layout_pieces() {
    let a = Layout::new_of::<u8>();
    let b = Layout::new_of::<u64>();
    let (ab, off) = a.extend(&b).ok().unwrap();
    assert_eq!(off, 8);
    assert_eq!(ab.size(), 16);
    assert_eq!(ab.align(), 8);
    let (ba, off) = b.extend(&a).ok().unwrap();
    assert_eq!(off, 8);
    assert_eq!(ba.size(), 9);
    assert_eq!(ba.pad_to_align().size(), 16);
    let arr = Layout::array::<u32>(4).ok().unwrap();
    assert_eq!(arr.size(), 16);
    assert_eq!(arr.align(), 4);
    assert!(Layout::array::<u32>(usize::MAX / 2).is_err());
}

#[test]
fn with_header_keeps_the_variant() {
    match TryNewError::<()>::NotEnoughItems(()).with_header(5u8) {
        TryNewError::NotEnoughItems(h) => assert_eq!(h, 5),
        _ => panic!("variant changed"),
    }
    match TryNewError::<()>::LayoutTooLarge(()).with_header("h") {
        TryNewError::LayoutTooLarge(h) => assert_eq!(h, "h"),
        _ => panic!("variant changed"),
    }
}

#[test]
fn unordered_header_leaves_blocks_unordered() {
    let a = HeaderSlice::<u8, f64>::copy_from(f64::NAN, &[1]);
    let b = HeaderSlice::<u8, f64>::copy_from(1.0, &[1]);
    assert_eq!(a.partial_cmp(&b), None);
    assert_ne!(a, b);
    let c = HeaderSlice::<u8, f64>::copy_from(1.0, &[0, 5]);
    assert_eq!(b.partial_cmp(&c), Some(Ordering::Greater));
}

#[test]
fn compare_elements_is_lexicographic() {
    assert_eq!(compare_elements(&[1, 2, 3], &[1, 2, 3]), Some(Ordering::Equal));
    assert_eq!(compare_elements(&[1, 2], &[1, 2, 3]), Some(Ordering::Less));
    assert_eq!(compare_elements(&[1, 3], &[1, 2, 3]), Some(Ordering::Greater));
    assert_eq!(compare_elements::<u8>(&[], &[]), Some(Ordering::Equal));
}

#[test]
fn text_block_reads_back_as_text() {
    let s = HeaderStr::<u32>::new_into(Vec::new(), "héllo", 1);
    assert_eq!(s.as_str(), "héllo");
    let e = HeaderStr::<()>::new_into(Vec::new(), "", ());
    assert_eq!(e.len(), 0);
    assert_eq!(e.as_str(), "");
}

#[test]
fn set_replaces_one_element() {
    let mut h = HeaderSlice::<u32, u8>::copy_from(1, &[10, 20, 30]);
    h.set(1, 99);
    assert_eq!(h.slice(), &[10, 99, 30]);
    assert_eq!(h.len(), 3);
    assert_eq!(*h.header(), 1);
}

#[test]
fn init_error_counts_written_elements() {
    let err = HeaderSlice::<u8, ()>::new_into(Vec::new(), 5, (), vec![]).err().unwrap();
    assert_eq!(err.written_len(), 0);
    assert_eq!(err.expected_length(), 5);
}
