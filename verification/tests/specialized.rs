use hwlocality::bitmaps::{
    Bitmap, BitmapIndex, BitmapKind, BitmapLike, BitmapRef, Bound, IndexRange, SpecializedBitmap,
};
use hwlocality::cpu::cpusets::CpuSet;
use hwlocality::memory::nodesets::NodeSet;
use std::cmp::Ordering;

fn idx(value: u32) -> BitmapIndex {
    BitmapIndex::try_from_c_uint(value).unwrap()
}

fn inclusive(lo: u32, hi: u32) -> IndexRange {
    IndexRange::new(Bound::Included(idx(lo)), Bound::Included(idx(hi)))
}

fn kind_through_the_trait<S: SpecializedBitmap>(_set: &S) -> BitmapKind {
    S::kind()
}

fn fill_through_the_trait<S: SpecializedBitmap>(lo: u32, hi: u32) -> S {
    let mut set = S::from_bitmap(Bitmap::new());
    set.as_bitmap_mut().set_range(inclusive(lo, hi));
    assert_eq!(set.as_bitmap().weight(), Some((hi - lo + 1) as usize));
    set
}

#[test]
fn generic_code_builds_and_changes_any_kind() {
    let cpus: CpuSet = fill_through_the_trait(2, 5);
    assert_eq!(cpus.to_string(), "CpuSet(2-5)");
    let nodes: NodeSet = fill_through_the_trait(0, 1);
    assert_eq!(nodes.to_string(), "NodeSet(0-1)");
    assert_eq!(nodes.into_bitmap().to_string(), "0-1");
}

#[test]
fn kinds() {
    assert_eq!(CpuSet::kind(), BitmapKind::CpuSet);
    assert_eq!(NodeSet::kind(), BitmapKind::NodeSet);
    assert_eq!(kind_through_the_trait(&CpuSet::new()), BitmapKind::CpuSet);
    assert_eq!(kind_through_the_trait(&NodeSet::full()), BitmapKind::NodeSet);
    assert_eq!(CpuSet::BITMAP_KIND, BitmapKind::CpuSet);
    assert_eq!(NodeSet::BITMAP_KIND, BitmapKind::NodeSet);
    assert_ne!(BitmapKind::CpuSet, BitmapKind::NodeSet);
}

#[test]
fn textual_form_names_the_kind() {
    assert_eq!(CpuSet::from_range(inclusive(0, 3)).to_string(), "CpuSet(0-3)");
    assert_eq!(NodeSet::from_range(inclusive(0, 3)).to_string(), "NodeSet(0-3)");
    assert_eq!(CpuSet::new().to_string(), "CpuSet()");
    assert_eq!(NodeSet::full().to_string(), "NodeSet(0-)");
}

#[test]
fn conversions_lose_nothing() {
    let plain = Bitmap::from_indices(&[idx(1), idx(5), idx(6)]);
    let cpus = CpuSet::from(plain.clone());
    assert_eq!(cpus.as_bitmap(), &plain);
    assert_eq!(Bitmap::from(cpus.clone()), plain);
    assert_eq!(cpus.clone().into_bitmap(), plain);
    assert_eq!(CpuSet::from_bitmap(plain.clone()), cpus);
    let nodes = NodeSet::from_bitmap(plain.clone());
    assert_eq!(nodes.into_bitmap(), plain);
    assert_eq!(NodeSet::from(idx(4)).to_string(), "NodeSet(4)");
    assert_eq!(Bitmap::from(idx(4)).to_string(), "4");
    assert_eq!(BitmapLike::as_raw(&cpus).text(), "1,5-6");
    assert_eq!(<CpuSet as BitmapLike>::from_raw(plain.clone().into_raw()), cpus);
}

#[test]
fn cpusets_have_the_operations_of_bitmaps() {
    let mut set = CpuSet::from_range(inclusive(12, 34));
    assert_eq!(set.weight(), Some(23));
    assert!(set.is_set(idx(12)));
    assert!(!set.is_set(idx(35)));
    assert_eq!(set.first_set(), Some(idx(12)));
    assert_eq!(set.last_set(), Some(idx(34)));
    assert_eq!(set.first_unset(), Some(idx(0)));
    assert_eq!(set.last_unset(), None);
    assert!(!set.is_empty());
    assert!(!set.is_full());

    set.set(idx(42));
    assert_eq!(set.to_string(), "CpuSet(12-34,42)");
    set.unset(idx(42));
    set.unset_range(inclusive(14, 18));
    assert_eq!(set.to_string(), "CpuSet(12-13,19-34)");
    set.set_range(inclusive(14, 18));
    set.set_only(idx(3));
    assert_eq!(set.to_string(), "CpuSet(3)");
    set.set_all_but(idx(3));
    assert_eq!(set.to_string(), "CpuSet(0-2,4-)");
    set.invert();
    assert_eq!(set.to_string(), "CpuSet(3)");
    set.fill();
    assert!(set.is_full());
    set.singlify();
    assert_eq!(set.to_string(), "CpuSet(0)");
    set.clear();
    assert!(set.is_empty());
    set.extend(&[idx(9), idx(8)]);
    assert_eq!(set, CpuSet::from_indices(&[idx(8), idx(9)]));
    let mut copy = CpuSet::default();
    copy.copy_from(&set);
    assert_eq!(copy, set.clone());

    let indices: Vec<usize> = set
        .iter_set()
        .take(10)
        .into_iter()
        .map(BitmapIndex::into_usize)
        .collect();
    assert_eq!(indices, vec![8, 9]);
    assert_eq!(set.iter_unset().take(3).len(), 3);
    assert_eq!(set.clone().into_iter().take(3).len(), 2);
}

#[test]
fn nodesets_combine_with_nodesets() {
    let a = NodeSet::from_range(inclusive(0, 9));
    let b = NodeSet::from_range(inclusive(5, 14));
    assert_eq!((&a & &b).to_string(), "NodeSet(5-9)");
    assert_eq!((&a | &b).to_string(), "NodeSet(0-14)");
    assert_eq!((&a ^ &b).to_string(), "NodeSet(0-4,10-14)");
    assert_eq!((&a - &b).to_string(), "NodeSet(0-4)");
    assert_eq!((!&a).to_string(), "NodeSet(10-)");
    assert_eq!((a.clone() & &b).to_string(), "NodeSet(5-9)");
    assert_eq!((a.clone() | &b).to_string(), "NodeSet(0-14)");
    assert_eq!((a.clone() ^ &b).to_string(), "NodeSet(0-4,10-14)");
    assert_eq!((a.clone() - &b).to_string(), "NodeSet(0-4)");
    assert_eq!((!a.clone()).to_string(), "NodeSet(10-)");

    let mut buf = a.clone();
    buf &= &b;
    assert_eq!(buf.to_string(), "NodeSet(5-9)");
    buf.copy_from(&a);
    buf |= &b;
    assert_eq!(buf.to_string(), "NodeSet(0-14)");
    buf.copy_from(&a);
    buf ^= &b;
    assert_eq!(buf.to_string(), "NodeSet(0-4,10-14)");
    buf.copy_from(&a);
    buf -= &b;
    assert_eq!(buf.to_string(), "NodeSet(0-4)");

    assert!(a.intersects(&b));
    assert!(!a.includes(&b));
    assert!((&a | &b).includes(&b));
    assert!(a < b);
    assert_eq!(a.cmp(&b), Ordering::Less);
    assert_eq!(b.partial_cmp(&a), Some(Ordering::Greater));
    assert_eq!(a.cmp(&a.clone()), Ordering::Equal);
}

#[test]
fn views_answer_like_their_targets() {
    let owner = Bitmap::from_range(inclusive(12, 34));
    let view = BitmapRef::new(&owner);
    assert_eq!(view.to_string(), "12-34");
    assert_eq!(view.weight(), Some(23));
    assert!(view.is_set(idx(12)));
    assert!(!view.is_set(idx(11)));
    assert!(!view.is_empty());
    assert!(!view.is_full());
    assert_eq!(view.first_set(), Some(idx(12)));
    assert_eq!(view.last_set(), Some(idx(34)));
    assert_eq!(view.first_unset(), Some(idx(0)));
    assert_eq!(view.last_unset(), None);
    assert_eq!(view.to_owned(), owner);
    assert_eq!(view.iter_set().take(3).len(), 3);
    assert_eq!(view.iter_unset().take(100).len(), 100);

    let other = Bitmap::from_range(inclusive(30, 40));
    assert!(view.intersects(&other));
    assert!(!view.includes(&other));
    assert_eq!((&view & &other).to_string(), "30-34");
    assert_eq!((&view | &other).to_string(), "12-40");
    assert_eq!((&view ^ &other).to_string(), "12-29,35-40");
    assert_eq!((&view - &other).to_string(), "12-29");
    assert_eq!((!&view).to_string(), "0-11,35-");

    let other_view = other.as_ref();
    assert!(view < other_view);
    assert_eq!(view.cmp(&other_view), Ordering::Less);
    assert!(view != other_view);
    assert!(view == owner.as_ref());
    assert_eq!(view.into_iter().take(2).len(), 2);
    assert_eq!((other_view - &owner).to_string(), "35-40");
}

#[test]
fn views_cast_between_kinds() {
    let cpus = CpuSet::from_range(inclusive(0, 3));
    let view: BitmapRef<CpuSet> = cpus.as_ref();
    assert_eq!(view.to_string(), "CpuSet(0-3)");
    let more = CpuSet::from_range(inclusive(2, 5));
    let union: CpuSet = &view | &more;
    assert_eq!(union.to_string(), "CpuSet(0-5)");

    let plain: BitmapRef<Bitmap> = view.cast();
    assert_eq!(plain.to_string(), "0-3");
    let owned: Bitmap = plain.to_owned();
    assert_eq!(owned.to_string(), "0-3");
    let nodes: BitmapRef<NodeSet> = plain.cast();
    assert_eq!(nodes.to_string(), "NodeSet(0-3)");
    assert_eq!(nodes.to_owned(), NodeSet::from_range(inclusive(0, 3)));
    assert_eq!(nodes.as_raw().text(), "0-3");
}
