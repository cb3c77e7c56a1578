use hwlocality::bitmaps::{Bitmap, BitmapIndex, BitmapIterator, Bound, IndexRange};
use std::cmp::Ordering;

// Infinite iterators cannot be checked to their end, so only a stretch of the
// final all-set or all-unset region is looked at.
const INFINITE_EXPLORE_ITERS: usize = std::mem::size_of::<u64>() * 8;

const MAX: u32 = 0x7fff_ffff;

fn idx(value: u32) -> BitmapIndex {
    BitmapIndex::try_from_c_uint(value).unwrap()
}

fn inclusive(lo: u32, hi: u32) -> IndexRange {
    IndexRange::new(Bound::Included(idx(lo)), Bound::Included(idx(hi)))
}

fn half_open(lo: u32, hi: u32) -> IndexRange {
    IndexRange::new(Bound::Included(idx(lo)), Bound::Excluded(idx(hi)))
}

fn from(lo: u32) -> IndexRange {
    IndexRange::new(Bound::Included(idx(lo)), Bound::Unbounded)
}

fn up_to(hi: u32) -> IndexRange {
    IndexRange::new(Bound::Unbounded, Bound::Excluded(idx(hi)))
}

fn everything() -> IndexRange {
    IndexRange::new(Bound::Unbounded, Bound::Unbounded)
}

fn count(mut iter: BitmapIterator<&Bitmap>) -> usize {
    let mut n = 0;
    while iter.next().is_some() {
        n += 1;
    }
    n
}

fn values(indices: Vec<BitmapIndex>) -> Vec<usize> {
    indices.into_iter().map(BitmapIndex::into_usize).collect()
}

fn test_basic_inplace(initial: &Bitmap, inverse: &Bitmap) {
    let mut buf = initial.clone();
    buf.clear();
    assert!(buf.is_empty());

    buf.copy_from(initial);
    buf.fill();
    assert!(buf.is_full());

    buf.copy_from(initial);
    buf.invert();
    assert_eq!(buf, *inverse);

    if initial.weight().unwrap_or(usize::MAX) > 0 {
        buf.copy_from(initial);
        buf.singlify();
        assert_eq!(buf.weight(), Some(1));
    }
}

#[test]
fn empty() {
    let empty = Bitmap::new();
    let inverse = Bitmap::full();

    let test_empty = |empty: &Bitmap| {
        assert_eq!(empty.first_set(), None);
        assert_eq!(empty.first_unset().map(BitmapIndex::into_usize), Some(0));
        assert!(empty.is_empty());
        assert!(!empty.is_full());
        assert_eq!(values(empty.clone().into_iter().take(usize::MAX)).len(), 0);
        assert_eq!(count(empty.iter_set()), 0);
        assert_eq!(empty.last_set(), None);
        assert_eq!(empty.last_unset(), None);
        assert_eq!(empty.weight(), Some(0));

        for (expected, idx) in empty
            .iter_unset()
            .take(INFINITE_EXPLORE_ITERS)
            .into_iter()
            .enumerate()
        {
            assert_eq!(expected, idx.into_usize());
        }

        assert_eq!(empty.to_string(), "");
        assert_eq!(format!("{}", empty.to_string()), "");
        assert_eq!(!empty, inverse);
    };
    test_empty(&empty);
    test_empty(&empty.clone());
    test_empty(&Bitmap::default());

    test_basic_inplace(&empty, &inverse);
}

#[test]
fn full() {
    let full = Bitmap::full();
    let inverse = Bitmap::new();

    let test_full = |full: &Bitmap| {
        assert_eq!(full.first_set().map(BitmapIndex::into_usize), Some(0));
        assert_eq!(full.first_unset(), None);
        assert!(!full.is_empty());
        assert!(full.is_full());
        assert_eq!(count(full.iter_unset()), 0);
        assert_eq!(full.last_set(), None);
        assert_eq!(full.last_unset(), None);
        assert_eq!(full.weight(), None);

        fn test_iter_set(indices: Vec<BitmapIndex>) {
            assert_eq!(indices.len(), INFINITE_EXPLORE_ITERS);
            for (expected, idx) in indices.into_iter().enumerate() {
                assert_eq!(expected, idx.into_usize());
            }
        }
        test_iter_set(full.clone().into_iter().take(INFINITE_EXPLORE_ITERS));
        test_iter_set(full.iter_set().take(INFINITE_EXPLORE_ITERS));

        assert_eq!(full.to_string(), "0-");
        assert_eq!(format!("{}", full.to_string()), "0-");
        assert_eq!(!full, inverse);
    };
    test_full(&full);
    test_full(&full.clone());

    test_basic_inplace(&full, &inverse);
}

#[test]
fn range_renders_as_one_run() {
    let bitmap = Bitmap::from_range(inclusive(12, 34));
    assert_eq!(bitmap.to_string(), "12-34");
}

#[test]
fn set_adds_a_lone_index() {
    let mut bitmap = Bitmap::from_range(inclusive(12, 34));
    bitmap.set(idx(42));
    assert_eq!(bitmap.to_string(), "12-34,42");
}

#[test]
fn unset_range_splits_a_run() {
    let mut bitmap = Bitmap::from_range(inclusive(12, 34));
    bitmap.unset_range(inclusive(14, 18));
    assert_eq!(bitmap.to_string(), "12-13,19-34");

    bitmap.unset_range(from(26));
    assert_eq!(bitmap.to_string(), "12-13,19-25");
}

#[test]
fn full_is_unbounded() {
    let full = Bitmap::full();
    assert_eq!(full.to_string(), "0-");
    assert_eq!(full.weight(), None);
    assert!(full.is_full());
}

#[test]
fn singlify_keeps_the_lowest_index() {
    for bitmap in [
        Bitmap::from_range(inclusive(12, 34)),
        Bitmap::from_range(from(7)),
        Bitmap::full(),
        Bitmap::from_indices(&[idx(9), idx(3), idx(1000)]),
    ] {
        let mut single = bitmap.clone();
        single.singlify();
        assert_eq!(single.weight(), Some(1));
        let kept = single.first_set().unwrap();
        assert!(bitmap.is_set(kept));
        assert_eq!(Some(kept), bitmap.first_set());
        assert!(bitmap.includes(&single));
    }
}

#[test]
fn singlify_leaves_an_empty_bitmap_alone() {
    let mut bitmap = Bitmap::new();
    bitmap.singlify();
    assert!(bitmap.is_empty());
}

#[test]
fn set_range_without_ends_fills() {
    let mut ranged = Bitmap::from_range(inclusive(12, 34));
    ranged.set_range(everything());
    let mut filled = Bitmap::from_range(inclusive(12, 34));
    filled.fill();
    assert_eq!(ranged, filled);
    assert!(ranged.is_full());

    ranged.unset_range(everything());
    assert!(ranged.is_empty());
    assert!(Bitmap::from_range(everything()).is_full());
}

#[test]
fn built_from_indices() {
    let picked = [5u32, 0, 77, 6, 4, 1_000_000, MAX];
    let indices: Vec<BitmapIndex> = picked.iter().map(|&i| idx(i)).collect();
    let bitmap = Bitmap::from_indices(&indices);
    assert_eq!(bitmap.weight(), Some(picked.len()));
    for i in 0..200u32 {
        assert_eq!(bitmap.is_set(idx(i)), picked.contains(&i));
    }
    assert!(bitmap.is_set(idx(MAX)));
    assert_eq!(bitmap.to_string(), "0,4-6,77,1000000,2147483647");

    let twice = Bitmap::from_indices(&[idx(3), idx(3), idx(4)]);
    assert_eq!(twice.weight(), Some(2));
    assert_eq!(Bitmap::from_indices(&[]), Bitmap::new());
}

#[test]
fn extend_adds_indices() {
    let mut bitmap = Bitmap::from_range(inclusive(2, 4));
    bitmap.extend(&[idx(5), idx(9), idx(3)]);
    assert_eq!(bitmap.to_string(), "2-5,9");
    let mut full = Bitmap::full();
    full.extend(&[idx(5), idx(9)]);
    assert!(full.is_full());
}

fn samples() -> Vec<Bitmap> {
    let mut holes = Bitmap::full();
    holes.unset_range(inclusive(3, 5));
    holes.unset(idx(100));
    vec![
        Bitmap::new(),
        Bitmap::full(),
        Bitmap::from_range(inclusive(0, 0)),
        Bitmap::from_range(inclusive(12, 34)),
        Bitmap::from_range(inclusive(20, 50)),
        Bitmap::from_range(from(30)),
        Bitmap::from_range(inclusive(0, MAX)),
        Bitmap::from_range(inclusive(MAX, MAX)),
        Bitmap::from_indices(&[idx(1), idx(3), idx(5), idx(64), idx(65)]),
        holes,
    ]
}

#[test]
fn inverting_twice_gives_the_bitmap_back() {
    for bitmap in samples() {
        let mut twice = bitmap.clone();
        twice.invert();
        twice.invert();
        assert_eq!(twice, bitmap);
        assert_eq!(!!bitmap.clone(), bitmap);
    }
}

#[test]
fn de_morgan() {
    for a in samples() {
        for b in samples() {
            assert_eq!(!(&a & &b), &!&a | &!&b);
            assert_eq!(!(&a | &b), &!&a & &!&b);
        }
    }
}

#[test]
fn empty_is_included_and_apart() {
    let empty = Bitmap::new();
    for a in samples() {
        assert!(a.includes(&empty));
        assert!(!a.intersects(&empty));
        assert!(!empty.intersects(&a));
        assert_eq!(empty.includes(&a), a.is_empty());
    }
}

#[test]
fn union_less_intersection_is_symmetric_difference() {
    for a in samples() {
        for b in samples() {
            assert_eq!(&(&a | &b) - &(&a & &b), &a ^ &b);
            assert_eq!(&a - &b, &a & &!&b);
        }
    }
}

#[test]
fn operators_agree_with_membership() {
    for a in samples() {
        for b in samples() {
            let and = &a & &b;
            let or = &a | &b;
            let xor = &a ^ &b;
            let sub = &a - &b;
            let not = !&a;
            for i in (0..130).chain([MAX - 1, MAX]) {
                let (x, y) = (a.is_set(idx(i)), b.is_set(idx(i)));
                assert_eq!(and.is_set(idx(i)), x && y);
                assert_eq!(or.is_set(idx(i)), x || y);
                assert_eq!(xor.is_set(idx(i)), x != y);
                assert_eq!(sub.is_set(idx(i)), x && !y);
                assert_eq!(not.is_set(idx(i)), !x);
            }
            assert_eq!(a.intersects(&b), !and.is_empty());
            assert_eq!(a.includes(&b), (&b - &a).is_empty());
        }
    }
}

#[test]
fn operators_by_value_and_in_place() {
    let a = Bitmap::from_range(inclusive(0, 9));
    let b = Bitmap::from_range(inclusive(5, 14));
    assert_eq!((&a & &b).to_string(), "5-9");
    assert_eq!((&a | &b).to_string(), "0-14");
    assert_eq!((&a ^ &b).to_string(), "0-4,10-14");
    assert_eq!((&a - &b).to_string(), "0-4");
    assert_eq!((!&a).to_string(), "10-");

    assert_eq!((a.clone() & &b).to_string(), "5-9");
    assert_eq!((a.clone() | &b).to_string(), "0-14");
    assert_eq!((a.clone() ^ &b).to_string(), "0-4,10-14");
    assert_eq!((a.clone() - &b).to_string(), "0-4");
    assert_eq!((!a.clone()).to_string(), "10-");

    let mut buf = a.clone();
    buf &= &b;
    assert_eq!(buf.to_string(), "5-9");
    buf.copy_from(&a);
    buf |= &b;
    assert_eq!(buf.to_string(), "0-14");
    buf.copy_from(&a);
    buf ^= &b;
    assert_eq!(buf.to_string(), "0-4,10-14");
    buf.copy_from(&a);
    buf -= &b;
    assert_eq!(buf.to_string(), "0-4");
}

#[test]
fn setters() {
    let mut bitmap = Bitmap::from_range(inclusive(12, 34));
    bitmap.set_only(idx(42));
    assert_eq!(bitmap.to_string(), "42");

    let mut bitmap = Bitmap::from_range(inclusive(12, 34));
    bitmap.set_all_but(idx(42));
    assert_eq!(bitmap.to_string(), "0-41,43-");
    bitmap.set_all_but(idx(0));
    assert_eq!(bitmap.to_string(), "1-");

    let mut bitmap = Bitmap::from_range(inclusive(12, 34));
    bitmap.unset(idx(24));
    assert_eq!(bitmap.to_string(), "12-23,25-34");
    bitmap.unset(idx(24));
    assert_eq!(bitmap.to_string(), "12-23,25-34");
    bitmap.set(idx(24));
    assert_eq!(bitmap.to_string(), "12-34");
    bitmap.set(idx(35));
    assert_eq!(bitmap.to_string(), "12-35");
    bitmap.set(idx(11));
    assert_eq!(bitmap.to_string(), "11-35");

    let mut bitmap = Bitmap::from_range(inclusive(12, 56));
    bitmap.set_range(inclusive(34, 78));
    assert_eq!(bitmap.to_string(), "12-78");
    bitmap.set_range(from(2));
    assert_eq!(bitmap.to_string(), "2-");

    let mut bitmap = Bitmap::from_range(inclusive(12, 34));
    bitmap.invert();
    assert_eq!(bitmap.to_string(), "0-11,35-");

    let mut copy = Bitmap::new();
    copy.copy_from(&bitmap);
    assert_eq!(copy.to_string(), "0-11,35-");
    copy.clear();
    assert!(copy.is_empty());
    assert_eq!(bitmap.to_string(), "0-11,35-");
}

#[test]
fn queries() {
    let bitmap = Bitmap::from_range(inclusive(12, 34));
    assert!((0..12).all(|i| !bitmap.is_set(idx(i))));
    assert!((12..=34).all(|i| bitmap.is_set(idx(i))));
    assert!(!bitmap.is_set(idx(35)));
    assert!(!bitmap.is_empty());
    assert!(!bitmap.is_full());

    assert_eq!(bitmap.first_set(), Some(idx(12)));
    assert_eq!(bitmap.last_set(), Some(idx(34)));
    assert_eq!(bitmap.first_unset(), Some(idx(0)));
    assert_eq!(bitmap.last_unset(), None);
    assert_eq!(Bitmap::from_range(up_to(12)).first_unset(), Some(idx(12)));
    assert_eq!(Bitmap::from_range(from(12)).last_unset(), Some(idx(11)));
    assert_eq!(Bitmap::from_range(from(12)).last_set(), None);

    assert_eq!(Bitmap::new().weight(), Some(0));
    assert_eq!(Bitmap::from_range(half_open(12, 34)).weight(), Some(34 - 12));
    assert_eq!(Bitmap::from_range(inclusive(0, MAX)).weight(), Some(1 << 31));
    assert_eq!(Bitmap::from_range(from(12)).weight(), None);

    let bitmap1 = Bitmap::from_range(inclusive(12, 34));
    let bitmap2 = Bitmap::from_range(inclusive(56, 78));
    let bitmap3 = Bitmap::from_range(inclusive(34, 56));
    assert!(!bitmap1.intersects(&bitmap2));
    assert!(bitmap1.intersects(&bitmap3));
    assert!(bitmap2.intersects(&bitmap3));

    let outer = Bitmap::from_range(inclusive(12, 78));
    assert!(outer.includes(&bitmap3));
    assert!(!bitmap3.includes(&outer));
    assert!(outer.includes(&outer));
}

#[test]
fn textual_form() {
    assert_eq!(Bitmap::new().to_string(), "");
    assert_eq!(Bitmap::from_range(inclusive(5, 5)).to_string(), "5");
    assert_eq!(Bitmap::from_range(inclusive(5, 6)).to_string(), "5-6");
    assert_eq!(Bitmap::from_range(from(5)).to_string(), "5-");
    assert_eq!(Bitmap::from_range(inclusive(0, 109)).to_string(), "0-109");
    assert_eq!(
        Bitmap::from_range(inclusive(MAX - 1, MAX)).to_string(),
        "2147483646-2147483647"
    );
    let mut spread = Bitmap::from_indices(&[idx(0), idx(2), idx(3), idx(10), idx(1001)]);
    assert_eq!(spread.to_string(), "0,2-3,10,1001");
    spread.set_range(from(2000));
    assert_eq!(spread.to_string(), "0,2-3,10,1001,2000-");
    spread.set(idx(1));
    assert_eq!(spread.to_string(), "0-3,10,1001,2000-");
}

#[test]
fn beyond_the_largest_index() {
    let all_indices = Bitmap::from_range(inclusive(0, MAX));
    assert!(!all_indices.is_full());
    assert_eq!(all_indices.first_unset(), None);
    assert_eq!(all_indices.last_set(), Some(idx(MAX)));
    assert_eq!(all_indices.to_string(), "0-2147483647");

    let mut beyond = !&all_indices;
    assert!(!beyond.is_empty());
    assert_eq!(beyond.weight(), None);
    assert_eq!(beyond.first_set(), None);
    assert_eq!(beyond.last_unset(), Some(idx(MAX)));
    assert_eq!(beyond.to_string(), "2147483648-");
    assert_eq!(count(beyond.iter_set()), 0);
    beyond.singlify();
    assert_eq!(beyond.to_string(), "2147483648-");
    assert_eq!(!beyond, all_indices);

    let mut top = Bitmap::new();
    top.set(idx(MAX));
    assert_eq!(top.weight(), Some(1));
    assert_eq!(top.to_string(), "2147483647");
    assert!(top < Bitmap::from_range(from(MAX)));
}

#[test]
fn order() {
    let empty = Bitmap::new();
    let full = Bitmap::full();
    for other in samples() {
        assert_eq!(empty == other, other.is_empty());
        if !other.is_empty() {
            assert!(empty < other);
            assert_eq!(other.cmp(&empty), Ordering::Greater);
        }
        assert_eq!(full == other, other.is_full());
        assert_eq!(
            full.cmp(&other),
            if other.is_full() {
                Ordering::Equal
            } else {
                Ordering::Greater
            }
        );
        assert_eq!(other.cmp(&other.clone()), Ordering::Equal);
        assert_eq!(other.partial_cmp(&full), Some(other.cmp(&full)));
    }

    // The highest index at which two bitmaps differ decides.
    let low = Bitmap::from_indices(&[idx(1), idx(2), idx(3), idx(10)]);
    let high = Bitmap::from_indices(&[idx(11)]);
    assert_eq!(low.cmp(&high), Ordering::Less);
    assert_eq!(high.cmp(&low), Ordering::Greater);
    let shared_top = Bitmap::from_indices(&[idx(4), idx(11)]);
    assert_eq!(high.cmp(&shared_top), Ordering::Less);
    assert!(high < shared_top);
    assert!(shared_top >= high);

    // An infinite bitmap is greater than every finite one.
    let tail = Bitmap::from_range(from(1000));
    let finite = Bitmap::from_range(inclusive(0, 5000));
    assert_eq!(tail.cmp(&finite), Ordering::Greater);
    assert_eq!(finite.cmp(&tail), Ordering::Less);

    // Two infinite bitmaps are compared below their tails.
    let early_tail = Bitmap::from_range(from(10));
    let late_tail = Bitmap::from_range(from(20));
    assert_eq!(early_tail.cmp(&late_tail), Ordering::Greater);
    let mut with_low = late_tail.clone();
    with_low.set(idx(3));
    assert_eq!(with_low.cmp(&late_tail), Ordering::Greater);
    assert_eq!(with_low.cmp(&early_tail), Ordering::Less);
}

#[test]
fn order_agrees_with_a_scan_from_the_top() {
    fn expected(a: &Bitmap, b: &Bitmap) -> Ordering {
        match (a.weight().is_none(), b.weight().is_none()) {
            (true, false) => return Ordering::Greater,
            (false, true) => return Ordering::Less,
            _ => {}
        }
        for i in [MAX, MAX - 1].into_iter().chain((0..200).rev()) {
            match (a.is_set(idx(i)), b.is_set(idx(i))) {
                (true, false) => return Ordering::Greater,
                (false, true) => return Ordering::Less,
                _ => continue,
            }
        }
        Ordering::Equal
    }
    for a in samples() {
        for b in samples() {
            if a.to_string() == "2147483647" || b.to_string() == "2147483647" {
                continue;
            }
            assert_eq!(a.cmp(&b), expected(&a, &b), "{:?} against {:?}", a, b);
            assert_eq!(a == b, a.cmp(&b) == Ordering::Equal);
            assert_eq!(a == b, a.includes(&b) && b.includes(&a));
        }
    }
}

#[test]
fn iteration_over_set_indices() {
    let bitmap = Bitmap::from_range(inclusive(12, 21));
    let indices = values(bitmap.iter_set().take(usize::MAX));
    assert_eq!(indices, &[12, 13, 14, 15, 16, 17, 18, 19, 20, 21]);
    assert_eq!(values(bitmap.set_indices()), indices);

    let spread = Bitmap::from_indices(&[idx(0), idx(2), idx(3), idx(100)]);
    let mut iter = spread.iter_set();
    assert_eq!(iter.next(), Some(idx(0)));
    assert_eq!(iter.next(), Some(idx(2)));
    assert_eq!(iter.next(), Some(idx(3)));
    assert_eq!(iter.next(), Some(idx(100)));
    assert_eq!(iter.next(), None);
    assert_eq!(iter.next(), None);
    assert_eq!(iter.next(), None);

    assert_eq!(spread.next_set(None), Some(idx(0)));
    assert_eq!(spread.next_set(Some(idx(0))), Some(idx(2)));
    assert_eq!(spread.next_set(Some(idx(3))), Some(idx(100)));
    assert_eq!(spread.next_set(Some(idx(100))), None);
    assert_eq!(spread.next_set(Some(idx(MAX))), None);
    assert_eq!(spread.next_unset(None), Some(idx(1)));
    assert_eq!(spread.next_unset(Some(idx(1))), Some(idx(4)));
    assert_eq!(spread.next_unset(Some(idx(MAX))), None);
}

#[test]
fn iteration_over_unset_indices() {
    let bitmap = Bitmap::from_range(from(12));
    let indices = values(bitmap.iter_unset().take(usize::MAX));
    assert_eq!(indices, &[0, 1, 2, 3, 4, 5, 6, 7, 8, 9, 10, 11]);

    let mut iter = bitmap.iter_unset();
    assert_eq!(iter.take(5).len(), 5);
    assert_eq!(values(iter.take(100)), &[5, 6, 7, 8, 9, 10, 11]);
    assert_eq!(iter.next(), None);
    assert_eq!(iter.take(3).len(), 0);
}

#[test]
fn iteration_over_an_infinite_direction_is_capped_by_the_caller() {
    let bitmap = Bitmap::from_range(from(1000));
    let mut iter = bitmap.iter_set();
    let first = values(iter.take(INFINITE_EXPLORE_ITERS));
    assert_eq!(first.len(), INFINITE_EXPLORE_ITERS);
    for (k, i) in first.into_iter().enumerate() {
        assert_eq!(i, 1000 + k);
    }
    assert_eq!(iter.next(), Some(idx(1000 + 64)));

    let top = Bitmap::from_range(from(MAX - 2));
    assert_eq!(
        values(top.iter_set().take(10)),
        &[MAX as usize - 2, MAX as usize - 1, MAX as usize]
    );
    let mut iter = top.iter_set();
    iter.take(3);
    assert_eq!(iter.next(), None);
    assert_eq!(iter.next(), None);
}

#[test]
fn clone_is_independent() {
    let source = Bitmap::from_range(inclusive(1, 3));
    let mut copy = source.clone();
    copy.set(idx(9));
    assert_eq!(source.to_string(), "1-3");
    assert_eq!(copy.to_string(), "1-3,9");
    assert_ne!(source, copy);
}

#[test]
fn raw_storage_round_trip() {
    let bitmap = Bitmap::from_range(inclusive(4, 8));
    let raw = bitmap.clone().into_raw();
    let view = Bitmap::borrow_from_raw(&raw);
    assert_eq!(view.to_string(), "4-8");
    assert_eq!(view.weight(), Some(5));
    let back = Bitmap::from_owned_raw(raw.clone());
    assert_eq!(back, bitmap);
    assert_eq!(Bitmap::as_raw(&back).text(), "4-8");
}
