use hwlocality::bitmaps::{Bitmap, BitmapIndex, Bound, IndexRange};
use quickcheck::{Arbitrary, Gen};

const MAX: u32 = 0x7fff_ffff;
const ROUNDS: usize = 200;

fn idx(value: u32) -> BitmapIndex {
    BitmapIndex::try_from_c_uint(value).unwrap()
}

fn from(lo: u32) -> IndexRange {
    IndexRange::new(Bound::Included(idx(lo)), Bound::Unbounded)
}

#[test]
fn parts_make_a_finite_bitmap() {
    let parts = [idx(4), idx(1), idx(9), idx(4)];
    let bitmap = Bitmap::from_parts(&parts, false);
    assert_eq!(bitmap.to_string(), "1,4,9");
    assert_eq!(bitmap.weight(), Some(3));
    assert!(Bitmap::from_parts(&[], false).is_empty());
}

#[test]
fn parts_are_extended_from_the_last_index() {
    let parts = [idx(4), idx(1), idx(9), idx(4)];
    let bitmap = Bitmap::from_parts(&parts, true);
    assert_eq!(bitmap.to_string(), "1,4,9-");
    assert_eq!(bitmap.weight(), None);
    assert!(Bitmap::from_parts(&[], true).is_full());
    assert_eq!(Bitmap::from_parts(&[idx(MAX)], true).to_string(), "2147483647-");
}

#[test]
fn finite_part_takes_the_tail_off() {
    let finite = Bitmap::from_indices(&[idx(1), idx(4), idx(9)]);
    assert_eq!(finite.finite_part(), finite);
    let mut infinite = finite.clone();
    infinite.set_range(from(20));
    assert_eq!(infinite.finite_part(), finite);
    assert!(Bitmap::full().finite_part().is_empty());
    assert!(Bitmap::new().finite_part().is_empty());
    assert_eq!(Bitmap::from_range(from(1)).finite_part().to_string(), "");
    let mut joined = Bitmap::from_range(from(9));
    joined.set(idx(1));
    assert_eq!(joined.finite_part().to_string(), "1");
}

#[test]
fn random_indices_are_in_range() {
    let mut g = Gen::new(50);
    for _ in 0..ROUNDS {
        let drawn = BitmapIndex::arbitrary(&mut g);
        assert!(drawn.into_c_uint() <= MAX);
        assert_eq!(BitmapIndex::try_from_c_uint(drawn.into_c_uint()), Ok(drawn));
    }
}

#[test]
fn random_bitmaps_of_size_zero_have_no_finite_part() {
    let mut g = Gen::new(0);
    for _ in 0..20 {
        let bitmap = Bitmap::arbitrary(&mut g);
        assert!(bitmap.is_empty() || bitmap.is_full());
    }
}

#[test]
fn random_bitmaps_are_of_both_kinds() {
    let mut g = Gen::new(30);
    let mut finite = 0;
    let mut infinite = 0;
    for _ in 0..ROUNDS {
        let bitmap = Bitmap::arbitrary(&mut g);
        match bitmap.weight() {
            Some(weight) => {
                finite += 1;
                assert!(weight < 30);
                assert_eq!(bitmap.set_indices().len(), weight);
                assert_eq!(bitmap.last_unset(), None);
            }
            None => {
                infinite += 1;
                assert_eq!(bitmap.last_set(), None);
            }
        }
    }
    assert!(finite > 0);
    assert!(infinite > 0);
}

#[test]
fn random_bitmaps_obey_the_laws() {
    let mut g = Gen::new(20);
    let empty = Bitmap::new();
    for _ in 0..ROUNDS {
        let a = Bitmap::arbitrary(&mut g);
        let b = Bitmap::arbitrary(&mut g);
        assert_eq!(!!a.clone(), a);
        assert_eq!(!(&a & &b), &!&a | &!&b);
        assert_eq!(!(&a | &b), &!&a & &!&b);
        assert!(a.includes(&empty));
        assert!(!a.intersects(&empty));
        assert_eq!(&(&a | &b) - &(&a & &b), &a ^ &b);
        assert_eq!(&a - &b, &a & &!&b);
        assert_eq!(a == b, a.includes(&b) && b.includes(&a));
        assert_eq!(a.cmp(&b), b.cmp(&a).reverse());
        assert_eq!(a.first_set(), a.iter_set().next());
        assert_eq!(a.first_unset(), a.iter_unset().next());
        assert_eq!(a.is_empty(), a.weight() == Some(0));
        assert_eq!(a.clone(), a);
    }
}

#[test]
fn random_bitmaps_render_their_runs() {
    let mut g = Gen::new(20);
    for _ in 0..ROUNDS {
        let bitmap = Bitmap::arbitrary(&mut g);
        let mut rebuilt = Bitmap::new();
        let text = bitmap.to_string();
        if !text.is_empty() {
            for token in text.split(',') {
                let range = match token.split_once('-') {
                    None => {
                        let only = idx(token.parse().unwrap());
                        IndexRange::new(Bound::Included(only), Bound::Included(only))
                    }
                    Some((lo, "")) => {
                        IndexRange::new(Bound::Included(idx(lo.parse().unwrap())), Bound::Unbounded)
                    }
                    Some((lo, hi)) => {
                        let (lo, hi): (u32, u32) = (lo.parse().unwrap(), hi.parse().unwrap());
                        assert!(lo < hi);
                        IndexRange::new(Bound::Included(idx(lo)), Bound::Included(idx(hi)))
                    }
                };
                // Runs are maximal and ascending: each starts after a gap.
                if let (Some(last), Some(first)) =
                    (rebuilt.last_set(), Bitmap::from_range(range).first_set())
                {
                    assert!(first.into_c_uint() > last.into_c_uint() + 1);
                }
                assert_eq!(rebuilt.weight().is_some(), true);
                rebuilt.set_range(range);
            }
        }
        assert_eq!(rebuilt, bitmap);
    }
}

#[test]
fn shrinking_proposes_finite_bitmaps() {
    let mut g = Gen::new(20);
    for _ in 0..50 {
        let bitmap = Bitmap::arbitrary(&mut g);
        let finite = bitmap.finite_part();
        let proposals = bitmap.shrink();
        assert_eq!(proposals.is_empty(), finite.is_empty());
        for smaller in &proposals {
            assert!(smaller.weight().is_some());
            assert!(smaller.weight() <= finite.weight());
        }
        if !finite.is_empty() {
            assert!(proposals[0].is_empty());
        }
    }
}

#[test]
fn shrinking_a_known_bitmap() {
    let mut bitmap = Bitmap::from_parts(&[idx(3), idx(8)], false);
    bitmap.set_range(from(20));
    let proposals: Vec<String> = bitmap.shrink().iter().map(Bitmap::to_string).collect();
    assert_eq!(proposals[0], "");
    assert!(proposals.contains(&"3".to_string()));
    assert!(proposals.contains(&"8".to_string()));
    assert!(proposals.iter().all(|text| !text.ends_with('-')));
    // The tail of a bitmap that was extended from its last index starts at
    // that index, which is lost with it.
    let extended = Bitmap::from_parts(&[idx(3), idx(8)], true);
    let proposals: Vec<String> = extended.shrink().iter().map(Bitmap::to_string).collect();
    assert_eq!(proposals, vec!["", "0", "2"]);
    assert!(Bitmap::new().shrink().is_empty());
    assert!(Bitmap::full().shrink().is_empty());
}

#[test]
fn the_seed_lists_the_finite_part() {
    let mut bitmap = Bitmap::from_parts(&[idx(8), idx(3), idx(4)], false);
    assert_eq!(bitmap.shrink_seed(), vec![3, 4, 8]);
    bitmap.set_range(from(20));
    assert_eq!(bitmap.shrink_seed(), vec![3, 4, 8]);
    assert_eq!(Bitmap::from_range(from(4)).shrink_seed(), Vec::<u32>::new());
    assert_eq!(Bitmap::full().shrink_seed(), Vec::<u32>::new());
    assert_eq!(Bitmap::new().shrink_seed(), Vec::<u32>::new());
    assert_eq!(Bitmap::from(idx(MAX)).shrink_seed(), vec![MAX]);
}

#[test]
fn drawn_lists_make_finite_bitmaps() {
    assert_eq!(Bitmap::from_draws(&vec![5, 2, 5, 3]).to_string(), "2-3,5");
    assert_eq!(Bitmap::from_draws(&vec![MAX + 1, MAX + 3]).to_string(), "0,2");
    assert!(Bitmap::from_draws(&vec![]).is_empty());

    let lists = vec![vec![], vec![7], vec![1, 2, 9], vec![u32::MAX]];
    let texts: Vec<String> = Bitmap::from_shrunk(&lists)
        .iter()
        .map(Bitmap::to_string)
        .collect();
    assert_eq!(texts, vec!["", "7", "1-2,9", "2147483647"]);
    assert!(Bitmap::from_shrunk(&vec![]).is_empty());
}

#[test]
fn shrinking_follows_the_shrinker_of_lists() {
    let mut g = Gen::new(20);
    for _ in 0..50 {
        let bitmap = Bitmap::arbitrary(&mut g);
        let seed = bitmap.shrink_seed();
        assert_eq!(
            seed,
            bitmap
                .finite_part()
                .set_indices()
                .into_iter()
                .map(BitmapIndex::into_c_uint)
                .collect::<Vec<u32>>()
        );
        let lists: Vec<Vec<u32>> = seed.shrink().collect();
        assert_eq!(bitmap.shrink(), Bitmap::from_shrunk(&lists));
        assert_eq!(bitmap.shrink().len(), lists.len());
    }
}
