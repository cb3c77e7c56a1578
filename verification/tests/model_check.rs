use hwlocality::bitmaps::{Bitmap, BitmapIndex, Bound, IndexRange};
use quickcheck::{Arbitrary, Gen};
use std::cmp::Ordering;
use std::collections::BTreeSet;

// A plain model of a bitmap: the members below `SPAN`, and whether every
// index from `SPAN` upward is a member.
const SPAN: u32 = 96;
const ROUNDS: usize = 300;

#[derive(Clone, Debug, PartialEq)]
struct Model {
    low: BTreeSet<u32>,
    tail: bool,
}

impl Model {
    fn has(&self, i: u32) -> bool {
        if i < SPAN {
            self.low.contains(&i)
        } else {
            self.tail
        }
    }

    fn build(members: impl Fn(u32) -> bool, tail: bool) -> Model {
        Model {
            low: (0..SPAN).filter(|&i| members(i)).collect(),
            tail,
        }
    }

    fn text(&self) -> String {
        let mut tokens = Vec::new();
        let mut i = 0;
        while i < SPAN {
            if !self.has(i) {
                i += 1;
                continue;
            }
            let start = i;
            while i < SPAN && self.has(i) {
                i += 1;
            }
            if i == SPAN && self.tail {
                tokens.push(format!("{start}-"));
                return tokens.join(",");
            }
            if i - 1 == start {
                tokens.push(format!("{start}"));
            } else {
                tokens.push(format!("{start}-{}", i - 1));
            }
        }
        if self.tail {
            tokens.push(format!("{SPAN}-"));
        }
        tokens.join(",")
    }

    fn order(&self, other: &Model) -> Ordering {
        match (self.tail, other.tail) {
            (true, false) => return Ordering::Greater,
            (false, true) => return Ordering::Less,
            _ => {}
        }
        for i in (0..SPAN).rev() {
            match (self.has(i), other.has(i)) {
                (true, false) => return Ordering::Greater,
                (false, true) => return Ordering::Less,
                _ => {}
            }
        }
        Ordering::Equal
    }
}

fn idx(value: u32) -> BitmapIndex {
    BitmapIndex::try_from_c_uint(value).unwrap()
}

fn random_pair(g: &mut Gen) -> (Model, Bitmap) {
    let mut model = Model {
        low: BTreeSet::new(),
        tail: bool::arbitrary(g),
    };
    let mut bitmap = Bitmap::new();
    if model.tail {
        bitmap.set_range(IndexRange::from(idx(SPAN)));
    }
    // A few runs and a few lone indices.
    for _ in 0..(u8::arbitrary(g) % 5) {
        let lo = u32::arbitrary(g) % SPAN;
        let hi = (lo + u32::arbitrary(g) % 12).min(SPAN - 1);
        for i in lo..=hi {
            model.low.insert(i);
        }
        bitmap.set_range(IndexRange::inclusive(idx(lo), idx(hi)));
    }
    for _ in 0..(u8::arbitrary(g) % 5) {
        let i = u32::arbitrary(g) % SPAN;
        model.low.insert(i);
        bitmap.set(idx(i));
    }
    for _ in 0..(u8::arbitrary(g) % 3) {
        let i = u32::arbitrary(g) % SPAN;
        model.low.remove(&i);
        bitmap.unset(idx(i));
    }
    (model, bitmap)
}

fn agree(model: &Model, bitmap: &Bitmap) {
    for i in 0..SPAN + 8 {
        assert_eq!(bitmap.is_set(idx(i)), model.has(i), "index {i} of {bitmap:?}");
    }
    assert_eq!(bitmap.weight().is_none(), model.tail);
    assert_eq!(bitmap.to_string(), model.text());
}

#[test]
fn queries_agree_with_the_model() {
    let mut g = Gen::new(10);
    for _ in 0..ROUNDS {
        let (model, bitmap) = random_pair(&mut g);
        agree(&model, &bitmap);

        let first_set = (0..SPAN + 1).find(|&i| model.has(i));
        let first_unset = (0..SPAN + 1).find(|&i| !model.has(i));
        assert_eq!(bitmap.first_set(), first_set.map(idx));
        assert_eq!(bitmap.first_unset(), first_unset.map(idx));
        let last_set = if model.tail {
            None
        } else {
            (0..SPAN).rev().find(|&i| model.has(i))
        };
        let last_unset = if model.tail {
            (0..SPAN).rev().find(|&i| !model.has(i))
        } else {
            None
        };
        assert_eq!(bitmap.last_set(), last_set.map(idx));
        assert_eq!(bitmap.last_unset(), last_unset.map(idx));
        if !model.tail {
            assert_eq!(bitmap.weight(), Some(model.low.len()));
        }
        assert_eq!(bitmap.is_empty(), model.low.is_empty() && !model.tail);
        assert_eq!(bitmap.is_full(), model.low.len() == SPAN as usize && model.tail);

        let set: Vec<u32> = bitmap
            .iter_set()
            .take(SPAN as usize + 5)
            .into_iter()
            .map(BitmapIndex::into_c_uint)
            .collect();
        let expected: Vec<u32> = (0..SPAN + 1000)
            .filter(|&i| model.has(i))
            .take(SPAN as usize + 5)
            .collect();
        assert_eq!(set, expected);
        let unset: Vec<u32> = bitmap
            .iter_unset()
            .take(SPAN as usize + 5)
            .into_iter()
            .map(BitmapIndex::into_c_uint)
            .collect();
        let expected: Vec<u32> = (0..SPAN + 1000)
            .filter(|&i| !model.has(i))
            .take(SPAN as usize + 5)
            .collect();
        assert_eq!(unset, expected);

        for prev in 0..SPAN {
            let next_set = (prev + 1..SPAN + 1).find(|&i| model.has(i));
            let next_unset = (prev + 1..SPAN + 1).find(|&i| !model.has(i));
            assert_eq!(bitmap.next_set(Some(idx(prev))), next_set.map(idx));
            assert_eq!(bitmap.next_unset(Some(idx(prev))), next_unset.map(idx));
        }
    }
}

#[test]
fn operators_agree_with_the_model() {
    let mut g = Gen::new(10);
    for _ in 0..ROUNDS {
        let (ma, a) = random_pair(&mut g);
        let (mb, b) = random_pair(&mut g);

        agree(
            &Model::build(|i| ma.has(i) && mb.has(i), ma.tail && mb.tail),
            &(&a & &b),
        );
        agree(
            &Model::build(|i| ma.has(i) || mb.has(i), ma.tail || mb.tail),
            &(&a | &b),
        );
        agree(
            &Model::build(|i| ma.has(i) != mb.has(i), ma.tail != mb.tail),
            &(&a ^ &b),
        );
        agree(
            &Model::build(|i| ma.has(i) && !mb.has(i), ma.tail && !mb.tail),
            &(&a - &b),
        );
        agree(&Model::build(|i| !ma.has(i), !ma.tail), &!&a);

        let common = (0..SPAN + 1).any(|i| ma.has(i) && mb.has(i));
        assert_eq!(a.intersects(&b), common);
        let inside = (0..SPAN + 1).all(|i| !mb.has(i) || ma.has(i));
        assert_eq!(a.includes(&b), inside);
        assert_eq!(a == b, ma == mb);
        assert_eq!(a.cmp(&b), ma.order(&mb));
        assert_eq!(a.partial_cmp(&b), Some(ma.order(&mb)));
        assert_eq!(a < b, ma.order(&mb) == Ordering::Less);
    }
}

#[test]
fn setters_agree_with_the_model() {
    let mut g = Gen::new(10);
    for _ in 0..ROUNDS {
        let (model, bitmap) = random_pair(&mut g);
        let at = u32::arbitrary(&mut g) % (SPAN + 4);
        let lo = u32::arbitrary(&mut g) % SPAN;
        let hi = u32::arbitrary(&mut g) % SPAN;

        let mut changed = bitmap.clone();
        changed.set(idx(at));
        if at < SPAN {
            agree(&Model::build(|i| i == at || model.has(i), model.tail), &changed);
        }
        assert!(changed.is_set(idx(at)));
        assert_eq!(
            changed.weight(),
            bitmap.weight().map(|w| w + !bitmap.is_set(idx(at)) as usize)
        );

        let mut changed = bitmap.clone();
        changed.unset(idx(at));
        if at < SPAN {
            agree(&Model::build(|i| i != at && model.has(i), model.tail), &changed);
        }
        assert!(!changed.is_set(idx(at)));
        assert_eq!(
            changed.weight(),
            bitmap.weight().map(|w| w - bitmap.is_set(idx(at)) as usize)
        );

        let mut changed = bitmap.clone();
        changed.set_only(idx(at));
        assert_eq!(changed, Bitmap::from(idx(at)));
        assert_eq!(changed.weight(), Some(1));

        let mut changed = bitmap.clone();
        changed.set_all_but(idx(at));
        assert_eq!(changed, !Bitmap::from(idx(at)));

        for (start, end) in [
            (Bound::Included(idx(lo)), Bound::Included(idx(hi))),
            (Bound::Included(idx(lo)), Bound::Excluded(idx(hi))),
            (Bound::Excluded(idx(lo)), Bound::Included(idx(hi))),
            (Bound::Excluded(idx(lo)), Bound::Excluded(idx(hi))),
            (Bound::Unbounded, Bound::Included(idx(hi))),
            (Bound::Unbounded, Bound::Excluded(idx(hi))),
        ] {
            let covers = |i: u32| {
                (match start {
                    Bound::Included(s) => s.into_c_uint() <= i,
                    Bound::Excluded(s) => s.into_c_uint() < i,
                    Bound::Unbounded => true,
                }) && (match end {
                    Bound::Included(e) => i <= e.into_c_uint(),
                    Bound::Excluded(e) => i < e.into_c_uint(),
                    Bound::Unbounded => true,
                })
            };
            let range = IndexRange::new(start, end);
            let mut changed = bitmap.clone();
            changed.set_range(range);
            agree(&Model::build(|i| covers(i) || model.has(i), model.tail), &changed);
            let mut changed = bitmap.clone();
            changed.unset_range(range);
            agree(&Model::build(|i| !covers(i) && model.has(i), model.tail), &changed);
            agree(&Model::build(covers, false), &Bitmap::from_range(range));
        }

        for start in [Bound::Included(idx(lo)), Bound::Excluded(idx(lo))] {
            let begin = match start {
                Bound::Included(_) => lo,
                _ => lo + 1,
            };
            let range = IndexRange::new(start, Bound::Unbounded);
            let mut changed = bitmap.clone();
            changed.set_range(range);
            agree(&Model::build(|i| i >= begin || model.has(i), true), &changed);
            let mut changed = bitmap.clone();
            changed.unset_range(range);
            agree(&Model::build(|i| i < begin && model.has(i), false), &changed);
        }

        let mut changed = bitmap.clone();
        changed.invert();
        agree(&Model::build(|i| !model.has(i), !model.tail), &changed);

        let mut changed = bitmap.clone();
        changed.singlify();
        match (0..SPAN + 1).find(|&i| model.has(i)) {
            Some(first) => assert_eq!(changed, Bitmap::from(idx(first))),
            None => assert!(changed.is_empty()),
        }
    }
}
