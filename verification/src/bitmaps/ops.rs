//! Operators on bitmaps.
//!
//! `&`, `|`, `^` and `-` combine two bitmaps into a new one, and `!` inverts
//! a bitmap. Each takes its left operand by reference or by value; the
//! assigning forms, such as `&=`, change the left operand in place.

use super::bitmap::Bitmap;
use super::model::{complement, symmetric_difference};
use super::toggles::SetOp;
use core::ops::{
    BitAnd, BitAndAssign, BitOr, BitOrAssign, BitXor, BitXorAssign, Not, Sub, SubAssign,
};
use vstd::prelude::*;
use vstd::std_specs::ops::{
    BitAndSpecImpl, BitOrSpecImpl, BitXorSpecImpl, NotSpecImpl, SubSpecImpl,
};

verus! {

impl Bitmap {
    /// The bitmap of a pointwise combination of `self` and `rhs`.
    pub fn combined(&self, rhs: &Bitmap, op: SetOp) -> (r: Bitmap)
        ensures
            forall|i: int| r@.contains(i) == op.apply(self@.contains(i), rhs@.contains(i)),
            r.wf(),
    {
        Bitmap::from_owned_raw(self.as_raw().combined(rhs.as_raw(), op))
    }

    /// The bitmap of the indices that `self` lacks.
    pub fn inverted(&self) -> (r: Bitmap)
        ensures
            r@ == complement(self@),
            r.wf(),
    {
        Bitmap::from_owned_raw(self.as_raw().complemented())
    }
}

impl BitAnd<&Bitmap> for &Bitmap {
    type Output = Bitmap;

    /// The indices that are set in both bitmaps.
    fn bitand(self, rhs: &Bitmap) -> (r: Bitmap)
        ensures
            r@ == self@.intersect(rhs@),
            r.wf(),
    {
        let r = self.combined(rhs, SetOp::And);
        assert(r@ =~= self@.intersect(rhs@));
        r
    }
}

impl BitAndSpecImpl<&Bitmap> for &Bitmap {
    /// The result is a new bitmap, which no specification can name as a
    /// value: what it holds is stated on `bitand` itself.
    open spec fn obeys_bitand_spec() -> bool {
        false
    }

    open spec fn bitand_req(self, rhs: &Bitmap) -> bool {
        true
    }

    open spec fn bitand_spec(self, rhs: &Bitmap) -> Bitmap {
        arbitrary()
    }
}

impl BitAnd<&Bitmap> for Bitmap {
    type Output = Bitmap;

    fn bitand(self, rhs: &Bitmap) -> (r: Bitmap)
        ensures
            r@ == self@.intersect(rhs@),
            r.wf(),
    {
        let mut r = self;
        r.bitand_assign(rhs);
        proof {
            use_type_invariant(&r);
        }
        r
    }
}

impl BitAndSpecImpl<&Bitmap> for Bitmap {
    /// The result is a new bitmap, which no specification can name as a
    /// value: what it holds is stated on `bitand` itself.
    open spec fn obeys_bitand_spec() -> bool {
        false
    }

    open spec fn bitand_req(self, rhs: &Bitmap) -> bool {
        true
    }

    open spec fn bitand_spec(self, rhs: &Bitmap) -> Bitmap {
        arbitrary()
    }
}

impl BitAndAssign<&Bitmap> for Bitmap {
    fn bitand_assign(&mut self, rhs: &Bitmap)
        ensures
            final(self)@ == old(self)@.intersect(rhs@),
    {
        let r = self.combined(rhs, SetOp::And);
        assert(r@ =~= self@.intersect(rhs@));
        *self = r;
    }
}

impl BitOr<&Bitmap> for &Bitmap {
    type Output = Bitmap;

    /// The indices that are set in either bitmap.
    fn bitor(self, rhs: &Bitmap) -> (r: Bitmap)
        ensures
            r@ == self@.union(rhs@),
            r.wf(),
    {
        let r = self.combined(rhs, SetOp::Or);
        assert(r@ =~= self@.union(rhs@));
        r
    }
}

impl BitOrSpecImpl<&Bitmap> for &Bitmap {
    /// The result is a new bitmap, which no specification can name as a
    /// value: what it holds is stated on `bitor` itself.
    open spec fn obeys_bitor_spec() -> bool {
        false
    }

    open spec fn bitor_req(self, rhs: &Bitmap) -> bool {
        true
    }

    open spec fn bitor_spec(self, rhs: &Bitmap) -> Bitmap {
        arbitrary()
    }
}

impl BitOr<&Bitmap> for Bitmap {
    type Output = Bitmap;

    fn bitor(self, rhs: &Bitmap) -> (r: Bitmap)
        ensures
            r@ == self@.union(rhs@),
            r.wf(),
    {
        let mut r = self;
        r.bitor_assign(rhs);
        proof {
            use_type_invariant(&r);
        }
        r
    }
}

impl BitOrSpecImpl<&Bitmap> for Bitmap {
    /// The result is a new bitmap, which no specification can name as a
    /// value: what it holds is stated on `bitor` itself.
    open spec fn obeys_bitor_spec() -> bool {
        false
    }

    open spec fn bitor_req(self, rhs: &Bitmap) -> bool {
        true
    }

    open spec fn bitor_spec(self, rhs: &Bitmap) -> Bitmap {
        arbitrary()
    }
}

impl BitOrAssign<&Bitmap> for Bitmap {
    fn bitor_assign(&mut self, rhs: &Bitmap)
        ensures
            final(self)@ == old(self)@.union(rhs@),
    {
        let r = self.combined(rhs, SetOp::Or);
        assert(r@ =~= self@.union(rhs@));
        *self = r;
    }
}

impl BitXor<&Bitmap> for &Bitmap {
    type Output = Bitmap;

    /// The indices that are set in exactly one of the bitmaps.
    fn bitxor(self, rhs: &Bitmap) -> (r: Bitmap)
        ensures
            r@ == symmetric_difference(self@, rhs@),
            r.wf(),
    {
        let r = self.combined(rhs, SetOp::Xor);
        assert(r@ =~= symmetric_difference(self@, rhs@));
        r
    }
}

impl BitXorSpecImpl<&Bitmap> for &Bitmap {
    /// The result is a new bitmap, which no specification can name as a
    /// value: what it holds is stated on `bitxor` itself.
    open spec fn obeys_bitxor_spec() -> bool {
        false
    }

    open spec fn bitxor_req(self, rhs: &Bitmap) -> bool {
        true
    }

    open spec fn bitxor_spec(self, rhs: &Bitmap) -> Bitmap {
        arbitrary()
    }
}

impl BitXor<&Bitmap> for Bitmap {
    type Output = Bitmap;

    fn bitxor(self, rhs: &Bitmap) -> (r: Bitmap)
        ensures
            r@ == symmetric_difference(self@, rhs@),
            r.wf(),
    {
        let mut r = self;
        r.bitxor_assign(rhs);
        proof {
            use_type_invariant(&r);
        }
        r
    }
}

impl BitXorSpecImpl<&Bitmap> for Bitmap {
    /// The result is a new bitmap, which no specification can name as a
    /// value: what it holds is stated on `bitxor` itself.
    open spec fn obeys_bitxor_spec() -> bool {
        false
    }

    open spec fn bitxor_req(self, rhs: &Bitmap) -> bool {
        true
    }

    open spec fn bitxor_spec(self, rhs: &Bitmap) -> Bitmap {
        arbitrary()
    }
}

impl BitXorAssign<&Bitmap> for Bitmap {
    fn bitxor_assign(&mut self, rhs: &Bitmap)
        ensures
            final(self)@ == symmetric_difference(old(self)@, rhs@),
    {
        let r = self.combined(rhs, SetOp::Xor);
        assert(r@ =~= symmetric_difference(self@, rhs@));
        *self = r;
    }
}

impl Sub<&Bitmap> for &Bitmap {
    type Output = Bitmap;

    /// The indices that are set in `self` and not in `rhs`.
    fn sub(self, rhs: &Bitmap) -> (r: Bitmap)
        ensures
            r@ == self@.difference(rhs@),
            r.wf(),
    {
        let r = self.combined(rhs, SetOp::AndNot);
        assert(r@ =~= self@.difference(rhs@));
        r
    }
}

impl SubSpecImpl<&Bitmap> for &Bitmap {
    /// The result is a new bitmap, which no specification can name as a
    /// value: what it holds is stated on `sub` itself.
    open spec fn obeys_sub_spec() -> bool {
        false
    }

    open spec fn sub_req(self, rhs: &Bitmap) -> bool {
        true
    }

    open spec fn sub_spec(self, rhs: &Bitmap) -> Bitmap {
        arbitrary()
    }
}

impl Sub<&Bitmap> for Bitmap {
    type Output = Bitmap;

    fn sub(self, rhs: &Bitmap) -> (r: Bitmap)
        ensures
            r@ == self@.difference(rhs@),
            r.wf(),
    {
        let mut r = self;
        r.sub_assign(rhs);
        proof {
            use_type_invariant(&r);
        }
        r
    }
}

impl SubSpecImpl<&Bitmap> for Bitmap {
    /// The result is a new bitmap, which no specification can name as a
    /// value: what it holds is stated on `sub` itself.
    open spec fn obeys_sub_spec() -> bool {
        false
    }

    open spec fn sub_req(self, rhs: &Bitmap) -> bool {
        true
    }

    open spec fn sub_spec(self, rhs: &Bitmap) -> Bitmap {
        arbitrary()
    }
}

impl SubAssign<&Bitmap> for Bitmap {
    fn sub_assign(&mut self, rhs: &Bitmap)
        ensures
            final(self)@ == old(self)@.difference(rhs@),
    {
        let r = self.combined(rhs, SetOp::AndNot);
        assert(r@ =~= self@.difference(rhs@));
        *self = r;
    }
}

impl Not for &Bitmap {
    type Output = Bitmap;

    /// The indices that are not set in `self`.
    fn not(self) -> (r: Bitmap)
        ensures
            r@ == complement(self@),
            r.wf(),
    {
        self.inverted()
    }
}

impl NotSpecImpl for &Bitmap {
    /// The result is a new bitmap, which no specification can name as a
    /// value: what it holds is stated on `not` itself.
    open spec fn obeys_not_spec() -> bool {
        false
    }

    open spec fn not_req(self) -> bool {
        true
    }

    open spec fn not_spec(self) -> Bitmap {
        arbitrary()
    }
}

impl Not for Bitmap {
    type Output = Bitmap;

    fn not(self) -> (r: Bitmap)
        ensures
            r@ == complement(self@),
            r.wf(),
    {
        let mut r = self;
        r.invert();
        proof {
            use_type_invariant(&r);
        }
        r
    }
}

impl NotSpecImpl for Bitmap {
    /// The result is a new bitmap, which no specification can name as a
    /// value: what it holds is stated on `not` itself.
    open spec fn obeys_not_spec() -> bool {
        false
    }

    open spec fn not_req(self) -> bool {
        true
    }

    open spec fn not_spec(self) -> Bitmap {
        arbitrary()
    }
}

} // verus!
