//! Axis-aligned hyperrectangles: the regions on which spatial processes are
//! sampled by rejection.
use vstd::prelude::*;
use vstd::std_specs::cmp::PartialOrdSpec;

use crate::error::ProcessError;

verus! {

/// `a <= b` in the order that the comparison specification of `T` describes.
pub open spec fn le<T: PartialOrd>(a: T, b: T) -> bool {
    a.partial_cmp_spec(&b) matches Some(core::cmp::Ordering::Less | core::cmp::Ordering::Equal)
}

/// Every coordinate of `low` lies at or below the matching coordinate of `high`.
pub open spec fn corners_ordered<T: PartialOrd>(low: Seq<T>, high: Seq<T>) -> bool {
    &&& low.len() == high.len()
    &&& forall|i: int| 0 <= i < low.len() ==> le(#[trigger] low[i], high[i])
}

/// The point `p` lies in the closed box spanned by `low` and `high`.
pub open spec fn in_box<T: PartialOrd>(low: Seq<T>, high: Seq<T>, p: Seq<T>) -> bool {
    &&& p.len() == low.len()
    &&& p.len() == high.len()
    &&& forall|i: int| 0 <= i < p.len() ==> le(low[i], #[trigger] p[i]) && le(p[i], high[i])
}

/// An n-dimensional axis-aligned hyperrectangle, given by its corner with the
/// smallest coordinates (`close`) and the one with the largest (`far`).
pub struct Rectangle<T: PartialOrd + Copy> {
    close: Vec<T>,
    far: Vec<T>,
}

fn copy_coords<T: Copy>(v: &Vec<T>) -> (r: Vec<T>)
    ensures
        r@ == v@,
{
    let mut r: Vec<T> = Vec::new();
    let mut i: usize = 0;
    while i < v.len()
        invariant
            i <= v@.len(),
            r@ == v@.subrange(0, i as int),
        decreases v@.len() - i,
    {
        r.push(v[i]);
        i = i + 1;
    }
    assert(r@ =~= v@);
    r
}

impl<T: PartialOrd + Copy> Rectangle<T> {
    /// The low corner.
    pub closed spec fn low(&self) -> Seq<T> {
        self.close@
    }

    /// The high corner.
    pub closed spec fn high(&self) -> Seq<T> {
        self.far@
    }

    /// Both corners have the same dimension and, where the order of `T` is
    /// specified, the low corner lies below the high one.
    #[verifier::type_invariant]
    pub closed spec fn inv(&self) -> bool {
        &&& self.close@.len() == self.far@.len()
        &&& T::obeys_partial_cmp_spec() ==> corners_ordered(self.close@, self.far@)
    }

    /// Builds the box with corners `close` and `far`; refuses corners of
    /// different dimensions, and corners with some coordinate of `close`
    /// not at or below that of `far`.
    pub fn new(close: Vec<T>, far: Vec<T>) -> (r: Result<Rectangle<T>, ProcessError>)
        ensures
            close@.len() != far@.len() ==> r == Err::<Rectangle<T>, ProcessError>(
                ProcessError::InvalidParameter,
            ),
            T::obeys_partial_cmp_spec() ==> (r is Ok <==> corners_ordered(close@, far@)),
            r is Err ==> r == Err::<Rectangle<T>, ProcessError>(ProcessError::InvalidParameter),
            r matches Ok(b) ==> b.low() == close@ && b.high() == far@,
    {
        if close.len() != far.len() {
            return Err(ProcessError::InvalidParameter);
        }
        let mut i: usize = 0;
        while i < close.len()
            invariant
                close@.len() == far@.len(),
                i <= close@.len(),
                T::obeys_partial_cmp_spec() ==> forall|j: int|
                    0 <= j < i ==> le(#[trigger] close@[j], far@[j]),
            decreases close@.len() - i,
        {
            if !(close[i] <= far[i]) {
                return Err(ProcessError::InvalidParameter);
            }
            i = i + 1;
        }
        Ok(Rectangle { close, far })
    }

    /// The dimension of the space the box lives in.
    pub fn dim(&self) -> (r: usize)
        ensures
            r == self.low().len(),
            r == self.high().len(),
    {
        proof {
            use_type_invariant(self);
        }
        self.close.len()
    }

    /// Whether `p` lies in the closed box: a per-coordinate interval test.
    pub fn contains(&self, p: &Vec<T>) -> (r: bool)
        requires
            p@.len() == self.low().len(),
        ensures
            T::obeys_partial_cmp_spec() ==> (r == in_box(self.low(), self.high(), p@)),
    {
        proof {
            use_type_invariant(self);
        }
        let mut i: usize = 0;
        while i < p.len()
            invariant
                p@.len() == self.close@.len(),
                p@.len() == self.far@.len(),
                i <= p@.len(),
                T::obeys_partial_cmp_spec() ==> forall|j: int|
                    0 <= j < i ==> le(self.close@[j], #[trigger] p@[j]) && le(p@[j], self.far@[j]),
            decreases p@.len() - i,
        {
            if !(self.close[i] <= p[i] && p[i] <= self.far[i]) {
                return false;
            }
            i = i + 1;
        }
        true
    }

    /// The bounding box of the region, as its low and high corners; for a
    /// box these are its own corners.
    pub fn bounding_box(&self) -> (r: (Vec<T>, Vec<T>))
        ensures
            r.0@ == self.low(),
            r.1@ == self.high(),
    {
        (copy_coords(&self.close), copy_coords(&self.far))
    }
}

/// The bounding box of a rectangle holds every point that the rectangle
/// contains: a point accepted by `contains` lies between the two corners
/// that `bounding_box` returns.
pub proof fn bounding_box_holds_contained<T: PartialOrd + Copy>(
    rect: Rectangle<T>,
    p: Seq<T>,
    bb_low: Seq<T>,
    bb_high: Seq<T>,
)
    requires
        p.len() == rect.low().len(),
        in_box(rect.low(), rect.high(), p),
        bb_low == rect.low(),
        bb_high == rect.high(),
    ensures
        forall|i: int|
            0 <= i < p.len() ==> le(bb_low[i], #[trigger] p[i]) && le(p[i], bb_high[i]),
{
}

} // verus!
