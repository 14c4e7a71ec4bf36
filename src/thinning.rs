//! The acceptance step of simulation by thinning: candidates drawn under a
//! constant upper bound are kept where their mark falls below the intensity.
use vstd::prelude::*;
use vstd::std_specs::cmp::PartialOrdSpec;

verus! {

/// `a < b` in the order that the comparison specification of `T` describes.
pub open spec fn lt<T: PartialOrd>(a: T, b: T) -> bool {
    a.partial_cmp_spec(&b) == Some(core::cmp::Ordering::Less)
}

/// A candidate event of a thinning scheme: its time, the mark drawn
/// uniformly below the intensity's upper bound, and the true intensity at
/// that time.
#[derive(Clone, Copy, Debug)]
pub struct Candidate<T> {
    pub time: T,
    pub mark: T,
    pub intensity: T,
}

/// A candidate survives thinning when its mark lies strictly below the
/// intensity at its time.
pub open spec fn accepted<T: PartialOrd>(c: Candidate<T>) -> bool {
    lt(c.mark, c.intensity)
}

/// The `(time, intensity)` records of the accepted candidates, in the order
/// of the candidates.
pub open spec fn thinned<T: PartialOrd>(cs: Seq<Candidate<T>>) -> Seq<(T, T)>
    decreases cs.len(),
{
    if cs.len() == 0 {
        seq![]
    } else {
        let rest = thinned(cs.drop_last());
        let c = cs.last();
        if accepted(c) {
            rest.push((c.time, c.intensity))
        } else {
            rest
        }
    }
}

/// Keeps, in order, the candidates whose mark is below their intensity, as
/// `(time, intensity)` records. A candidate whose intensity is not
/// comparable to its mark is rejected.
pub fn thin<T: PartialOrd + Copy>(candidates: &Vec<Candidate<T>>) -> (r: Vec<(T, T)>)
    ensures
        T::obeys_partial_cmp_spec() ==> r@ == thinned(candidates@),
        r@.len() <= candidates@.len(),
{
    let mut r: Vec<(T, T)> = Vec::new();
    let mut i: usize = 0;
    while i < candidates.len()
        invariant
            i <= candidates@.len(),
            r@.len() <= i,
            T::obeys_partial_cmp_spec() ==> r@ == thinned(candidates@.subrange(0, i as int)),
        decreases candidates@.len() - i,
    {
        let c = candidates[i];
        proof {
            let next = candidates@.subrange(0, i as int + 1);
            assert(next.drop_last() =~= candidates@.subrange(0, i as int));
            assert(next.last() == c);
        }
        if c.mark < c.intensity {
            r.push((c.time, c.intensity));
        }
        i = i + 1;
    }
    assert(candidates@.subrange(0, candidates@.len() as int) =~= candidates@);
    r
}

/// When every mark lies below its intensity (a constant intensity used as
/// its own upper bound, with marks drawn below it), thinning keeps every
/// candidate: the output is the candidates' own records, in order.
pub proof fn dominated_candidates_all_kept<T: PartialOrd>(cs: Seq<Candidate<T>>)
    requires
        forall|i: int| 0 <= i < cs.len() ==> accepted(#[trigger] cs[i]),
    ensures
        thinned(cs) == Seq::new(cs.len(), |i: int| (cs[i].time, cs[i].intensity)),
    decreases cs.len(),
{
    if cs.len() > 0 {
        let init = cs.drop_last();
        assert forall|i: int| 0 <= i < init.len() implies accepted(#[trigger] init[i]) by {
            assert(init[i] == cs[i]);
        }
        dominated_candidates_all_kept(init);
        assert(accepted(cs[cs.len() - 1]));
        assert(thinned(cs) =~= Seq::new(cs.len(), |i: int| (cs[i].time, cs[i].intensity)));
    }
}

/// Positions, in increasing order, of the accepted candidates of `cs`.
pub open spec fn kept_indices<T: PartialOrd>(cs: Seq<Candidate<T>>) -> Seq<int>
    decreases cs.len(),
{
    if cs.len() == 0 {
        seq![]
    } else {
        let rest = kept_indices(cs.drop_last());
        if accepted(cs.last()) {
            rest.push(cs.len() - 1)
        } else {
            rest
        }
    }
}

/// Thinning keeps exactly the accepted candidates, in their order: the k-th
/// record is the record of the k-th accepted candidate, positions increase
/// along the output, and no accepted candidate is left out.
pub proof fn thinning_keeps_accepted_in_order<T: PartialOrd>(cs: Seq<Candidate<T>>)
    ensures
        thinned(cs).len() == kept_indices(cs).len(),
        forall|k: int|
            0 <= k < kept_indices(cs).len() ==> {
                let i = #[trigger] kept_indices(cs)[k];
                &&& 0 <= i < cs.len()
                &&& accepted(cs[i])
                &&& thinned(cs)[k] == (cs[i].time, cs[i].intensity)
            },
        forall|k1: int, k2: int|
            0 <= k1 < k2 < kept_indices(cs).len() ==> #[trigger] kept_indices(cs)[k1]
                < #[trigger] kept_indices(cs)[k2],
        forall|i: int|
            0 <= i < cs.len() && accepted(#[trigger] cs[i]) ==> kept_indices(cs).contains(i),
    decreases cs.len(),
{
    if cs.len() > 0 {
        let init = cs.drop_last();
        thinning_keeps_accepted_in_order(init);
        let ki = kept_indices(init);
        let k = kept_indices(cs);
        assert forall|j: int| 0 <= j < ki.len() implies ki[j] < cs.len() - 1 && cs[ki[j]]
            == init[ki[j]] by {
            let i = ki[j];
            assert(0 <= i < init.len());
        }
        assert forall|i: int| 0 <= i < cs.len() && accepted(#[trigger] cs[i]) implies k.contains(
            i,
        ) by {
            if i < cs.len() - 1 {
                assert(init[i] == cs[i]);
                assert(ki.contains(i));
                let j = choose|j: int| 0 <= j < ki.len() && ki[j] == i;
                assert(k[j] == i);
            } else {
                assert(cs.last() == cs[i]);
                assert(k[k.len() - 1] == i);
            }
        }
    }
}

} // verus!
