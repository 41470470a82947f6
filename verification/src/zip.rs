use vstd::prelude::*;

verus! {

/// Containers that can be combined pairwise with another container of
/// the same length: both are consumed in lockstep, the supplied function
/// combines the elements at each matching position, in ascending index
/// order, and a container of the same length holds the combined results.
///
/// `TRhs` is the element type of the right-hand container and `TTo` the
/// element type of the result.
pub trait Zip<TRhs, TTo>: Sized {
    /// The type of the elements of this (left-hand) container.
    type TLhs;

    /// The right-hand container type, holding `TRhs` elements.
    type TRhsSelf;

    /// The result container type, holding `TTo` elements.
    type TToSelf;

    /// The elements this container holds, in order.
    spec fn lhs_elems(&self) -> Seq<Self::TLhs>;

    /// The elements the right-hand container holds, in order.
    spec fn rhs_elems(rhs: &Self::TRhsSelf) -> Seq<TRhs>;

    /// The elements the combined container holds, in order.
    spec fn out_elems(result: &Self::TToSelf) -> Seq<TTo>;

    /// Apply `f` to each pair of elements at matching positions of `self`
    /// and `rhs`, in ascending index order, and return a container of the
    /// combined results in the same order.
    fn zip_with<F: Fn(Self::TLhs, TRhs) -> TTo>(self, rhs: Self::TRhsSelf, f: F) -> (result:
        Self::TToSelf)
        requires
            self.lhs_elems().len() == Self::rhs_elems(&rhs).len(),
            forall|i: int|
                0 <= i < self.lhs_elems().len() ==> #[trigger] f.requires(
                    (self.lhs_elems()[i], Self::rhs_elems(&rhs)[i]),
                ),
        ensures
            Self::out_elems(&result).len() == self.lhs_elems().len(),
            forall|i: int|
                0 <= i < self.lhs_elems().len() ==> f.ensures(
                    (self.lhs_elems()[i], Self::rhs_elems(&rhs)[i]),
                    #[trigger] Self::out_elems(&result)[i],
                ),
    ;
}

/// Law: zipping two equal-length containers preserves the length and
/// draws on the elements at each matching position exactly once. When
/// every output that `f` can produce on inputs `(x, y)` equals
/// `out(x, y)`, any result meeting the contract of `zip_with` over
/// element sequences `lhs` and `rhs` holds exactly the pointwise
/// combination of `lhs` and `rhs` under `out`.
pub proof fn lemma_zip_with_determined<C: Zip<TRhs, TTo>, TRhs, TTo, F: Fn(C::TLhs, TRhs) -> TTo>(
    f: F,
    out: spec_fn(C::TLhs, TRhs) -> TTo,
    lhs: Seq<C::TLhs>,
    rhs: Seq<TRhs>,
    result: C::TToSelf,
)
    requires
        lhs.len() == rhs.len(),
        forall|x: C::TLhs, y: TRhs, z: TTo| #[trigger] call_ensures(f, (x, y), z) ==> z == out(
            x,
            y,
        ),
        C::out_elems(&result).len() == lhs.len(),
        forall|i: int|
            0 <= i < lhs.len() ==> call_ensures(
                f,
                (lhs[i], rhs[i]),
                #[trigger] C::out_elems(&result)[i],
            ),
    ensures
        C::out_elems(&result) == Seq::new(lhs.len(), |i: int| out(lhs[i], rhs[i])),
{
    assert forall|i: int| 0 <= i < lhs.len() implies C::out_elems(&result)[i] == out(
        lhs[i],
        rhs[i],
    ) by {}
    assert(C::out_elems(&result) =~= Seq::new(lhs.len(), |i: int| out(lhs[i], rhs[i])));
}

/// Zip two `Vec`s of equal length using a function to combine the pairs.
impl<TLhs, TRhs, TTo> Zip<TRhs, TTo> for Vec<TLhs> {
    type TLhs = TLhs;

    type TRhsSelf = Vec<TRhs>;

    type TToSelf = Vec<TTo>;

    open spec fn lhs_elems(&self) -> Seq<TLhs> {
        self@
    }

    open spec fn rhs_elems(rhs: &Vec<TRhs>) -> Seq<TRhs> {
        rhs@
    }

    open spec fn out_elems(result: &Vec<TTo>) -> Seq<TTo> {
        result@
    }

    fn zip_with<F: Fn(TLhs, TRhs) -> TTo>(self, rhs: Vec<TRhs>, f: F) -> (result: Vec<TTo>)
        ensures
            result@.len() == self@.len(),
            forall|i: int|
                0 <= i < self@.len() ==> f.ensures((self@[i], rhs@[i]), #[trigger] result@[i]),
    {
        let ghost lhs_orig = <Vec<TLhs> as Zip<TRhs, TTo>>::lhs_elems(&self);
        let ghost rhs_orig = <Vec<TLhs> as Zip<TRhs, TTo>>::rhs_elems(&rhs);
        let mut lhs_rest = self;
        let mut rhs_rest = rhs;
        let mut result: Vec<TTo> = Vec::with_capacity(lhs_rest.len());
        while lhs_rest.len() > 0
            invariant
                lhs_orig.len() == rhs_orig.len(),
                lhs_orig.len() == result@.len() + lhs_rest@.len(),
                lhs_rest@ == lhs_orig.subrange(result@.len() as int, lhs_orig.len() as int),
                rhs_rest@ == rhs_orig.subrange(result@.len() as int, rhs_orig.len() as int),
                forall|i: int|
                    0 <= i < lhs_orig.len() ==> #[trigger] f.requires((lhs_orig[i], rhs_orig[i])),
                forall|i: int|
                    0 <= i < result@.len() ==> #[trigger] f.ensures(
                        (lhs_orig[i], rhs_orig[i]),
                        result@[i],
                    ),
            decreases lhs_rest@.len(),
        {
            let x = lhs_rest.remove(0);
            let y = rhs_rest.remove(0);
            proof {
                assert(x == lhs_orig[result@.len() as int]);
                assert(y == rhs_orig[result@.len() as int]);
            }
            let z = f(x, y);
            result.push(z);
            proof {
                assert(lhs_rest@ =~= lhs_orig.subrange(result@.len() as int, lhs_orig.len() as int));
                assert(rhs_rest@ =~= rhs_orig.subrange(result@.len() as int, rhs_orig.len() as int));
            }
        }
        result
    }
}

} // verus!
