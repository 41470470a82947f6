use vstd::prelude::*;

use std::collections::VecDeque;

verus! {

/// Containers holding elements that can be mapped over: the container is
/// consumed, the supplied function is applied to each element in
/// ascending index order, and a container of the same shape holds the
/// outputs, in the same order. The output element type `TTo` may differ
/// from the element type being consumed.
pub trait MapOver<TTo>: Sized {
    /// The type of the elements being mapped over.
    type TFrom;

    /// The type of the container after mapping.
    type TOut;

    /// The elements this container holds, in order.
    spec fn src_elems(&self) -> Seq<Self::TFrom>;

    /// The elements a mapped container holds, in order.
    spec fn out_elems(result: &Self::TOut) -> Seq<TTo>;

    /// Apply `f` to each element of this container, in ascending index
    /// order, and return a container of the outputs in the same order.
    fn map<F: Fn(Self::TFrom) -> TTo>(self, f: F) -> (result: Self::TOut)
        requires
            forall|i: int|
                0 <= i < self.src_elems().len() ==> #[trigger] f.requires((self.src_elems()[i],)),
        ensures
            Self::out_elems(&result).len() == self.src_elems().len(),
            forall|i: int|
                0 <= i < self.src_elems().len() ==> f.ensures(
                    (self.src_elems()[i],),
                    #[trigger] Self::out_elems(&result)[i],
                ),
    ;
}

/// Law: mapping preserves the length and shape of the container and
/// draws on every element exactly once. When every output that `f` can
/// produce on input `x` equals `out(x)`, any result meeting the
/// contract of `map` over source elements `src` holds exactly the
/// pointwise image of `src` under `out`, so no element is skipped,
/// repeated or reordered in the result.
pub proof fn lemma_map_determined<C: MapOver<TTo>, TTo, F: Fn(C::TFrom) -> TTo>(
    f: F,
    out: spec_fn(C::TFrom) -> TTo,
    src: Seq<C::TFrom>,
    result: C::TOut,
)
    requires
        forall|x: C::TFrom, y: TTo| #[trigger] call_ensures(f, (x,), y) ==> y == out(x),
        C::out_elems(&result).len() == src.len(),
        forall|i: int|
            0 <= i < src.len() ==> call_ensures(f, (src[i],), #[trigger] C::out_elems(&result)[i]),
    ensures
        C::out_elems(&result) == src.map_values(out),
{
    assert forall|i: int| 0 <= i < src.len() implies C::out_elems(&result)[i] == out(src[i]) by {}
    assert(C::out_elems(&result) =~= src.map_values(out));
}

/// Apply a function to all elements of a `Vec`.
impl<TFrom, TTo> MapOver<TTo> for Vec<TFrom> {
    type TFrom = TFrom;

    type TOut = Vec<TTo>;

    open spec fn src_elems(&self) -> Seq<TFrom> {
        self@
    }

    open spec fn out_elems(result: &Vec<TTo>) -> Seq<TTo> {
        result@
    }

    fn map<F: Fn(TFrom) -> TTo>(self, f: F) -> (result: Vec<TTo>)
        ensures
            result@.len() == self@.len(),
            forall|i: int| 0 <= i < self@.len() ==> f.ensures((self@[i],), #[trigger] result@[i]),
    {
        let ghost orig = <Vec<TFrom> as MapOver<TTo>>::src_elems(&self);
        let mut rest = self;
        let mut result: Vec<TTo> = Vec::with_capacity(rest.len());
        while rest.len() > 0
            invariant
                orig.len() == result@.len() + rest@.len(),
                rest@ == orig.subrange(result@.len() as int, orig.len() as int),
                forall|i: int| 0 <= i < orig.len() ==> #[trigger] f.requires((orig[i],)),
                forall|i: int| 0 <= i < result@.len() ==> #[trigger] f.ensures((orig[i],), result@[i]),
            decreases rest@.len(),
        {
            let x = rest.remove(0);
            proof {
                assert(x == orig[result@.len() as int]);
            }
            let y = f(x);
            result.push(y);
            proof {
                assert(rest@ =~= orig.subrange(result@.len() as int, orig.len() as int));
            }
        }
        result
    }
}

/// Apply a function to all elements of a `VecDeque`.
impl<TFrom, TTo> MapOver<TTo> for VecDeque<TFrom> {
    type TFrom = TFrom;

    type TOut = VecDeque<TTo>;

    open spec fn src_elems(&self) -> Seq<TFrom> {
        self@
    }

    open spec fn out_elems(result: &VecDeque<TTo>) -> Seq<TTo> {
        result@
    }

    fn map<F: Fn(TFrom) -> TTo>(self, f: F) -> (result: VecDeque<TTo>)
        ensures
            result@.len() == self@.len(),
            forall|i: int| 0 <= i < self@.len() ==> f.ensures((self@[i],), #[trigger] result@[i]),
    {
        let ghost orig = <VecDeque<TFrom> as MapOver<TTo>>::src_elems(&self);
        let mut rest = self;
        let mut result: VecDeque<TTo> = VecDeque::with_capacity(rest.len());
        while rest.len() > 0
            invariant
                orig.len() == result@.len() + rest@.len(),
                rest@ == orig.subrange(result@.len() as int, orig.len() as int),
                forall|i: int| 0 <= i < orig.len() ==> #[trigger] f.requires((orig[i],)),
                forall|i: int| 0 <= i < result@.len() ==> #[trigger] f.ensures((orig[i],), result@[i]),
            decreases rest@.len(),
        {
            let x = rest.pop_front().unwrap();
            proof {
                assert(x == orig[result@.len() as int]);
            }
            let y = f(x);
            result.push_back(y);
            proof {
                assert(rest@ =~= orig.subrange(result@.len() as int, orig.len() as int));
            }
        }
        result
    }
}

} // verus!
