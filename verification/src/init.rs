use vstd::prelude::*;

verus! {

/// A witness that two types are the same type, together with the
/// conversion that this identity makes possible. The blanket
/// implementation is the only one, so a bound `V: TypeEquals<T>`
/// constrains `V` to be `T`.
pub trait TypeEquals<T>: Sized {
    /// What the conversion returns, seen at the specification level.
    spec fn same(value: T) -> Self;

    /// Convert a value along the type identity, returning it unchanged.
    fn convert(value: T) -> (result: Self)
        ensures
            result == Self::same(value),
    ;
}

impl<T> TypeEquals<T> for T {
    open spec fn same(value: T) -> T {
        value
    }

    fn convert(value: T) -> (result: T)
        ensures
            result == value,
    {
        value
    }
}

/// The stop condition that an open-ended build of a container watches
/// for in the outputs of the supplied function.
///
/// `T` and `V` are the corresponding parameters of [`Init`].
pub trait InitStop<T, V> {
    /// Whether output `y` tells an open-ended build to stop.
    spec fn stops(y: T) -> bool;
}

/// Whether every output that `elem` can produce on index `bound` or any
/// later index tells an open-ended build of `C` to stop.
pub open spec fn exhausted_from<T, V, C: InitStop<T, V>, F: Fn(usize) -> T>(
    elem: F,
    bound: usize,
) -> bool {
    forall|i: usize, y: T| bound <= i && #[trigger] call_ensures(elem, (i,), y) ==> C::stops(y)
}

/// Whether some index exists from which on every output that `elem` can
/// produce tells an open-ended build of `C` to stop, so that such a
/// build terminates.
pub open spec fn eventually_stops<T, V, C: InitStop<T, V>, F: Fn(usize) -> T>(elem: F) -> bool {
    exists|bound: usize| #[trigger] exhausted_from::<T, V, C, F>(elem, bound)
}

/// Containers that can be built by applying a function to each index of
/// the container, in ascending index order starting from 0.
///
/// `T` is the element type the supplied function produces and `V` is the
/// extra value the build consumes (for `Vec`, the requested length).
///
/// A build either makes a number of calls fixed by `value` (`finite`
/// holds, and `may_call` says which indices are used), or keeps calling
/// on successive indices until an output satisfies `stops`.
pub trait Init<T, V>: InitStop<T, V> + Sized {
    /// Whether a build from `value` may call the supplied function on index `i`.
    spec fn may_call(value: V, i: usize) -> bool;

    /// Whether a build from `value` makes finitely many calls no matter
    /// what the supplied function returns.
    spec fn finite(value: V) -> bool;

    /// How many calls a build from `value` that returned `result` made.
    spec fn call_count(value: V, result: &Self) -> int;

    /// The output that the call on index `i` produced, read back from `result`.
    spec fn output_at(result: &Self, i: int) -> T;

    /// How the shape of `result` relates to `value` (for `Vec`, the length
    /// of `result` is exactly the requested one).
    spec fn shape_ok(value: V, result: &Self) -> bool;

    /// Build a container from `value` by calling `elem` once per index,
    /// in ascending index order starting from 0.
    fn init_with<F: Fn(usize) -> T>(value: V, elem: F) -> (result: Self)
        requires
            forall|i: usize| Self::may_call(value, i) ==> #[trigger] elem.requires((i,)),
            Self::finite(value) || eventually_stops::<T, V, Self, F>(elem),
        ensures
            Self::shape_ok(value, &result),
            forall|i: int|
                0 <= i < Self::call_count(value, &result) ==> elem.ensures(
                    ((i as usize),),
                    #[trigger] Self::output_at(&result, i),
                ),
    ;

    /// Build a container by calling `elem` once per index, in ascending
    /// index order starting from 0.
    ///
    /// This is syntax sugar for `init_with` where the build consumes no
    /// extra value.
    fn init<F: Fn(usize) -> T>(elem: F) -> (result: Self) where V: TypeEquals<()>
        requires
            forall|i: usize|
                Self::may_call(V::same(()), i) ==> #[trigger] elem.requires((i,)),
            Self::finite(V::same(())) || eventually_stops::<T, V, Self, F>(elem),
        ensures
            Self::shape_ok(V::same(()), &result),
            forall|i: int|
                0 <= i < Self::call_count(V::same(()), &result) ==> elem.ensures(
                    ((i as usize),),
                    #[trigger] Self::output_at(&result, i),
                ),
    {
        Self::init_with(V::convert(()), elem)
    }
}

impl<T> InitStop<T, usize> for Vec<T> {
    open spec fn stops(y: T) -> bool {
        false
    }
}

/// Build a `Vec` of a requested length from a function applied to each index.
impl<T> Init<T, usize> for Vec<T> {
    open spec fn may_call(value: usize, i: usize) -> bool {
        i < value
    }

    open spec fn finite(value: usize) -> bool {
        true
    }

    open spec fn call_count(value: usize, result: &Self) -> int {
        value as int
    }

    open spec fn output_at(result: &Self, i: int) -> T {
        result@[i]
    }

    open spec fn shape_ok(value: usize, result: &Self) -> bool {
        result@.len() == value
    }

    fn init_with<F: Fn(usize) -> T>(value: usize, elem: F) -> (result: Self)
        ensures
            result@.len() == value,
            forall|i: int|
                0 <= i < value ==> elem.ensures(((i as usize),), #[trigger] result@[i]),
    {
        let mut result: Vec<T> = Vec::with_capacity(value);
        let mut i: usize = 0;
        while i < value
            invariant
                i <= value,
                result@.len() == i,
                forall|j: usize| j < value ==> #[trigger] elem.requires((j,)),
                forall|j: usize| j < i ==> #[trigger] elem.ensures((j,), result@[j as int]),
            decreases value - i,
        {
            let x = elem(i);
            result.push(x);
            i = i + 1;
        }
        result
    }
}

/// Law: a build over length `n` draws on every index below `n` exactly
/// once. When every output that `elem` can produce on index `i` equals
/// `out(i)`, any result meeting the contract of `init_with` over length
/// `n` holds exactly `out(0), ..., out(n - 1)`, in that order, so no
/// index is skipped, repeated or reordered in the result.
pub proof fn lemma_init_with_determined<T, F: Fn(usize) -> T>(
    elem: F,
    out: spec_fn(usize) -> T,
    n: usize,
    result: Vec<T>,
)
    requires
        forall|i: usize, y: T| #[trigger] call_ensures(elem, (i,), y) ==> y == out(i),
        <Vec<T> as Init<T, usize>>::shape_ok(n, &result),
        forall|i: int|
            0 <= i < <Vec<T> as Init<T, usize>>::call_count(n, &result) ==> call_ensures(
                elem,
                ((i as usize),),
                #[trigger] <Vec<T> as Init<T, usize>>::output_at(&result, i),
            ),
    ensures
        result@ == Seq::new(n as nat, |i: int| out(i as usize)),
{
    assert forall|i: int| 0 <= i < n implies result@[i] == out(i as usize) by {
        assert(<Vec<T> as Init<T, usize>>::output_at(&result, i) == result@[i]);
    }
    assert(result@ =~= Seq::new(n as nat, |i: int| out(i as usize)));
}

impl<T> InitStop<Option<T>, ()> for Vec<T> {
    open spec fn stops(y: Option<T>) -> bool {
        y is None
    }
}

/// Build a `Vec` from a function called on each index in ascending order
/// until it returns `None`: an unfold, with the call on the current length
/// in place of a mutable state parameter.
impl<T> Init<Option<T>, ()> for Vec<T> {
    open spec fn may_call(value: (), i: usize) -> bool {
        true
    }

    open spec fn finite(value: ()) -> bool {
        false
    }

    open spec fn call_count(value: (), result: &Self) -> int {
        result@.len() as int + 1
    }

    open spec fn output_at(result: &Self, i: int) -> Option<T> {
        if 0 <= i < result@.len() {
            Some(result@[i])
        } else {
            None
        }
    }

    open spec fn shape_ok(value: (), result: &Self) -> bool {
        true
    }

    fn init_with<F: Fn(usize) -> Option<T>>(value: (), elem: F) -> (result: Self)
        ensures
            forall|j: int|
                0 <= j < result@.len() ==> elem.ensures(((j as usize),), Some(#[trigger] result@[j])),
            elem.ensures(((result@.len() as usize),), None::<T>),
    {
        let ghost bound = choose|b: usize|
            exhausted_from::<Option<T>, (), Vec<T>, F>(elem, b);
        let mut result: Vec<T> = Vec::new();
        loop
            invariant
                exhausted_from::<Option<T>, (), Vec<T>, F>(elem, bound),
                result@.len() <= bound,
                forall|j: usize| #[trigger] elem.requires((j,)),
                forall|j: usize|
                    j < result@.len() ==> #[trigger] elem.ensures((j,), Some(result@[j as int])),
            ensures
                forall|j: usize|
                    j < result@.len() ==> #[trigger] elem.ensures((j,), Some(result@[j as int])),
                elem.ensures((result@.len() as usize,), None),
            decreases bound - result@.len(),
        {
            let x = elem(result.len());
            proof {
                if bound <= result@.len() {
                    assert(<Vec<T> as InitStop<Option<T>, ()>>::stops(x));
                    assert(x is None);
                }
            }
            match x {
                Some(v) => {
                    result.push(v);
                },
                None => {
                    break;
                },
            }
        }
        result
    }
}

} // verus!
