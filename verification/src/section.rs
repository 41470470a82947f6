use vstd::prelude::*;

verus! {

/// Operator to copy a fixed-length contiguous run of elements out of an
/// array-like container.
///
/// `TOffset` describes where the run starts and how long it is; `TOut`
/// is the container holding the copied run. The bound check is part of
/// the contract: a run reaching past the end of the source is rejected
/// before the call.
pub trait Section<TOffset, TOut> {
    /// The type of the elements being copied.
    type Elem;

    /// The elements this container holds, in order.
    spec fn src_elems(&self) -> Seq<Self::Elem>;

    /// The elements the copied-out container holds, in order.
    spec fn out_elems(result: &TOut) -> Seq<Self::Elem>;

    /// The index at which the requested run starts.
    spec fn start_of(offset: TOffset) -> int;

    /// The length of the requested run.
    spec fn len_of(offset: TOffset) -> int;

    /// Copy the contiguous run of `len_of(offset)` elements starting at
    /// index `start_of(offset)` into a new container.
    fn section(&self, offset: TOffset) -> (result: TOut)
        requires
            0 <= Self::start_of(offset),
            0 <= Self::len_of(offset),
            Self::start_of(offset) + Self::len_of(offset) <= self.src_elems().len(),
        ensures
            Self::out_elems(&result) == self.src_elems().subrange(
                Self::start_of(offset),
                Self::start_of(offset) + Self::len_of(offset),
            ),
    ;
}

/// Copy a contiguous run out of a `Vec`: the offset pair holds the start
/// index and the length of the run.
impl<T: Copy> Section<(usize, usize), Vec<T>> for Vec<T> {
    type Elem = T;

    open spec fn src_elems(&self) -> Seq<T> {
        self@
    }

    open spec fn out_elems(result: &Vec<T>) -> Seq<T> {
        result@
    }

    open spec fn start_of(offset: (usize, usize)) -> int {
        offset.0 as int
    }

    open spec fn len_of(offset: (usize, usize)) -> int {
        offset.1 as int
    }

    fn section(&self, offset: (usize, usize)) -> (result: Vec<T>)
        ensures
            result@ == self@.subrange(offset.0 as int, offset.0 as int + offset.1 as int),
    {
        let (start, len) = offset;
        let n: usize = self.len();
        let mut result: Vec<T> = Vec::with_capacity(len);
        let mut i: usize = 0;
        while i < len
            invariant
                i <= len,
                n == self@.len(),
                start + len <= n,
                result@.len() == i,
                result@ == self@.subrange(start as int, start as int + i as int),
            decreases len - i,
        {
            let x = self[start + i];
            result.push(x);
            i = i + 1;
            proof {
                assert(result@ =~= self@.subrange(start as int, start as int + i as int));
            }
        }
        result
    }
}

} // verus!
