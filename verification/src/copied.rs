//! Copies whose contents are known: the model of a value is its `deep_view`, and
//! a copy has the same model as what it was taken from.

use vstd::prelude::*;

verus! {

pub trait Copied: DeepView + Sized {
    /// A second value with the same model.
    fn copy(&self) -> (r: Self)
        ensures
            r.deep_view() == self.deep_view(),
    ;
}

impl Copied for String {
    fn copy(&self) -> (r: Self) {
        self.clone()
    }
}

impl Copied for usize {
    fn copy(&self) -> (r: Self) {
        *self
    }
}

impl<T: Copied> Copied for Option<T> {
    fn copy(&self) -> (r: Self) {
        match self {
            Some(x) => Some(x.copy()),
            None => None,
        }
    }
}

impl<A: Copied, B: Copied> Copied for (A, B) {
    fn copy(&self) -> (r: Self) {
        (self.0.copy(), self.1.copy())
    }
}

impl<T: Copied> Copied for Vec<T> {
    fn copy(&self) -> (r: Self) {
        let mut out: Vec<T> = Vec::new();
        let mut i: usize = 0;
        while i < self.len()
            invariant
                i <= self@.len(),
                out@.len() == i,
                forall|k: int| 0 <= k < i ==> out@[k].deep_view() == self@[k].deep_view(),
            decreases self@.len() - i,
        {
            out.push(self[i].copy());
            i += 1;
        }
        assert(out.deep_view() == self.deep_view());
        out
    }
}

/// Copies the part `lo..hi` of a list.
pub fn copy_range<T: Copied>(v: &Vec<T>, lo: usize, hi: usize) -> (r: Vec<T>)
    requires
        lo <= hi <= v@.len(),
    ensures
        r.deep_view() == v.deep_view().subrange(lo as int, hi as int),
{
    let mut out: Vec<T> = Vec::new();
    let mut i: usize = lo;
    while i < hi
        invariant
            lo <= i <= hi <= v@.len(),
            out@.len() == i - lo,
            forall|k: int| 0 <= k < i - lo ==> out@[k].deep_view() == v@[k + lo].deep_view(),
        decreases hi - i,
    {
        out.push(v[i].copy());
        i += 1;
    }
    assert(out.deep_view() == v.deep_view().subrange(lo as int, hi as int));
    out
}

} // verus!
