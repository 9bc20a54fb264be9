//! Splitting a sequence into runs of equal neighbours.

use vstd::prelude::*;
use vstd::std_specs::cmp::PartialEqSpec;

verus! {

/// A sequence that is handed out in runs of equal neighbours.
pub struct Groups<T> {
    pub inner: Vec<T>,
    pub idx: usize,
}

/// The elements of the runs, one run after the other.
pub open spec fn concat_runs<T>(runs: Seq<Vec<T>>) -> Seq<T>
    decreases runs.len(),
{
    if runs.len() == 0 {
        Seq::<T>::empty()
    } else {
        concat_runs(runs.drop_last()) + runs.last()@
    }
}

impl<T> Groups<T> {
    /// The runs of `inner`, none handed out yet.
    pub fn new(inner: Vec<T>) -> (r: Self)
        ensures
            r.inner@ == inner@,
            r.idx == 0,
    {
        Groups { inner: inner, idx: 0 }
    }
}

impl<T: PartialEq> Groups<T> {
    /// The next run: the first element that is left and the elements behind
    /// it that equal it, up to the first that does not. They leave the
    /// sequence. Nothing where no element is left.
    pub fn next(&mut self) -> (r: Option<Vec<T>>)
        ensures
            final(self).idx == old(self).idx,
            match r {
                None => old(self).inner@.len() == 0 && final(self).inner@ == old(self).inner@,
                Some(run) => {
                    &&& run@.len() >= 1
                    &&& run@ + final(self).inner@ == old(self).inner@
                    &&& T::obeys_eq_spec() ==> forall|i: int|
                        1 <= i < run@.len() ==> (#[trigger] run@[i]).eq_spec(&run@[0])
                    &&& T::obeys_eq_spec() && final(self).inner@.len() > 0
                        ==> !final(self).inner@[0].eq_spec(&run@[0])
                },
            },
    {
        if self.inner.len() == 0 {
            return None;
        }
        let ghost s = self.inner@;
        let mut next: usize = 1;
        while next < self.inner.len() && self.inner[next] == self.inner[0]
            invariant
                self.inner@ == s,
                1 <= next <= s.len(),
                T::obeys_eq_spec() ==> forall|i: int|
                    1 <= i < next ==> (#[trigger] s[i]).eq_spec(&s[0]),
            decreases s.len() - next,
        {
            next = next + 1;
        }
        let mut run: Vec<T> = self.inner.split_off(next);
        core::mem::swap(&mut self.inner, &mut run);
        assert(run@ + self.inner@ =~= s);
        Some(run)
    }

    /// All the runs that are left, in order: together they are the sequence,
    /// none is empty, and a run ends where the next element differs from the
    /// run's first.
    pub fn into_vec(self) -> (r: Vec<Vec<T>>)
        ensures
            concat_runs(r@) == self.inner@,
            forall|i: int| 0 <= i < r@.len() ==> (#[trigger] r@[i])@.len() >= 1,
            T::obeys_eq_spec() ==> forall|i: int, j: int|
                0 <= i < r@.len() && 1 <= j < r@[i]@.len() ==> (#[trigger] r@[i]@[j]).eq_spec(
                    &r@[i]@[0],
                ),
            T::obeys_eq_spec() ==> forall|i: int|
                0 <= i < r@.len() - 1 ==> !(#[trigger] r@[i + 1])@[0].eq_spec(&r@[i]@[0]),
    {
        let mut groups = self;
        let mut runs: Vec<Vec<T>> = Vec::new();
        let mut done: bool = false;
        while !done
            invariant
                concat_runs(runs@) + groups.inner@ == self.inner@,
                forall|i: int| 0 <= i < runs@.len() ==> (#[trigger] runs@[i])@.len() >= 1,
                T::obeys_eq_spec() ==> forall|i: int, j: int|
                    0 <= i < runs@.len() && 1 <= j < runs@[i]@.len() ==> (
                    #[trigger] runs@[i]@[j]).eq_spec(&runs@[i]@[0]),
                T::obeys_eq_spec() ==> forall|i: int|
                    0 <= i < runs@.len() - 1 ==> !(#[trigger] runs@[i + 1])@[0].eq_spec(
                        &runs@[i]@[0],
                    ),
                T::obeys_eq_spec() && runs@.len() > 0 && groups.inner@.len() > 0
                    ==> !groups.inner@[0].eq_spec(&runs@.last()@[0]),
                done ==> groups.inner@.len() == 0,
            decreases groups.inner@.len() + (if done { 0int } else { 1int }),
        {
            let ghost before = runs@;
            let ghost left = groups.inner@;
            match groups.next() {
                Some(run) => {
                    runs.push(run);
                    assert(runs@.drop_last() =~= before);
                    assert(concat_runs(runs@) + groups.inner@ =~= concat_runs(before) + left);
                    assert(run@[0] == left[0]);
                },
                None => {
                    done = true;
                },
            }
        }
        assert(concat_runs(runs@) + groups.inner@ =~= concat_runs(runs@));
        runs
    }
}

} // verus!
