//! The set of marked tracks. A track is marked by its id, so a mark follows it
//! through any reordering of the rows.

use crate::copied::Copied;
use crate::model::VideoId;
use vstd::prelude::*;

verus! {

/// Marked ids, none of them twice.
#[derive(Debug, PartialEq, Eq)]
pub struct MarkSet {
    ids: Vec<VideoId>,
}

impl View for MarkSet {
    type V = Set<Seq<char>>;

    closed spec fn view(&self) -> Set<Seq<char>> {
        self.ids.deep_view().to_set()
    }
}

impl DeepView for MarkSet {
    type V = Set<Seq<char>>;

    open spec fn deep_view(&self) -> Set<Seq<char>> {
        self.view()
    }
}

impl Copied for MarkSet {
    fn copy(&self) -> (r: Self) {
        proof {
            use_type_invariant(self);
        }
        MarkSet { ids: self.ids.copy() }
    }
}

impl Clone for MarkSet {
    fn clone(&self) -> (r: Self)
        ensures
            r@ == self@,
    {
        self.copy()
    }
}

impl Default for MarkSet {
    fn default() -> (r: MarkSet)
        ensures
            r@ == Set::<Seq<char>>::empty(),
    {
        MarkSet::new()
    }
}

impl MarkSet {
    #[verifier::type_invariant]
    spec fn no_id_twice(self) -> bool {
        self.ids.deep_view().no_duplicates()
    }

    pub fn new() -> (r: MarkSet)
        ensures
            r@ == Set::<Seq<char>>::empty(),
    {
        let r = MarkSet { ids: Vec::new() };
        assert(r.ids.deep_view().len() == 0);
        assert(r@ =~= Set::<Seq<char>>::empty());
        r
    }

    fn position(&self, id: &VideoId) -> (r: Option<usize>)
        ensures
            match r {
                Some(i) => i < self.ids@.len() && self.ids@[i as int].deep_view() == id.deep_view(),
                None => forall|k: int|
                    0 <= k < self.ids@.len() ==> self.ids@[k].deep_view() != id.deep_view(),
            },
    {
        let mut i: usize = 0;
        while i < self.ids.len()
            invariant
                i <= self.ids@.len(),
                forall|k: int| 0 <= k < i ==> self.ids@[k].deep_view() != id.deep_view(),
            decreases self.ids@.len() - i,
        {
            if self.ids[i].same(id) {
                return Some(i);
            }
            i += 1;
        }
        None
    }

    pub fn contains(&self, id: &VideoId) -> (r: bool)
        ensures
            r == self@.contains(id.deep_view()),
    {
        match self.position(id) {
            Some(i) => {
                assert(self.ids.deep_view()[i as int] == id.deep_view());
                true
            },
            None => {
                assert(!self.ids.deep_view().contains(id.deep_view()));
                false
            },
        }
    }

    /// Marks an id; whether it was not marked before.
    pub fn insert(&mut self, id: VideoId) -> (r: bool)
        ensures
            final(self)@ == old(self)@.insert(id.deep_view()),
            r == !old(self)@.contains(id.deep_view()),
    {
        proof {
            use_type_invariant(&*self);
        }
        if self.contains(&id) {
            assert(self@ =~= old(self)@.insert(id.deep_view()));
            false
        } else {
            let mut ids: Vec<VideoId> = Vec::new();
            assert(ids.deep_view().len() == 0);
            std::mem::swap(&mut ids, &mut self.ids);
            let ghost before = ids.deep_view();
            ids.push(id);
            assert(ids.deep_view() =~= before.push(id.deep_view()));
            assert(!before.contains(id.deep_view()));
            assert forall|i: int, j: int| 0 <= i < j < ids.deep_view().len() implies ids.deep_view()[i]
                != ids.deep_view()[j] by {
                if j == before.len() {
                    assert(before.contains(before[i]));
                }
            }
            self.ids = ids;
            assert(self@ =~= old(self)@.insert(id.deep_view())) by {
                assert(ids.deep_view()[before.len() as int] == id.deep_view());
                assert forall|x: Seq<char>| before.contains(x) implies ids.deep_view().contains(x) by {
                    let k = choose|k: int| 0 <= k < before.len() && before[k] == x;
                    assert(ids.deep_view()[k] == x);
                }
            }
            true
        }
    }

    /// Takes a mark away; whether there was one.
    pub fn remove(&mut self, id: &VideoId) -> (r: bool)
        ensures
            final(self)@ == old(self)@.remove(id.deep_view()),
            r == old(self)@.contains(id.deep_view()),
    {
        proof {
            use_type_invariant(&*self);
        }
        match self.position(id) {
            None => {
                assert(!self.ids.deep_view().contains(id.deep_view()));
                assert(self@ =~= old(self)@.remove(id.deep_view()));
                false
            },
            Some(i) => {
                let mut ids: Vec<VideoId> = Vec::new();
                assert(ids.deep_view().len() == 0);
                std::mem::swap(&mut ids, &mut self.ids);
                let ghost before = ids.deep_view();
                assert(before[i as int] == id.deep_view());
                ids.remove(i);
                assert(ids.deep_view() =~= before.remove(i as int));
                self.ids = ids;
                assert(self@ =~= old(self)@.remove(id.deep_view())) by {
                    assert forall|x: Seq<char>|
                        before.contains(x) && x != id.deep_view() implies ids.deep_view().contains(
                        x,
                    ) by {
                        let k = choose|k: int| 0 <= k < before.len() && before[k] == x;
                        if k < i {
                            assert(ids.deep_view()[k] == x);
                        } else {
                            assert(ids.deep_view()[k - 1] == x);
                        }
                    }
                    assert forall|x: Seq<char>| ids.deep_view().contains(x) implies before.contains(
                        x,
                    ) && x != id.deep_view() by {
                        let k = choose|k: int|
                            0 <= k < ids.deep_view().len() && ids.deep_view()[k] == x;
                        if k < i {
                            assert(before[k] == x);
                        } else {
                            assert(before[k + 1] == x);
                        }
                    }
                }
                true
            },
        }
    }

    pub fn len(&self) -> (r: usize)
        ensures
            r == self@.len(),
            self@.finite(),
    {
        proof {
            use_type_invariant(self);
            self.ids.deep_view().unique_seq_to_set();
        }
        self.ids.len()
    }

    pub fn is_empty(&self) -> (r: bool)
        ensures
            r == (self@ == Set::<Seq<char>>::empty()),
    {
        proof {
            if self.ids@.len() > 0 {
                assert(self.ids.deep_view().contains(self.ids.deep_view()[0]));
                assert(self@.contains(self.ids.deep_view()[0]));
            } else {
                assert(self.ids.deep_view().len() == 0);
                assert(self@ =~= Set::<Seq<char>>::empty());
            }
        }
        self.ids.len() == 0
    }

    pub fn clear(&mut self)
        ensures
            final(self)@ == Set::<Seq<char>>::empty(),
    {
        *self = MarkSet::new();
    }
}

} // verus!
