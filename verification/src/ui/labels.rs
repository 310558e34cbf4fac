//! A small set of strings kept in arrival order.
use vstd::prelude::*;

use crate::ui::command::strings_view;

verus! {

/// A set of labels (addresses, event names), each held once, in the order they
/// came.
#[derive(Debug)]
pub struct LabelSet {
    labels: Vec<String>,
}

impl LabelSet {
    pub closed spec fn view_seq(&self) -> Seq<Seq<char>> {
        strings_view(self.labels@)
    }

    /// The labels held.
    pub open spec fn view_set(&self) -> Set<Seq<char>> {
        self.view_seq().to_set()
    }

    /// No label is held twice.
    pub closed spec fn wf(&self) -> bool {
        self.view_seq().no_duplicates()
    }

    pub fn new() -> (r: Self)
        ensures
            r.wf(),
            r.view_set() == Set::<Seq<char>>::empty(),
    {
        let r = LabelSet { labels: Vec::new() };
        assert(r.view_seq() =~= Seq::<Seq<char>>::empty());
        r
    }

    fn position(&self, label: &str) -> (r: Option<usize>)
        requires
            self.wf(),
        ensures
            match r {
                Some(i) => i < self.view_seq().len() && self.view_seq()[i as int] == label@,
                None => !self.view_set().contains(label@),
            },
    {
        let mut i: usize = 0;
        while i < self.labels.len()
            invariant
                i <= self.labels.len(),
                self.view_seq().len() == self.labels.len(),
                forall|k: int| 0 <= k < i ==> self.view_seq()[k] != label@,
            decreases self.labels.len() - i,
        {
            assert(self.view_seq()[i as int] == self.labels@[i as int]@);
            if crate::text::str_eq(self.labels[i].as_str(), label) {
                return Some(i);
            }
            i = i + 1;
        }
        None
    }

    /// Whether `label` is in the set.
    pub fn contains(&self, label: &str) -> (r: bool)
        requires
            self.wf(),
        ensures
            r == self.view_set().contains(label@),
    {
        match self.position(label) {
            Some(i) => {
                assert(self.view_seq().contains(label@));
                true
            },
            None => false,
        }
    }

    pub fn is_empty(&self) -> (r: bool)
        requires
            self.wf(),
        ensures
            r == (self.view_set() == Set::<Seq<char>>::empty()),
    {
        if self.labels.len() == 0 {
            assert(self.view_seq() =~= Seq::<Seq<char>>::empty());
            assert(self.view_set() =~= Set::<Seq<char>>::empty());
            true
        } else {
            assert(self.view_set().contains(self.view_seq()[0]));
            false
        }
    }

    /// Adds `label`.
    pub fn insert(&mut self, label: &str)
        requires
            old(self).wf(),
        ensures
            final(self).wf(),
            final(self).view_set() == old(self).view_set().insert(label@),
    {
        match self.position(label) {
            Some(i) => {
                assert(self.view_set() =~= self.view_set().insert(label@));
            },
            None => {
                let ghost before = self.view_seq();
                self.labels.push(label.to_owned());
                assert(self.view_seq() =~= before.push(label@));
                assert forall|x: Seq<char>| #[trigger] self.view_set().contains(x) <==> before.to_set().insert(label@).contains(x) by {
                    if self.view_set().contains(x) {
                        let k = choose|k: int| 0 <= k < self.view_seq().len() && self.view_seq()[k] == x;
                        if k < before.len() {
                            assert(before[k] == x);
                        }
                    }
                    if before.contains(x) {
                        let k = choose|k: int| 0 <= k < before.len() && before[k] == x;
                        assert(self.view_seq()[k] == x);
                    }
                    if x == label@ {
                        assert(self.view_seq()[before.len() as int] == x);
                    }
                }
                assert(self.view_set() =~= before.to_set().insert(label@));
            },
        }
    }

    /// Takes `label` out.
    pub fn remove(&mut self, label: &str)
        requires
            old(self).wf(),
        ensures
            final(self).wf(),
            final(self).view_set() == old(self).view_set().remove(label@),
    {
        match self.position(label) {
            Some(i) => {
                let ghost before = self.view_seq();
                self.labels.remove(i);
                assert(self.view_seq() =~= before.remove(i as int));
                assert forall|x: Seq<char>| self.view_set().contains(x) <==> before.to_set().remove(label@).contains(x) by {
                    if self.view_set().contains(x) {
                        let k = choose|k: int| 0 <= k < self.view_seq().len() && self.view_seq()[k] == x;
                        if k < i {
                            assert(before[k] == x);
                            assert(k != i);
                        } else {
                            assert(before[k + 1] == x);
                        }
                        assert(before.contains(x));
                    }
                    if before.to_set().remove(label@).contains(x) {
                        let k = choose|k: int| 0 <= k < before.len() && before[k] == x;
                        assert(k != i);
                        if k < i {
                            assert(self.view_seq()[k] == x);
                        } else {
                            assert(self.view_seq()[k - 1] == x);
                        }
                        assert(self.view_seq().contains(x));
                    }
                }
                assert(self.view_set() =~= before.to_set().remove(label@));
            },
            None => {
                assert(self.view_set() =~= self.view_set().remove(label@));
            },
        }
    }

    /// Empties the set.
    pub fn clear(&mut self)
        ensures
            final(self).wf(),
            final(self).view_set() == Set::<Seq<char>>::empty(),
    {
        self.labels.clear();
        assert(self.view_seq() =~= Seq::<Seq<char>>::empty());
    }

    /// The number of labels held.
    pub fn len(&self) -> (r: usize)
        requires
            self.wf(),
        ensures
            r == self.view_set().len(),
    {
        proof {
            self.view_seq().unique_seq_to_set();
        }
        self.labels.len()
    }

    /// The labels, each once, in the order they came.
    pub fn items(&self) -> (r: Vec<String>)
        requires
            self.wf(),
        ensures
            strings_view(r@).to_set() == self.view_set(),
            strings_view(r@).no_duplicates(),
    {
        let mut r: Vec<String> = Vec::new();
        let mut i: usize = 0;
        while i < self.labels.len()
            invariant
                i <= self.labels.len(),
                strings_view(r@) == self.view_seq().take(i as int),
                self.view_seq().len() == self.labels.len(),
            decreases self.labels.len() - i,
        {
            let ghost before = r@;
            r.push(self.labels[i].clone());
            assert(strings_view(r@) =~= strings_view(before).push(self.view_seq()[i as int]));
            assert(self.view_seq().take(i + 1) =~= self.view_seq().take(i as int).push(self.view_seq()[i as int]));
            i = i + 1;
        }
        assert(self.view_seq().take(self.labels.len() as int) =~= self.view_seq());
        r
    }
}

} // verus!
