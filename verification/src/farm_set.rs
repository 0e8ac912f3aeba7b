//! The set of farms that accept a seed.
//!
//! Farm identifiers are opaque strings. The set keeps them in the order in
//! which they were added and never holds one twice.

use vstd::prelude::*;

verus! {

/// Identifier of a farm, composed elsewhere from a seed identifier and a
/// sequence number.
pub type FarmId = String;

/// The contents of a sequence of strings, in order.
pub open spec fn views(v: Seq<String>) -> Seq<Seq<char>> {
    Seq::new(v.len(), |i: int| v[i]@)
}

/// A set of farm identifiers.
#[derive(Debug)]
pub struct FarmSet {
    ids: Vec<FarmId>,
}

impl View for FarmSet {
    type V = Set<Seq<char>>;

    open spec fn view(&self) -> Set<Seq<char>> {
        self.ids().to_set()
    }
}

impl FarmSet {
    #[verifier::type_invariant]
    spec fn distinct(self) -> bool {
        views(self.ids@).no_duplicates()
    }

    /// The identifiers in the order in which the set hands them out.
    pub closed spec fn ids(self) -> Seq<Seq<char>> {
        views(self.ids@)
    }

    /// The empty set.
    pub fn new() -> (set: Self)
        ensures
            set.ids() == Seq::<Seq<char>>::empty(),
            set@ == Set::<Seq<char>>::empty(),
    {
        let set = FarmSet { ids: Vec::new() };
        assert(set.ids() =~= Seq::<Seq<char>>::empty());
        assert(set@ =~= Set::<Seq<char>>::empty());
        set
    }

    /// Number of farms in the set.
    pub fn len(&self) -> (n: usize)
        ensures
            n == self@.len(),
            n == self.ids().len(),
            self@.finite(),
            self.ids().no_duplicates(),
    {
        proof {
            use_type_invariant(self);
            self.ids().unique_seq_to_set();
            vstd::seq_lib::seq_to_set_is_finite(self.ids());
        }
        self.ids.len()
    }

    /// Whether the set holds no farm.
    pub fn is_empty(&self) -> (empty: bool)
        ensures
            empty == (self@ == Set::<Seq<char>>::empty()),
            empty == (self.ids().len() == 0),
    {
        proof {
            if self.ids().len() == 0 {
                assert(self@ =~= Set::<Seq<char>>::empty());
            } else {
                assert(self@.contains(self.ids()[0]));
            }
        }
        self.ids.len() == 0
    }

    /// Position of `farm_id` in the backing vector, if it is there.
    fn position(&self, farm_id: &FarmId) -> (at: Option<usize>)
        ensures
            match at {
                Some(i) => i < self.ids().len() && self.ids()[i as int] == farm_id@,
                None => !self@.contains(farm_id@),
            },
    {
        let mut i: usize = 0;
        while i < self.ids.len()
            invariant
                0 <= i <= self.ids@.len(),
                forall|j: int| 0 <= j < i ==> self.ids()[j] != farm_id@,
            decreases self.ids@.len() - i,
        {
            if self.ids[i] == *farm_id {
                return Some(i);
            }
            i = i + 1;
        }
        None
    }

    /// Whether `farm_id` is in the set.
    pub fn contains(&self, farm_id: &FarmId) -> (found: bool)
        ensures
            found == self@.contains(farm_id@),
    {
        self.position(farm_id).is_some()
    }

    /// Adds `farm_id`. Returns whether it was new; a farm that is already
    /// in the set leaves the set as it is.
    pub fn insert(&mut self, farm_id: FarmId) -> (fresh: bool)
        ensures
            fresh == !old(self)@.contains(farm_id@),
            final(self)@ == old(self)@.insert(farm_id@),
            final(self).ids() == if fresh {
                old(self).ids().push(farm_id@)
            } else {
                old(self).ids()
            },
    {
        proof {
            use_type_invariant(&*self);
        }
        if self.position(&farm_id).is_some() {
            assert(self@.insert(farm_id@) =~= self@);
            false
        } else {
            let ghost before = self.ids();
            let mut ids = Vec::new();
            std::mem::swap(&mut ids, &mut self.ids);
            ids.push(farm_id);
            assert(views(ids@) =~= before.push(farm_id@));
            assert(views(ids@).no_duplicates()) by {
                assert forall|i: int, j: int|
                    0 <= i < views(ids@).len() && 0 <= j < views(ids@).len() && i != j implies views(
                    ids@,
                )[i] != views(ids@)[j] by {
                    if i < before.len() {
                        assert(before.to_set().contains(before[i]));
                    }
                    if j < before.len() {
                        assert(before.to_set().contains(before[j]));
                    }
                }
            }
            self.ids = ids;
            proof {
                before.lemma_push_to_set_commute(farm_id@);
            }
            true
        }
    }

    /// Removes `farm_id`. Returns whether it was in the set; the farms that
    /// stay keep their order.
    pub fn remove(&mut self, farm_id: &FarmId) -> (found: bool)
        ensures
            found == old(self)@.contains(farm_id@),
            final(self)@ == old(self)@.remove(farm_id@),
            final(self).ids() == if found {
                old(self).ids().remove(old(self).ids().index_of(farm_id@))
            } else {
                old(self).ids()
            },
    {
        proof {
            use_type_invariant(&*self);
        }
        match self.position(farm_id) {
            None => {
                assert(self@.remove(farm_id@) =~= self@);
                false
            },
            Some(at) => {
                let ghost before = self.ids();
                let mut ids = Vec::new();
                std::mem::swap(&mut ids, &mut self.ids);
                let _ = ids.remove(at);
                proof {
                    let k = before.index_of(farm_id@);
                    assert(before[at as int] == farm_id@);
                    assert(before[k] == farm_id@ && 0 <= k < before.len());
                    assert(k == at);
                    assert(views(ids@) =~= before.remove(at as int));
                    assert(views(ids@).no_duplicates());
                    assert(views(ids@).to_set() =~= before.to_set().remove(farm_id@)) by {
                        assert forall|x: Seq<char>|
                            views(ids@).to_set().contains(x) <==> before.to_set().remove(
                                farm_id@,
                            ).contains(x) by {
                            if views(ids@).to_set().contains(x) {
                                let j = choose|j: int| 0 <= j < views(ids@).len() && views(ids@)[j] == x;
                                if j < at {
                                    assert(before[j] == x);
                                } else {
                                    assert(before[j + 1] == x);
                                }
                            }
                            if before.to_set().remove(farm_id@).contains(x) {
                                let j = choose|j: int| 0 <= j < before.len() && before[j] == x;
                                if j < at {
                                    assert(views(ids@)[j] == x);
                                } else {
                                    assert(views(ids@)[j - 1] == x);
                                }
                            }
                        }
                    }
                }
                self.ids = ids;
                true
            },
        }
    }

    /// The farms of the set, copied out in the set's order.
    pub fn to_vec(&self) -> (farms: Vec<FarmId>)
        ensures
            views(farms@) == self.ids(),
            views(farms@).no_duplicates(),
            views(farms@).to_set() == self@,
            farms@.len() == self@.len(),
    {
        proof {
            use_type_invariant(self);
            self.ids().unique_seq_to_set();
        }
        let mut farms: Vec<FarmId> = Vec::new();
        let mut i: usize = 0;
        while i < self.ids.len()
            invariant
                0 <= i <= self.ids@.len(),
                farms@.len() == i,
                forall|j: int| 0 <= j < i ==> farms@[j]@ == self.ids@[j]@,
            decreases self.ids@.len() - i,
        {
            farms.push(self.ids[i].clone());
            i = i + 1;
        }
        assert(views(farms@) =~= self.ids());
        farms
    }
}

} // verus!
