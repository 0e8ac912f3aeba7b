//! Per-token quantities of a non-fungible seed.
//!
//! A map from token identifiers to quantities. It keeps its entries in the
//! order in which the identifiers were first added and holds each
//! identifier once.

use crate::farm_set::views;
use crate::json_amount::carried;
use near_sdk::json_types::U128;
use vstd::prelude::*;

verus! {

/// Identifier of one token of a non-fungible contract.
pub type NFTTokenId = String;

/// A map from token identifiers to values of `T`.
#[derive(Debug)]
pub struct TokenMap<T> {
    ids: Vec<NFTTokenId>,
    amounts: Vec<T>,
}

impl<T> View for TokenMap<T> {
    type V = Map<Seq<char>, T>;

    open spec fn view(&self) -> Map<Seq<char>, T> {
        Map::new(
            |id: Seq<char>| self.ids().contains(id),
            |id: Seq<char>| self.amounts()[self.ids().index_of(id)],
        )
    }
}

/// In a sequence without duplicates an element is found where it stands.
proof fn lemma_index_of_unique<A>(s: Seq<A>, i: int)
    requires
        s.no_duplicates(),
        0 <= i < s.len(),
    ensures
        s.contains(s[i]),
        s.index_of(s[i]) == i,
{
    let k = s.index_of(s[i]);
    assert(0 <= k < s.len() && s[k] == s[i]);
}

impl<T> TokenMap<T> {
    #[verifier::type_invariant]
    spec fn well_formed(self) -> bool {
        &&& self.ids@.len() == self.amounts@.len()
        &&& views(self.ids@).no_duplicates()
    }

    /// The token identifiers in the order in which the map holds them.
    pub closed spec fn ids(self) -> Seq<Seq<char>> {
        views(self.ids@)
    }

    /// The values, each at the position of its identifier in `ids`.
    pub closed spec fn amounts(self) -> Seq<T> {
        self.amounts@
    }

    /// The empty map.
    pub fn new() -> (map: Self)
        ensures
            map@ == Map::<Seq<char>, T>::empty(),
            map.ids() == Seq::<Seq<char>>::empty(),
    {
        let map = TokenMap { ids: Vec::new(), amounts: Vec::new() };
        assert(map.ids() =~= Seq::<Seq<char>>::empty());
        assert(map@ =~= Map::<Seq<char>, T>::empty());
        map
    }

    /// Number of entries.
    pub fn len(&self) -> (n: usize)
        ensures
            n == self@.dom().len(),
            n == self.ids().len(),
            n == self.amounts().len(),
            self@.dom().finite(),
            self.ids().no_duplicates(),
    {
        proof {
            use_type_invariant(self);
            self.ids().unique_seq_to_set();
            vstd::seq_lib::seq_to_set_is_finite(self.ids());
            assert(self@.dom() =~= self.ids().to_set());
        }
        self.ids.len()
    }

    /// The token identifiers, copied out in the map's order.
    pub fn keys(&self) -> (keys: Vec<NFTTokenId>)
        ensures
            views(keys@) == self.ids(),
            views(keys@).no_duplicates(),
            views(keys@).to_set() == self@.dom(),
    {
        proof {
            use_type_invariant(self);
            assert(self@.dom() =~= self.ids().to_set());
        }
        let mut keys: Vec<NFTTokenId> = Vec::new();
        let mut i: usize = 0;
        while i < self.ids.len()
            invariant
                0 <= i <= self.ids@.len(),
                keys@.len() == i,
                forall|j: int| 0 <= j < i ==> keys@[j]@ == self.ids@[j]@,
            decreases self.ids@.len() - i,
        {
            keys.push(self.ids[i].clone());
            i = i + 1;
        }
        assert(views(keys@) =~= self.ids());
        keys
    }

    /// Position of `token_id` among the identifiers, if it is there.
    fn position(&self, token_id: &NFTTokenId) -> (at: Option<usize>)
        ensures
            match at {
                Some(i) => i < self.ids().len() && self.ids()[i as int] == token_id@
                    && self.ids().index_of(token_id@) == i,
                None => !self.ids().contains(token_id@),
            },
    {
        proof {
            use_type_invariant(self);
        }
        let mut i: usize = 0;
        while i < self.ids.len()
            invariant
                0 <= i <= self.ids@.len(),
                self.ids().no_duplicates(),
                forall|j: int| 0 <= j < i ==> self.ids()[j] != token_id@,
            decreases self.ids@.len() - i,
        {
            if self.ids[i] == *token_id {
                proof {
                    lemma_index_of_unique(self.ids(), i as int);
                }
                return Some(i);
            }
            i = i + 1;
        }
        None
    }

    /// Whether the map has an entry for `token_id`.
    pub fn contains_key(&self, token_id: &NFTTokenId) -> (found: bool)
        ensures
            found == self@.contains_key(token_id@),
    {
        self.position(token_id).is_some()
    }

    /// The value held for `token_id`, if there is one.
    pub fn get(&self, token_id: &NFTTokenId) -> (value: Option<&T>)
        ensures
            match value {
                Some(v) => self@.contains_key(token_id@) && *v == self@[token_id@],
                None => !self@.contains_key(token_id@),
            },
    {
        proof {
            use_type_invariant(self);
        }
        match self.position(token_id) {
            Some(at) => Some(&self.amounts[at]),
            None => None,
        }
    }

    /// Sets the value of `token_id` and returns the value that it replaces,
    /// if there was one. A new identifier goes behind those already held.
    pub fn insert(&mut self, token_id: NFTTokenId, value: T) -> (replaced: Option<T>)
        ensures
            final(self)@ == old(self)@.insert(token_id@, value),
            replaced == if old(self)@.contains_key(token_id@) {
                Some(old(self)@[token_id@])
            } else {
                None
            },
            final(self).ids() == if old(self)@.contains_key(token_id@) {
                old(self).ids()
            } else {
                old(self).ids().push(token_id@)
            },
    {
        proof {
            use_type_invariant(&*self);
        }
        let ghost ids_before = self.ids();
        let ghost amounts_before = self.amounts();
        let ghost map_before = self@;
        let at = self.position(&token_id);
        let mut taken = TokenMap::new();
        std::mem::swap(self, &mut taken);
        let TokenMap { mut ids, mut amounts } = taken;
        let replaced = match at {
            Some(i) => {
                let previous = amounts.remove(i);
                amounts.insert(i, value);
                assert(amounts@ =~= amounts_before.update(i as int, value));
                Some(previous)
            },
            None => {
                ids.push(token_id);
                amounts.push(value);
                assert(views(ids@) =~= ids_before.push(token_id@));
                assert(views(ids@).no_duplicates());
                None
            },
        };
        *self = TokenMap { ids, amounts };
        proof {
            let ids_after = self.ids();
            assert forall|id: Seq<char>| #[trigger] self@.dom().contains(id) <==> map_before.insert(
                token_id@,
                value,
            ).dom().contains(id) by {
                if ids_after.contains(id) {
                    let j = choose|j: int| 0 <= j < ids_after.len() && ids_after[j] == id;
                    if j < ids_before.len() {
                        assert(ids_before[j] == id);
                    }
                }
                if ids_before.contains(id) {
                    let j = choose|j: int| 0 <= j < ids_before.len() && ids_before[j] == id;
                    assert(ids_after[j] == id);
                }
                if id == token_id@ {
                    if at is None {
                        assert(ids_after[ids_before.len() as int] == id);
                    }
                }
            }
            assert forall|id: Seq<char>| #[trigger] self@.dom().contains(id) implies self@[id]
                == map_before.insert(token_id@, value)[id] by {
                let j = ids_after.index_of(id);
                assert(0 <= j < ids_after.len() && ids_after[j] == id);
                lemma_index_of_unique(ids_after, j);
                if id != token_id@ {
                    assert(ids_before[j] == id);
                    lemma_index_of_unique(ids_before, j);
                } else {
                    match at {
                        Some(i) => {
                            lemma_index_of_unique(ids_after, i as int);
                        },
                        None => {
                            lemma_index_of_unique(ids_after, ids_before.len() as int);
                        },
                    }
                }
            }
            assert(self@ =~= map_before.insert(token_id@, value));
        }
        replaced
    }

    /// Removes the entry of `token_id` and returns its value, if there was
    /// one. The entries that stay keep their order.
    pub fn remove(&mut self, token_id: &NFTTokenId) -> (removed: Option<T>)
        ensures
            final(self)@ == old(self)@.remove(token_id@),
            removed == if old(self)@.contains_key(token_id@) {
                Some(old(self)@[token_id@])
            } else {
                None
            },
            final(self).ids() == if old(self)@.contains_key(token_id@) {
                old(self).ids().remove(old(self).ids().index_of(token_id@))
            } else {
                old(self).ids()
            },
    {
        proof {
            use_type_invariant(&*self);
        }
        let ghost ids_before = self.ids();
        let ghost map_before = self@;
        match self.position(token_id) {
            None => {
                assert(self@ =~= map_before.remove(token_id@));
                None
            },
            Some(at) => {
                let mut taken = TokenMap::new();
                std::mem::swap(self, &mut taken);
                let TokenMap { mut ids, mut amounts } = taken;
                let _ = ids.remove(at);
                let removed = amounts.remove(at);
                assert(views(ids@) =~= ids_before.remove(at as int));
                assert(views(ids@).no_duplicates());
                *self = TokenMap { ids, amounts };
                proof {
                    let ids_after = self.ids();
                    assert forall|id: Seq<char>| #[trigger] self@.dom().contains(id)
                        <==> map_before.remove(token_id@).dom().contains(id) by {
                        if ids_after.contains(id) {
                            let j = choose|j: int| 0 <= j < ids_after.len() && ids_after[j] == id;
                            if j < at {
                                assert(ids_before[j] == id);
                            } else {
                                assert(ids_before[j + 1] == id);
                            }
                        }
                        if ids_before.contains(id) && id != token_id@ {
                            let j = choose|j: int| 0 <= j < ids_before.len() && ids_before[j] == id;
                            if j < at {
                                assert(ids_after[j] == id);
                            } else {
                                assert(ids_after[j - 1] == id);
                            }
                        }
                    }
                    assert forall|id: Seq<char>| #[trigger] self@.dom().contains(id) implies self@[id]
                        == map_before.remove(token_id@)[id] by {
                        let j = ids_after.index_of(id);
                        assert(0 <= j < ids_after.len() && ids_after[j] == id);
                        if j < at {
                            lemma_index_of_unique(ids_before, j);
                        } else {
                            lemma_index_of_unique(ids_before, j + 1);
                        }
                    }
                    assert(self@ =~= map_before.remove(token_id@));
                }
                Some(removed)
            },
        }
    }
}

impl TokenMap<u128> {
    /// The same entries in the same order, each quantity as a `U128`.
    pub fn to_json(&self) -> (json: TokenMap<U128>)
        ensures
            json.ids() == self.ids(),
            json@.dom() == self@.dom(),
            forall|id: Seq<char>| #[trigger]
                self@.contains_key(id) ==> carried(json@[id]) == self@[id],
    {
        proof {
            use_type_invariant(self);
        }
        let mut ids: Vec<NFTTokenId> = Vec::new();
        let mut amounts: Vec<U128> = Vec::new();
        let mut i: usize = 0;
        while i < self.ids.len()
            invariant
                0 <= i <= self.ids@.len(),
                self.ids@.len() == self.amounts@.len(),
                ids@.len() == i,
                amounts@.len() == i,
                forall|j: int| 0 <= j < i ==> ids@[j]@ == self.ids@[j]@,
                forall|j: int| 0 <= j < i ==> carried(amounts@[j]) == self.amounts@[j],
            decreases self.ids@.len() - i,
        {
            ids.push(self.ids[i].clone());
            amounts.push(U128::from(self.amounts[i]));
            i = i + 1;
        }
        assert(views(ids@) =~= self.ids());
        let json = TokenMap { ids, amounts };
        assert(json@.dom() =~= self@.dom());
        json
    }
}

} // verus!
