//! Small association maps backed by entry vectors. Each map's view is a
//! mathematical `Map` in which a later entry for a key overrides an
//! earlier one, so pushing an entry is exactly `Map::insert`.

use vstd::prelude::*;
use crate::ast::Identifier;
use crate::ir::ItemId;

verus! {

/// The name-to-identity map for global structs and traits.
#[derive(Debug, PartialEq, Eq)]
pub struct NameMap {
    pub entries: Vec<(Identifier, ItemId)>,
}

pub open spec fn name_map_of(s: Seq<(Identifier, ItemId)>) -> Map<Identifier, ItemId>
    decreases s.len(),
{
    if s.len() == 0 {
        Map::empty()
    } else {
        name_map_of(s.drop_last()).insert(s.last().0, s.last().1)
    }
}

impl View for NameMap {
    type V = Map<Identifier, ItemId>;

    open spec fn view(&self) -> Map<Identifier, ItemId> {
        name_map_of(self.entries@)
    }
}

proof fn lemma_name_map_last_match(s: Seq<(Identifier, ItemId)>, i: int)
    requires
        0 <= i < s.len(),
        forall|j: int| i < j < s.len() ==> #[trigger] s[j].0 != s[i].0,
    ensures
        name_map_of(s).contains_key(s[i].0),
        name_map_of(s)[s[i].0] == s[i].1,
    decreases s.len(),
{
    if i == s.len() - 1 {
    } else {
        assert(s.drop_last()[i] == s[i]);
        lemma_name_map_last_match(s.drop_last(), i);
    }
}

proof fn lemma_name_map_no_match(s: Seq<(Identifier, ItemId)>, k: Identifier)
    requires
        forall|j: int| 0 <= j < s.len() ==> #[trigger] s[j].0 != k,
    ensures
        !name_map_of(s).contains_key(k),
    decreases s.len(),
{
    if s.len() > 0 {
        lemma_name_map_no_match(s.drop_last(), k);
    }
}

impl NameMap {
    pub fn new() -> (r: NameMap)
        ensures
            r@ == Map::<Identifier, ItemId>::empty(),
            r.entries@.len() == 0,
    {
        NameMap { entries: Vec::new() }
    }

    pub fn insert(&mut self, k: Identifier, v: ItemId)
        ensures
            final(self)@ == old(self)@.insert(k, v),
            final(self).entries@ == old(self).entries@.push((k, v)),
    {
        self.entries.push((k, v));
        proof {
            assert(self.entries@.drop_last() =~= old(self).entries@);
        }
    }

    pub fn get(&self, k: Identifier) -> (r: Option<ItemId>)
        ensures
            match r {
                Some(v) => self@.contains_key(k) && self@[k] == v,
                None => !self@.contains_key(k),
            },
    {
        let mut i: usize = self.entries.len();
        while i > 0
            invariant
                i <= self.entries@.len(),
                forall|j: int| i <= j < self.entries@.len() ==> #[trigger] self.entries@[j].0 != k,
            decreases i,
        {
            i = i - 1;
            if self.entries[i].0 == k {
                proof {
                    lemma_name_map_last_match(self.entries@, i as int);
                }
                return Some(self.entries[i].1);
            }
        }
        proof {
            lemma_name_map_no_match(self.entries@, k);
        }
        None
    }
}

/// A map keyed by `ItemId`, holding one kind of lowered datum.
#[derive(Debug, PartialEq, Eq)]
pub struct IdMap<V> {
    pub entries: Vec<(ItemId, V)>,
}

pub open spec fn id_map_of<V>(s: Seq<(ItemId, V)>) -> Map<int, V>
    decreases s.len(),
{
    if s.len() == 0 {
        Map::empty()
    } else {
        id_map_of(s.drop_last()).insert(s.last().0.index as int, s.last().1)
    }
}

impl<V> View for IdMap<V> {
    type V = Map<int, V>;

    open spec fn view(&self) -> Map<int, V> {
        id_map_of(self.entries@)
    }
}

proof fn lemma_id_map_last_match<V>(s: Seq<(ItemId, V)>, i: int)
    requires
        0 <= i < s.len(),
        forall|j: int| i < j < s.len() ==> #[trigger] s[j].0.index != s[i].0.index,
    ensures
        id_map_of(s).contains_key(s[i].0.index as int),
        id_map_of(s)[s[i].0.index as int] == s[i].1,
    decreases s.len(),
{
    if i == s.len() - 1 {
    } else {
        assert(s.drop_last()[i] == s[i]);
        lemma_id_map_last_match(s.drop_last(), i);
    }
}

proof fn lemma_id_map_no_match<V>(s: Seq<(ItemId, V)>, k: int)
    requires
        forall|j: int| 0 <= j < s.len() ==> #[trigger] s[j].0.index != k,
    ensures
        !id_map_of(s).contains_key(k),
    decreases s.len(),
{
    if s.len() > 0 {
        lemma_id_map_no_match(s.drop_last(), k);
    }
}

impl<V> IdMap<V> {
    pub fn new() -> (r: IdMap<V>)
        ensures
            r@ == Map::<int, V>::empty(),
            r.entries@.len() == 0,
    {
        IdMap { entries: Vec::new() }
    }

    pub fn insert(&mut self, k: ItemId, v: V)
        ensures
            final(self)@ == old(self)@.insert(k.index as int, v),
            final(self).entries@ == old(self).entries@.push((k, v)),
    {
        self.entries.push((k, v));
        proof {
            assert(self.entries@.drop_last() =~= old(self).entries@);
        }
    }

    pub fn get(&self, k: ItemId) -> (r: Option<&V>)
        ensures
            match r {
                Some(v) => self@.contains_key(k.index as int) && self@[k.index as int] == *v,
                None => !self@.contains_key(k.index as int),
            },
    {
        let mut i: usize = self.entries.len();
        while i > 0
            invariant
                i <= self.entries@.len(),
                forall|j: int|
                    i <= j < self.entries@.len() ==> #[trigger] self.entries@[j].0.index
                        != k.index,
            decreases i,
        {
            i = i - 1;
            if self.entries[i].0.index == k.index {
                proof {
                    lemma_id_map_last_match(self.entries@, i as int);
                }
                return Some(&self.entries[i].1);
            }
        }
        proof {
            lemma_id_map_no_match(self.entries@, k.index as int);
        }
        None
    }
}

/// The lookup table for associated types: an owning trait's identity and
/// an associated-type name lead to the associated type's identity.
#[derive(Debug, PartialEq, Eq)]
pub struct AssocNameMap {
    pub entries: Vec<(ItemId, Identifier, ItemId)>,
}

pub open spec fn assoc_map_of(s: Seq<(ItemId, Identifier, ItemId)>) -> Map<
    (int, Identifier),
    ItemId,
>
    decreases s.len(),
{
    if s.len() == 0 {
        Map::empty()
    } else {
        assoc_map_of(s.drop_last()).insert((s.last().0.index as int, s.last().1), s.last().2)
    }
}

impl View for AssocNameMap {
    type V = Map<(int, Identifier), ItemId>;

    open spec fn view(&self) -> Map<(int, Identifier), ItemId> {
        assoc_map_of(self.entries@)
    }
}

proof fn lemma_assoc_map_last_match(s: Seq<(ItemId, Identifier, ItemId)>, i: int)
    requires
        0 <= i < s.len(),
        forall|j: int|
            i < j < s.len() ==> !(#[trigger] s[j].0.index == s[i].0.index && s[j].1 == s[i].1),
    ensures
        assoc_map_of(s).contains_key((s[i].0.index as int, s[i].1)),
        assoc_map_of(s)[(s[i].0.index as int, s[i].1)] == s[i].2,
    decreases s.len(),
{
    if i == s.len() - 1 {
    } else {
        assert(s.drop_last()[i] == s[i]);
        lemma_assoc_map_last_match(s.drop_last(), i);
    }
}

proof fn lemma_assoc_map_no_match(s: Seq<(ItemId, Identifier, ItemId)>, t: int, n: Identifier)
    requires
        forall|j: int| 0 <= j < s.len() ==> !(#[trigger] s[j].0.index == t && s[j].1 == n),
    ensures
        !assoc_map_of(s).contains_key((t, n)),
    decreases s.len(),
{
    if s.len() > 0 {
        lemma_assoc_map_no_match(s.drop_last(), t, n);
    }
}

impl AssocNameMap {
    pub fn new() -> (r: AssocNameMap)
        ensures
            r@ == Map::<(int, Identifier), ItemId>::empty(),
            r.entries@.len() == 0,
    {
        AssocNameMap { entries: Vec::new() }
    }

    pub fn insert(&mut self, trait_id: ItemId, name: Identifier, v: ItemId)
        ensures
            final(self)@ == old(self)@.insert((trait_id.index as int, name), v),
            final(self).entries@ == old(self).entries@.push((trait_id, name, v)),
    {
        self.entries.push((trait_id, name, v));
        proof {
            assert(self.entries@.drop_last() =~= old(self).entries@);
        }
    }

    pub fn get(&self, trait_id: ItemId, name: Identifier) -> (r: Option<ItemId>)
        ensures
            match r {
                Some(v) => self@.contains_key((trait_id.index as int, name)) && self@[(
                    trait_id.index as int,
                    name,
                )] == v,
                None => !self@.contains_key((trait_id.index as int, name)),
            },
    {
        let mut i: usize = self.entries.len();
        while i > 0
            invariant
                i <= self.entries@.len(),
                forall|j: int|
                    i <= j < self.entries@.len() ==> !(#[trigger] self.entries@[j].0.index
                        == trait_id.index && self.entries@[j].1 == name),
            decreases i,
        {
            i = i - 1;
            if self.entries[i].0.index == trait_id.index && self.entries[i].1 == name {
                proof {
                    lemma_assoc_map_last_match(self.entries@, i as int);
                }
                return Some(self.entries[i].2);
            }
        }
        proof {
            lemma_assoc_map_no_match(self.entries@, trait_id.index as int, name);
        }
        None
    }
}

} // verus!
