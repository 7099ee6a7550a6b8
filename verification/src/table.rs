use vstd::prelude::*;

use crate::assoc::{lemma_dom_len, lemma_push, lemma_remove, lemma_to_map_unique, lemma_update, to_map, unique_keys};
use crate::text::string_of;

verus! {

/// A table of texts under text keys, each key at most once.
pub struct Table {
    pairs: Vec<(String, String)>,
}

impl Table {
    /// The pairs, in the order they were first added.
    pub closed spec fn pairs(&self) -> Seq<(Seq<char>, Seq<char>)> {
        self.pairs@.map_values(|p: (String, String)| (p.0@, p.1@))
    }

    /// No key occurs twice.
    #[verifier::type_invariant]
    spec fn keys_unique(&self) -> bool {
        unique_keys(self.pairs())
    }

    /// The text under each key.
    pub closed spec fn view(&self) -> Map<Seq<char>, Seq<char>> {
        to_map(self.pairs())
    }

    /// An empty table.
    pub fn new() -> (t: Table)
        ensures
            t.view() == Map::<Seq<char>, Seq<char>>::empty(),
    {
        let pairs: Vec<(String, String)> = Vec::new();
        assert(pairs@.map_values(|p: (String, String)| (p.0@, p.1@)) =~= Seq::<(Seq<char>, Seq<char>)>::empty());
        Table { pairs }
    }

    /// The number of keys.
    pub fn len(&self) -> (n: usize)
        ensures
            n == self.view().dom().len(),
    {
        proof {
            use_type_invariant(self);
            lemma_dom_len(self.pairs());
        }
        self.pairs.len()
    }

    /// Where `key` stands in the list, if anywhere.
    fn position(&self, key: &String) -> (r: Option<usize>)
        ensures
            match r {
                Some(i) => i < self.pairs@.len() && self.pairs()[i as int].0 == key@,
                None => !self.view().dom().contains(key@),
            },
    {
        proof {
            use_type_invariant(self);
            lemma_to_map_unique(self.pairs());
        }
        let mut i: usize = 0;
        while i < self.pairs.len()
            invariant
                i <= self.pairs@.len(),
                forall|j: int| 0 <= j < i ==> self.pairs()[j].0 != key@,
            decreases self.pairs@.len() - i,
        {
            if self.pairs[i].0 == *key {
                return Some(i);
            }
            i = i + 1;
        }
        None
    }

    /// The text under `key`, if there is one.
    pub fn get(&self, key: &str) -> (r: Option<String>)
        ensures
            match r {
                Some(v) => self.view().dom().contains(key@) && v@ == self.view()[key@],
                None => !self.view().dom().contains(key@),
            },
    {
        let k = string_of(key);
        proof {
            use_type_invariant(self);
            lemma_to_map_unique(self.pairs());
        }
        match self.position(&k) {
            Some(i) => Some(self.pairs[i].1.clone()),
            None => None,
        }
    }

    /// Puts `value` under `key`, replacing what was there.
    pub fn insert(&mut self, key: String, value: String)
        ensures
            final(self).view() == old(self).view().insert(key@, value@),
    {
        proof {
            use_type_invariant(&*self);
        }
        let ghost old_pairs = self.pairs();
        let ghost k = key@;
        let ghost v = value@;
        let found = self.position(&key);
        let mut pairs: Vec<(String, String)> = Vec::new();
        assert(pairs@.map_values(|p: (String, String)| (p.0@, p.1@)) =~= Seq::<(Seq<char>, Seq<char>)>::empty());
        std::mem::swap(&mut pairs, &mut self.pairs);
        assert(pairs@.map_values(|p: (String, String)| (p.0@, p.1@)) == old_pairs);
        match found {
            Some(i) => {
                pairs.set(i, (key, value));
                proof {
                    lemma_update(old_pairs, i as int, v);
                    assert(pairs@.map_values(|p: (String, String)| (p.0@, p.1@)) =~= old_pairs.update(
                        i as int,
                        (old_pairs[i as int].0, v),
                    ));
                }
            },
            None => {
                pairs.push((key, value));
                proof {
                    lemma_push(old_pairs, k, v);
                    assert(pairs@.map_values(|p: (String, String)| (p.0@, p.1@)) =~= old_pairs.push((k, v)));
                }
            },
        }
        self.pairs = pairs;
    }

    /// Takes whatever is under `key` out of the table.
    pub fn remove(&mut self, key: &str)
        ensures
            final(self).view() == old(self).view().remove(key@),
    {
        proof {
            use_type_invariant(&*self);
        }
        let k = string_of(key);
        let ghost old_pairs = self.pairs();
        match self.position(&k) {
            Some(i) => {
                let mut pairs: Vec<(String, String)> = Vec::new();
                assert(pairs@.map_values(|p: (String, String)| (p.0@, p.1@)) =~= Seq::<(Seq<char>, Seq<char>)>::empty());
                std::mem::swap(&mut pairs, &mut self.pairs);
                assert(pairs@.map_values(|p: (String, String)| (p.0@, p.1@)) == old_pairs);
                pairs.remove(i);
                proof {
                    lemma_remove(old_pairs, i as int);
                    assert(pairs@.map_values(|p: (String, String)| (p.0@, p.1@)) =~= old_pairs.remove(i as int));
                }
                self.pairs = pairs;
            },
            None => {
                assert(to_map(old_pairs).remove(key@) =~= to_map(old_pairs));
            },
        }
    }
}

} // verus!
