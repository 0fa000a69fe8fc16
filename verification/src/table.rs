//! Values kept under the name of a peer or of a transfer.
use crate::text;
use vstd::prelude::*;

verus! {

/// A map from strings to values.
pub struct Table<V> {
    keys: Vec<String>,
    values: Vec<V>,
}

impl<V> View for Table<V> {
    type V = Map<Seq<char>, V>;

    closed spec fn view(&self) -> Map<Seq<char>, V> {
        Map::new(
            |k: Seq<char>| text::views(self.keys@).contains(k),
            |k: Seq<char>| self.values@[text::views(self.keys@).index_of(k)],
        )
    }
}

impl<V> Table<V> {
    /// There is one value for each key, and no key occurs twice.
    #[verifier::type_invariant]
    closed spec fn wf(self) -> bool {
        self.keys@.len() == self.values@.len() && text::views(self.keys@).no_duplicates()
    }

    pub fn new() -> (r: Self)
        ensures
            r@ == Map::<Seq<char>, V>::empty(),
    {
        let r = Table { keys: Vec::new(), values: Vec::new() };
        assert(r@ =~= Map::<Seq<char>, V>::empty());
        r
    }

    fn find(&self, key: &String) -> (r: Option<usize>)
        ensures
            match r {
                None => !text::views(self.keys@).contains(key@),
                Some(i) => i < self.keys@.len() && text::views(self.keys@)[i as int] == key@
                    && text::views(self.keys@).index_of(key@) == i,
            },
            self.keys@.len() == self.values@.len(),
    {
        proof {
            use_type_invariant(self);
        }
        let mut i: usize = 0;
        while i < self.keys.len()
            invariant
                i <= self.keys.len(),
                text::views(self.keys@).no_duplicates(),
                self.keys@.len() == self.values@.len(),
                forall|j: int| 0 <= j < i ==> (#[trigger] text::views(self.keys@)[j]) != key@,
            decreases self.keys.len() - i,
        {
            if self.keys[i] == *key {
                assert(text::views(self.keys@)[i as int] == key@);
                return Some(i);
            }
            i += 1;
        }
        None
    }

    pub fn get(&self, key: &String) -> (r: Option<&V>)
        ensures
            match r {
                None => !self@.dom().contains(key@),
                Some(v) => self@.dom().contains(key@) && *v == self@[key@],
            },
    {
        match self.find(key) {
            None => None,
            Some(i) => {
                assert(text::views(self.keys@).contains(key@));
                Some(&self.values[i])
            },
        }
    }

    pub fn contains(&self, key: &String) -> (r: bool)
        ensures
            r == self@.dom().contains(key@),
    {
        self.get(key).is_some()
    }

    /// The keys and values, to be changed and put back.
    fn take(&mut self) -> (r: (Vec<String>, Vec<V>))
        ensures
            r.0 == old(self).keys,
            r.1 == old(self).values,
            r.0@.len() == r.1@.len(),
            text::views(r.0@).no_duplicates(),
    {
        let mut t = Table { keys: Vec::new(), values: Vec::new() };
        core::mem::swap(self, &mut t);
        proof {
            use_type_invariant(&t);
        }
        (t.keys, t.values)
    }

    /// Put a value under a key, in place of any other.
    pub fn insert(&mut self, key: String, value: V)
        ensures
            final(self)@ == old(self)@.insert(key@, value),
    {
        let found = self.find(&key);
        let (mut keys, mut values) = self.take();
        let ghost names = text::views(keys@);
        match found {
            Some(i) => {
                values.set(i, value);
                assert(names.contains(key@));
                assert forall|k: Seq<char>| #[trigger]
                    names.contains(k) && k != key@ implies names.index_of(k) != i by {}
            },
            None => {
                keys.push(key);
                values.push(value);
                assert(text::views(keys@) =~= names.push(key@));
                assert forall|k: Seq<char>| names.push(key@).contains(k) implies k == key@
                    || names.contains(k) by {
                    let i = names.push(key@).index_of(k);
                    if i < names.len() {
                        assert(names[i] == k);
                    }
                }
                assert forall|k: Seq<char>| #[trigger] names.contains(k) implies names.push(
                    key@,
                ).contains(k) && names.push(key@).index_of(k) == names.index_of(k) by {
                    let i = names.index_of(k);
                    assert(names.push(key@)[i] == k);
                }
                assert(names.push(key@)[names.len() as int] == key@);
                assert(names.push(key@).contains(key@));
            },
        }
        *self = Table { keys, values };
        assert(self@ =~= old(self)@.insert(key@, value));
    }

    /// Take away the value under a key.
    pub fn remove(&mut self, key: &String)
        ensures
            final(self)@ == old(self)@.remove(key@),
    {
        let found = self.find(key);
        let (mut keys, mut values) = self.take();
        if let Some(i) = found {
            let ghost names = text::views(keys@);
            keys.remove(i);
            values.remove(i);
            let ghost rest = text::views(keys@);
            assert(rest =~= names.remove(i as int));
            assert forall|k: Seq<char>| #[trigger] rest.contains(k) implies names.contains(k) && k
                != key@ && names.index_of(k) == (if rest.index_of(k) < i {
                rest.index_of(k)
            } else {
                rest.index_of(k) + 1
            }) by {
                let j = rest.index_of(k);
                let m = if j < i {
                    j
                } else {
                    j + 1
                };
                assert(names[m] == k);
            }
            assert forall|k: Seq<char>| #[trigger] names.contains(k) && k != key@ implies rest.contains(
                k,
            ) by {
                let m = names.index_of(k);
                let j = if m < i {
                    m
                } else {
                    m - 1
                };
                assert(rest[j] == k);
            }
        }
        *self = Table { keys, values };
        assert(self@ =~= old(self)@.remove(key@));
    }

    /// How many keys there are.
    pub fn len(&self) -> (r: usize)
        ensures
            r == self@.dom().len(),
            self@.dom().finite(),
    {
        proof {
            use_type_invariant(self);
            text::views(self.keys@).unique_seq_to_set();
            assert(self@.dom() =~= text::views(self.keys@).to_set());
        }
        self.keys.len()
    }

    /// The key and the value at a position between zero and the number of keys.
    pub closed spec fn entry(self, i: int) -> (String, V) {
        (self.keys@[i], self.values@[i])
    }

    /// The key and the value at a position between zero and the number of keys.
    pub fn at(&self, i: usize) -> (r: (&String, &V))
        requires
            i < self@.dom().len(),
        ensures
            (*r.0, *r.1) == self.entry(i as int),
            self@.dom().contains(r.0@),
            *r.1 == self@[r.0@],
    {
        proof {
            use_type_invariant(self);
            text::views(self.keys@).unique_seq_to_set();
            assert(self@.dom() =~= text::views(self.keys@).to_set());
            assert(text::views(self.keys@)[i as int] == self.keys@[i as int]@);
        }
        (&self.keys[i], &self.values[i])
    }

    /// The keys, each once.
    pub fn keys(&self) -> (r: Vec<String>)
        ensures
            text::views(r@).no_duplicates(),
            text::views(r@).to_set() == self@.dom(),
            r@.len() == self@.dom().len(),
            forall|i: int| 0 <= i < r@.len() ==> #[trigger] r@[i] == self.entry(i).0,
    {
        proof {
            use_type_invariant(self);
            text::views(self.keys@).unique_seq_to_set();
            assert(self@.dom() =~= text::views(self.keys@).to_set());
        }
        let r = self.keys.clone();
        assert(r@ =~= self.keys@);
        r
    }
}

} // verus!
