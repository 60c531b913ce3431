//! A map from strings to values that keeps its keys in insertion order.
use vstd::prelude::*;
use crate::text::str_eq;

verus! {

/// Values by string key, each key at most once, in the order in which the
/// keys were first inserted.
pub struct StringMap<V> {
    keys: Vec<String>,
    values: Vec<V>,
}

pub open spec fn key_index(keys: Seq<String>, k: Seq<char>) -> Option<int>
    decreases keys.len(),
{
    if keys.len() == 0 {
        None
    } else if keys.last()@ == k {
        Some(keys.len() - 1)
    } else {
        key_index(keys.drop_last(), k)
    }
}

pub(crate) proof fn lemma_key_index(keys: Seq<String>, k: Seq<char>)
    ensures
        key_index(keys, k) matches Some(i) ==> 0 <= i < keys.len() && keys[i]@ == k,
        key_index(keys, k) is None ==> forall|i: int| 0 <= i < keys.len() ==> keys[i]@ != k,
    decreases keys.len(),
{
    if keys.len() > 0 && keys.last()@ != k {
        lemma_key_index(keys.drop_last(), k);
        assert forall|i: int| 0 <= i < keys.len() - 1 implies keys[i] == keys.drop_last()[i] by {}
    }
}

impl<V> StringMap<V> {
    /// Keys are distinct and each has its record.
    pub closed spec fn wf(&self) -> bool {
        &&& self.keys@.len() == self.values@.len()
        &&& forall|i: int, j: int|
            0 <= i < j < self.keys@.len() ==> self.keys@[i]@ != self.keys@[j]@
    }

    /// The record stored under `k`.
    pub closed spec fn lookup(&self, k: Seq<char>) -> Option<V> {
        match key_index(self.keys@, k) {
            Some(i) => Some(self.values@[i]),
            None => None,
        }
    }

    /// The keys, in the order they were first inserted.
    pub closed spec fn key_seq(&self) -> Seq<Seq<char>> {
        self.keys@.map_values(|s: String| s@)
    }

    /// An empty map.
    pub fn new() -> (res: Self)
        ensures
            res.wf(),
            forall|k: Seq<char>| res.lookup(k) is None,
            res.key_seq().len() == 0,
    {
        StringMap { keys: Vec::new(), values: Vec::new() }
    }

    /// The number of keys.
    pub fn len(&self) -> (res: usize)
        requires
            self.wf(),
        ensures
            res == self.key_seq().len(),
    {
        self.keys.len()
    }

    fn find(&self, k: &str) -> (res: Option<usize>)
        requires
            self.wf(),
        ensures
            match res {
                Some(i) => key_index(self.keys@, k@) == Some(i as int),
                None => key_index(self.keys@, k@) is None,
            },
    {
        let mut i = self.keys.len();
        assert(self.keys@.take(i as int) =~= self.keys@);
        while i > 0
            invariant
                i <= self.keys.len(),
                key_index(self.keys@, k@) == key_index(self.keys@.take(i as int), k@),
            decreases i,
        {
            assert(self.keys@.take(i as int).drop_last() =~= self.keys@.take(i - 1));
            if str_eq(self.keys[i - 1].as_str(), k) {
                return Some(i - 1);
            }
            i = i - 1;
        }
        None
    }

    /// The record stored under `k`.
    pub fn get(&self, k: &str) -> (res: Option<&V>)
        requires
            self.wf(),
        ensures
            match res {
                Some(v) => self.lookup(k@) == Some(*v),
                None => self.lookup(k@) is None,
            },
    {
        proof {
            lemma_key_index(self.keys@, k@);
        }
        match self.find(k) {
            Some(i) => Some(&self.values[i]),
            None => None,
        }
    }

    /// Stores `v` under `k`, replacing what was stored there.
    pub fn insert(&mut self, k: String, v: V)
        requires
            old(self).wf(),
        ensures
            final(self).wf(),
            final(self).lookup(k@) == Some(v),
            forall|k2: Seq<char>| k2 != k@ ==> final(self).lookup(k2) == old(self).lookup(k2),
            final(self).key_seq() == (if old(self).lookup(k@) is Some {
                old(self).key_seq()
            } else {
                old(self).key_seq().push(k@)
            }),
    {
        proof {
            lemma_key_index(self.keys@, k@);
        }
        match self.find(k.as_str()) {
            Some(i) => {
                self.values.set(i, v);
                assert forall|k2: Seq<char>| k2 != k@ implies self.lookup(k2) == old(self).lookup(k2) by {
                    lemma_key_index(self.keys@, k2);
                }
            },
            None => {
                let ghost ok = self.keys@;
                self.keys.push(k);
                self.values.push(v);
                assert(self.keys@.drop_last() =~= ok);
                assert(self.key_seq() =~= ok.map_values(|s: String| s@).push(k@));
                assert forall|k2: Seq<char>| k2 != k@ implies self.lookup(k2) == old(self).lookup(k2) by {
                    lemma_key_index(ok, k2);
                }
            },
        }
    }

    /// The values, in the order of their keys.
    pub closed spec fn value_seq(&self) -> Seq<V> {
        self.values@
    }

    /// The values, in the order of their keys.
    pub fn values(&self) -> (res: &Vec<V>)
        requires
            self.wf(),
        ensures
            res@ == self.value_seq(),
            res@.len() == self.key_seq().len(),
    {
        &self.values
    }

    /// The keys, in the order they were first inserted.
    pub fn keys(&self) -> (res: &Vec<String>)
        requires
            self.wf(),
        ensures
            res@.map_values(|s: String| s@) == self.key_seq(),
    {
        &self.keys
    }

    /// A key is stored exactly when it is among the keys.
    pub proof fn lemma_lookup_key(&self, k: Seq<char>)
        requires
            self.wf(),
        ensures
            self.lookup(k) is Some <==> self.key_seq().contains(k),
    {
        lemma_key_index(self.keys@, k);
        if self.key_seq().contains(k) {
            let i = choose|i: int| 0 <= i < self.key_seq().len() && self.key_seq()[i] == k;
            assert(self.keys@[i]@ == k);
        }
        if self.lookup(k) is Some {
            let i = key_index(self.keys@, k)->0;
            assert(self.key_seq()[i] == k);
        }
    }

    /// Each key holds the value at its position.
    pub proof fn lemma_entries(&self)
        requires
            self.wf(),
        ensures
            self.value_seq().len() == self.key_seq().len(),
            forall|i: int| 0 <= i < self.key_seq().len() ==> #[trigger] self.lookup(self.key_seq()[i]) == Some(self.value_seq()[i]),
    {
        assert forall|i: int| 0 <= i < self.key_seq().len() implies #[trigger] self.lookup(self.key_seq()[i]) == Some(self.value_seq()[i]) by {
            lemma_key_index(self.keys@, self.keys@[i]@);
            match key_index(self.keys@, self.keys@[i]@) {
                Some(j) => {
                    if j != i {
                        if j < i {
                            assert(self.keys@[j]@ != self.keys@[i]@);
                        } else {
                            assert(self.keys@[i]@ != self.keys@[j]@);
                        }
                    }
                },
                None => {},
            }
        }
    }
}

} // verus!
