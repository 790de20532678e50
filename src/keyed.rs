use vstd::prelude::*;

verus! {

/// The map that a list of keys and a list of values describe, a later entry
/// taking the place of an earlier one with the same key.
pub open spec fn map_of<T>(keys: Seq<Seq<char>>, vals: Seq<T>) -> Map<Seq<char>, T>
    decreases keys.len(),
{
    if keys.len() == 0 || vals.len() == 0 {
        Map::empty()
    } else {
        map_of(keys.drop_last(), vals.drop_last()).insert(keys.last(), vals.last())
    }
}

/// The keys of a list hold no two equal texts.
pub open spec fn keys_distinct(keys: Seq<Seq<char>>) -> bool {
    forall|i: int, j: int| 0 <= i < j < keys.len() ==> keys[i] != keys[j]
}

/// The views of a list of strings.
pub open spec fn key_views(keys: Seq<String>) -> Seq<Seq<char>> {
    keys.map_values(|k: String| k@)
}

proof fn lemma_map_of_index<T>(keys: Seq<Seq<char>>, vals: Seq<T>, i: int)
    requires
        keys.len() == vals.len(),
        keys_distinct(keys),
        0 <= i < keys.len(),
    ensures
        map_of(keys, vals).contains_key(keys[i]),
        map_of(keys, vals)[keys[i]] == vals[i],
    decreases keys.len(),
{
    if i < keys.len() - 1 {
        lemma_map_of_index(keys.drop_last(), vals.drop_last(), i);
    }
}

proof fn lemma_map_of_absent<T>(keys: Seq<Seq<char>>, vals: Seq<T>, k: Seq<char>)
    requires
        keys.len() == vals.len(),
        forall|i: int| 0 <= i < keys.len() ==> keys[i] != k,
    ensures
        !map_of(keys, vals).contains_key(k),
    decreases keys.len(),
{
    if keys.len() > 0 {
        lemma_map_of_absent(keys.drop_last(), vals.drop_last(), k);
    }
}

proof fn lemma_map_of_update<T>(keys: Seq<Seq<char>>, vals: Seq<T>, i: int, v: T)
    requires
        keys.len() == vals.len(),
        keys_distinct(keys),
        0 <= i < keys.len(),
    ensures
        map_of(keys, vals.update(i, v)) == map_of(keys, vals).insert(keys[i], v),
    decreases keys.len(),
{
    let n = keys.len() - 1;
    assert(vals.update(i, v).drop_last() =~= if i == n {
        vals.drop_last()
    } else {
        vals.drop_last().update(i, v)
    });
    if i < n {
        lemma_map_of_update(keys.drop_last(), vals.drop_last(), i, v);
        let base = map_of(keys.drop_last(), vals.drop_last());
        assert(base.insert(keys[i], v).insert(keys[n], vals[n]) =~= base.insert(
            keys[n],
            vals[n],
        ).insert(keys[i], v));
    } else {
        let base = map_of(keys.drop_last(), vals.drop_last());
        assert(base.insert(keys[n], vals[n]).insert(keys[n], v) =~= base.insert(keys[n], v));
    }
}

/// A map from text keys to values, kept as two parallel lists.
pub struct KeyedStore<T> {
    keys: Vec<String>,
    values: Vec<T>,
}

impl<T> KeyedStore<T> {
    /// The lists agree in length and hold each key once.
    pub closed spec fn wf(&self) -> bool {
        &&& self.keys.len() == self.values.len()
        &&& keys_distinct(key_views(self.keys@))
    }

    pub closed spec fn view(&self) -> Map<Seq<char>, T> {
        map_of(key_views(self.keys@), self.values@)
    }

    /// An empty map.
    pub fn new() -> (r: KeyedStore<T>)
        ensures
            r.wf(),
            r.view() == Map::<Seq<char>, T>::empty(),
    {
        KeyedStore { keys: Vec::new(), values: Vec::new() }
    }

    fn position(&self, key: &String) -> (r: Option<usize>)
        requires
            self.wf(),
        ensures
            match r {
                Some(i) => i < self.keys.len() && self.keys@[i as int]@ == key@,
                None => forall|j: int| 0 <= j < self.keys.len() ==> self.keys@[j]@ != key@,
            },
    {
        let mut i: usize = 0;
        while i < self.keys.len()
            invariant
                i <= self.keys.len(),
                forall|j: int| 0 <= j < i ==> self.keys@[j]@ != key@,
            decreases self.keys.len() - i,
        {
            if self.keys[i] == *key {
                return Some(i);
            }
            i = i + 1;
        }
        None
    }

    /// The value stored under a key, if there is one.
    pub fn get(&self, key: &String) -> (r: Option<&T>)
        requires
            self.wf(),
        ensures
            r is Some <==> self.view().contains_key(key@),
            r is Some ==> *r->Some_0 == self.view()[key@],
    {
        let ghost ks = key_views(self.keys@);
        match self.position(key) {
            Some(i) => {
                proof {
                    lemma_map_of_index(ks, self.values@, i as int);
                }
                Some(&self.values[i])
            },
            None => {
                proof {
                    assert forall|j: int| 0 <= j < ks.len() implies ks[j] != key@ by {
                        assert(ks[j] == self.keys@[j]@);
                    }
                    lemma_map_of_absent(ks, self.values@, key@);
                }
                None
            },
        }
    }

    /// Stores a value under a key, handing back the value it replaces.
    pub fn insert(&mut self, key: &String, value: T) -> (r: Option<T>)
        requires
            old(self).wf(),
        ensures
            final(self).wf(),
            final(self).view() == old(self).view().insert(key@, value),
            r is Some <==> old(self).view().contains_key(key@),
            r is Some ==> r->Some_0 == old(self).view()[key@],
    {
        let ghost ks = key_views(self.keys@);
        match self.position(key) {
            Some(i) => {
                proof {
                    lemma_map_of_index(ks, self.values@, i as int);
                    lemma_map_of_update(ks, self.values@, i as int, value);
                }
                let mut v = value;
                self.values.set_and_swap(i, &mut v);
                Some(v)
            },
            None => {
                proof {
                    assert forall|j: int| 0 <= j < ks.len() implies ks[j] != key@ by {
                        assert(ks[j] == self.keys@[j]@);
                    }
                    lemma_map_of_absent(ks, self.values@, key@);
                }
                self.keys.push(key.clone());
                self.values.push(value);
                proof {
                    let nks = key_views(self.keys@);
                    assert(nks.drop_last() =~= ks);
                    assert forall|a: int, b: int| 0 <= a < b < nks.len() implies nks[a]
                        != nks[b] by {
                        assert(nks[a] == ks[a]);
                        if b < ks.len() {
                            assert(nks[b] == ks[b]);
                        }
                    }
                    assert(self.values@.drop_last() =~= old(self).values@);
                }
                None
            },
        }
    }
}

} // verus!
