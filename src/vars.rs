//! Variable stores: the session's variables, and a snapshot of the inherited
//! environment, both as lists of unique keys with their values.
use vstd::prelude::*;

use crate::commands::is_word;

verus! {

/// One variable: its name and its value.
pub type Entry = (Seq<char>, Seq<char>);

/// The index of the entry for `k`, or -1 when there is none.
pub open spec fn key_index(es: Seq<Entry>, k: Seq<char>) -> int
    decreases es.len(),
{
    if es.len() == 0 {
        -1
    } else if es.last().0 == k {
        es.len() - 1
    } else {
        key_index(es.drop_last(), k)
    }
}

/// The value of `k`, if it is set.
pub open spec fn lookup(es: Seq<Entry>, k: Seq<char>) -> Option<Seq<char>> {
    let i = key_index(es, k);
    if i >= 0 {
        Some(es[i].1)
    } else {
        None
    }
}

/// The entries after setting `k` to `v`: an existing entry keeps its place,
/// a new one comes last.
pub open spec fn assign(es: Seq<Entry>, k: Seq<char>, v: Seq<char>) -> Seq<Entry> {
    let i = key_index(es, k);
    if i >= 0 {
        es.update(i, (k, v))
    } else {
        es.push((k, v))
    }
}

/// No key occurs twice.
pub open spec fn keys_unique(es: Seq<Entry>) -> bool {
    forall|i: int, j: int| 0 <= i < j < es.len() ==> #[trigger] es[i].0 != #[trigger] es[j].0
}

/// The value of `k`: the session's first, then the environment's.
pub open spec fn resolve(store: Seq<Entry>, env: Seq<Entry>, k: Seq<char>) -> Option<Seq<char>> {
    match lookup(store, k) {
        Some(v) => Some(v),
        None => lookup(env, k),
    }
}

pub proof fn lemma_key_index(es: Seq<Entry>, k: Seq<char>)
    ensures
        -1 <= key_index(es, k) < es.len(),
        key_index(es, k) >= 0 ==> es[key_index(es, k)].0 == k,
        key_index(es, k) < 0 ==> forall|j: int| 0 <= j < es.len() ==> #[trigger] es[j].0 != k,
    decreases es.len(),
{
    if es.len() > 0 && es.last().0 != k {
        lemma_key_index(es.drop_last(), k);
        assert forall|j: int| 0 <= j < es.len() - 1 implies #[trigger] es[j] == es.drop_last()[j] by {}
    }
}

/// In a store without repeated keys, an entry's key finds that entry.
pub proof fn lemma_key_index_unique(es: Seq<Entry>, j: int)
    requires
        keys_unique(es),
        0 <= j < es.len(),
    ensures
        key_index(es, es[j].0) == j,
    decreases es.len(),
{
    if j < es.len() - 1 {
        assert(es[j].0 != es[es.len() - 1].0);
        lemma_key_index_unique(es.drop_last(), j);
    }
}

/// Setting a variable keeps the keys unique, and the variable then reads back
/// the value it was given.
pub proof fn lemma_assign(es: Seq<Entry>, k: Seq<char>, v: Seq<char>)
    requires
        keys_unique(es),
    ensures
        keys_unique(assign(es, k, v)),
        lookup(assign(es, k, v), k) == Some(v),
{
    lemma_key_index(es, k);
    let i = key_index(es, k);
    let r = assign(es, k, v);
    if i >= 0 {
        assert forall|a: int, b: int| 0 <= a < b < r.len() implies #[trigger] r[a].0
            != #[trigger] r[b].0 by {
            assert(es[a].0 != es[b].0);
        }
        lemma_key_index_unique(r, i);
    } else {
        assert forall|a: int, b: int| 0 <= a < b < r.len() implies #[trigger] r[a].0
            != #[trigger] r[b].0 by {
            if b < es.len() {
                assert(es[a].0 != es[b].0);
            }
        }
        lemma_key_index_unique(r, es.len() as int);
    }
}

/// Variables in the order in which they were first set, each key once.
pub struct VarStore {
    entries: Vec<(String, String)>,
}

impl View for VarStore {
    type V = Seq<Entry>;

    closed spec fn view(&self) -> Seq<Entry> {
        self.entries@.map_values(|e: (String, String)| (e.0@, e.1@))
    }
}

impl VarStore {
    pub closed spec fn wf(&self) -> bool {
        keys_unique(self@)
    }

    pub fn new() -> (r: VarStore)
        ensures
            r.wf(),
            r@ == Seq::<Entry>::empty(),
    {
        let r = VarStore { entries: Vec::new() };
        proof {
            assert(r@ =~= Seq::<Entry>::empty());
        }
        r
    }

    /// The number of variables.
    pub fn len(&self) -> (r: usize)
        ensures
            r == self@.len(),
    {
        self.entries.len()
    }

    /// The name and the value of the variable at `i`.
    pub fn entry(&self, i: usize) -> (r: (&String, &String))
        requires
            i < self@.len(),
        ensures
            (r.0@, r.1@) == self@[i as int],
    {
        (&self.entries[i].0, &self.entries[i].1)
    }

    /// The index of the variable `key`, if it is set.
    pub fn find(&self, key: &str) -> (r: Option<usize>)
        ensures
            match r {
                Some(i) => i as int == key_index(self@, key@) && i < self@.len(),
                None => key_index(self@, key@) < 0,
            },
    {
        let n = self.entries.len();
        let mut i: usize = n;
        proof {
            assert(self@.subrange(0, n as int) =~= self@);
        }
        while i > 0
            invariant
                i <= n,
                n == self@.len(),
                key_index(self@, key@) == key_index(self@.subrange(0, i as int), key@),
            decreases i,
        {
            let ghost pre = self@.subrange(0, i as int);
            proof {
                assert(pre.drop_last() =~= self@.subrange(0, i - 1));
            }
            if is_word(&self.entries[i - 1].0, key) {
                return Some(i - 1);
            }
            i -= 1;
        }
        None
    }

    /// The value of `key`, if it is set.
    pub fn get(&self, key: &str) -> (r: Option<String>)
        ensures
            match r {
                Some(v) => lookup(self@, key@) == Some(v@),
                None => lookup(self@, key@) is None,
            },
    {
        match self.find(key) {
            Some(i) => Some(self.entries[i].1.clone()),
            None => None,
        }
    }

    /// Sets `key` to `value`, in place where it is already set.
    pub fn set(&mut self, key: String, value: String)
        requires
            old(self).wf(),
        ensures
            final(self).wf(),
            final(self)@ == assign(old(self)@, key@, value@),
    {
        proof {
            lemma_assign(self@, key@, value@);
        }
        let ghost before = self@;
        match self.find(key.as_str()) {
            Some(i) => {
                self.entries.set(i, (key, value));
                proof {
                    assert(self@ =~= before.update(i as int, (key@, value@)));
                }
            },
            None => {
                self.entries.push((key, value));
                proof {
                    assert(self@ =~= before.push((key@, value@)));
                }
            },
        }
    }
}

} // verus!
