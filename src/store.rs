//! The node's key-value store: each key maps to the compact JSON text of
//! its value. Every operation takes the whole store at once, so each one is
//! applied as an indivisible unit; a node shares one store between its
//! request tasks behind a single lock.
use vstd::prelude::*;
use vstd::string::*;

verus! {

/// An in-memory map from key to JSON value text, keys unique.
pub struct Cache {
    entries: Vec<(String, String)>,
    model: Ghost<Map<Seq<char>, Seq<char>>>,
}

impl View for Cache {
    type V = Map<Seq<char>, Seq<char>>;

    closed spec fn view(&self) -> Map<Seq<char>, Seq<char>> {
        self.model@
    }
}

impl Cache {
    /// The entries hold each key once, and they are exactly the model.
    pub closed spec fn wf(&self) -> bool {
        &&& forall|i: int, j: int|
            0 <= i < self.entries@.len() && 0 <= j < self.entries@.len() && i != j
                ==> self.entries@[i].0@ != self.entries@[j].0@
        &&& forall|i: int|
            0 <= i < self.entries@.len() ==> #[trigger] self.model@.contains_key(
                self.entries@[i].0@,
            ) && self.model@[self.entries@[i].0@] == self.entries@[i].1@
        &&& forall|k: Seq<char>|
            #[trigger] self.model@.contains_key(k) ==> exists|i: int|
                0 <= i < self.entries@.len() && self.entries@[i].0@ == k
    }

    /// An empty store.
    pub fn new() -> (r: Cache)
        ensures
            r.wf(),
            r@ == Map::<Seq<char>, Seq<char>>::empty(),
    {
        Cache { entries: Vec::new(), model: Ghost(Map::empty()) }
    }

    /// Position of `key` among the entries, if it is there.
    fn find(&self, key: &str) -> (r: Option<usize>)
        requires
            self.wf(),
        ensures
            match r {
                Some(i) => i < self.entries@.len() && self.entries@[i as int].0@ == key@,
                None => !self@.contains_key(key@),
            },
    {
        let probe = String::from_str(key);
        let mut i: usize = 0;
        while i < self.entries.len()
            invariant
                self.wf(),
                probe@ == key@,
                i <= self.entries@.len(),
                forall|j: int| 0 <= j < i ==> self.entries@[j].0@ != key@,
            decreases self.entries@.len() - i,
        {
            if self.entries[i].0 == probe {
                return Some(i);
            }
            i = i + 1;
        }
        None
    }

    /// Inserts `key` with `value`, replacing any earlier value.
    pub fn set(&mut self, key: String, value: String)
        requires
            old(self).wf(),
        ensures
            final(self).wf(),
            final(self)@ == old(self)@.insert(key@, value@),
    {
        let ghost k = key@;
        let ghost v = value@;
        let ghost pre = self.entries@;
        let ghost m = self.model@;
        match self.find(key.as_str()) {
            Some(i) => {
                self.entries.set(i, (key, value));
                self.model = Ghost(m.insert(k, v));
                assert forall|kk: Seq<char>| #[trigger] self.model@.contains_key(kk) implies exists|
                    j: int,
                | 0 <= j < self.entries@.len() && self.entries@[j].0@ == kk by {
                    if kk == k {
                        assert(self.entries@[i as int].0@ == kk);
                    } else {
                        let j = choose|j: int| 0 <= j < pre.len() && pre[j].0@ == kk;
                        assert(self.entries@[j].0@ == kk);
                    }
                }
            },
            None => {
                self.entries.push((key, value));
                self.model = Ghost(m.insert(k, v));
                assert forall|j: int| 0 <= j < pre.len() implies pre[j].0@ != k by {
                    assert(m.contains_key(pre[j].0@));
                }
                assert forall|kk: Seq<char>| #[trigger] self.model@.contains_key(kk) implies exists|
                    j: int,
                | 0 <= j < self.entries@.len() && self.entries@[j].0@ == kk by {
                    if kk == k {
                        assert(self.entries@[pre.len() as int].0@ == kk);
                    } else {
                        let j = choose|j: int| 0 <= j < pre.len() && pre[j].0@ == kk;
                        assert(self.entries@[j].0@ == kk);
                    }
                }
            },
        }
    }

    /// The value stored under `key`, if any.
    pub fn get(&self, key: &str) -> (r: Option<String>)
        requires
            self.wf(),
        ensures
            r matches Some(v) ==> self@.contains_key(key@) && v@ == self@[key@],
            r is None ==> !self@.contains_key(key@),
    {
        match self.find(key) {
            Some(i) => {
                assert(self.model@.contains_key(self.entries@[i as int].0@));
                Some(self.entries[i].1.clone())
            },
            None => None,
        }
    }

    /// Removes `key`; returns 1 if it was present and 0 if not.
    pub fn delete(&mut self, key: &str) -> (r: usize)
        requires
            old(self).wf(),
        ensures
            final(self).wf(),
            final(self)@ == old(self)@.remove(key@),
            r == (if old(self)@.contains_key(key@) { 1usize } else { 0usize }),
    {
        let ghost pre = self.entries@;
        let ghost m = self.model@;
        match self.find(key) {
            Some(i) => {
                self.entries.remove(i);
                self.model = Ghost(m.remove(key@));
                assert(m.contains_key(key@));
                assert forall|j: int| 0 <= j < self.entries@.len() implies #[trigger] self.model@.contains_key(
                    self.entries@[j].0@,
                ) && self.model@[self.entries@[j].0@] == self.entries@[j].1@ by {
                    if j < i {
                        assert(self.entries@[j] == pre[j]);
                    } else {
                        assert(self.entries@[j] == pre[j + 1]);
                    }
                }
                assert forall|kk: Seq<char>| #[trigger] self.model@.contains_key(kk) implies exists|
                    j: int,
                | 0 <= j < self.entries@.len() && self.entries@[j].0@ == kk by {
                    let j = choose|j: int| 0 <= j < pre.len() && pre[j].0@ == kk;
                    if j < i {
                        assert(self.entries@[j] == pre[j]);
                    } else {
                        assert(j != i);
                        assert(self.entries@[j - 1] == pre[j]);
                    }
                }
                1
            },
            None => {
                assert(self.model@ =~= m.remove(key@));
                0
            },
        }
    }
}

/// The store model after `Cache::set(key, w)` for each `w` of `writes`, in
/// the order in which the lock admitted them.
pub open spec fn after_writes(
    m: Map<Seq<char>, Seq<char>>,
    key: Seq<char>,
    writes: Seq<Seq<char>>,
) -> Map<Seq<char>, Seq<char>>
    decreases writes.len(),
{
    if writes.len() == 0 {
        m
    } else {
        after_writes(m, key, writes.drop_last()).insert(key, writes.last())
    }
}

/// Concurrent writes to one key, in whatever order the lock admits them,
/// leave the store holding exactly one of the written values (the last one
/// applied), and no other key is touched.
pub proof fn lemma_concurrent_writes_leave_one(
    m: Map<Seq<char>, Seq<char>>,
    key: Seq<char>,
    writes: Seq<Seq<char>>,
)
    requires
        writes.len() > 0,
    ensures
        after_writes(m, key, writes).contains_key(key),
        after_writes(m, key, writes)[key] == writes.last(),
        writes.contains(after_writes(m, key, writes)[key]),
        forall|k: Seq<char>|
            k != key ==> (#[trigger] after_writes(m, key, writes).contains_key(k) <==> m.contains_key(k)),
        forall|k: Seq<char>|
            k != key && m.contains_key(k) ==> #[trigger] after_writes(m, key, writes)[k] == m[k],
    decreases writes.len(),
{
    assert(writes[writes.len() - 1] == writes.last());
    if writes.len() > 1 {
        lemma_concurrent_writes_leave_one(m, key, writes.drop_last());
    } else {
        assert(after_writes(m, key, writes.drop_last()) == m);
    }
}

} // verus!
