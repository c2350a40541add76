//! Tables of running watchers: one per watch key for single services, one
//! batch per scene for scene-wide status watching.
//!
//! The tables hold each handle exclusively. Registering under a key that is
//! already taken is refused and the handle is handed back; stopping hands
//! the handle to `Cancel::cancel` exactly once, after it left the table.
use vstd::prelude::*;

verus! {

/// A handle to a background task that can be asked to stop.
pub trait Cancel {
    /// Requests the task to stop.
    fn cancel(&self);
}

/// Identifies one watched service: the scene and the service id.
#[derive(Clone, Debug, PartialEq, Eq, Hash)]
pub struct ServiceKey {
    pub scene_name: String,
    pub service_id: String,
}

impl View for ServiceKey {
    type V = (Seq<char>, Seq<char>);

    open spec fn view(&self) -> (Seq<char>, Seq<char>) {
        (self.scene_name@, self.service_id@)
    }
}

/// A key of a watcher table: compared by its view.
pub trait TableKey: View + Sized {
    fn same_key(&self, other: &Self) -> (r: bool)
        ensures
            r == (self@ == other@),
    ;
}

impl TableKey for ServiceKey {
    fn same_key(&self, other: &Self) -> (r: bool) {
        self.same_as(other)
    }
}

impl TableKey for String {
    fn same_key(&self, other: &Self) -> (r: bool) {
        *self == *other
    }
}

/// A handle to each task of a batch: stopping the batch stops them all.
impl<H: Cancel> Cancel for Vec<H> {
    fn cancel(&self) {
        let mut i: usize = 0;
        while i < self.len()
            invariant
                i <= self@.len(),
            decreases self@.len() - i,
        {
            self[i].cancel();
            i = i + 1;
        }
    }
}

impl ServiceKey {
    pub fn new(scene_name: &str, service_id: &str) -> (r: ServiceKey)
        ensures
            r@ == (scene_name@, service_id@),
    {
        ServiceKey {
            scene_name: String::from_str(scene_name),
            service_id: String::from_str(service_id),
        }
    }

    /// Structural equality of two keys.
    pub fn same_as(&self, other: &ServiceKey) -> (r: bool)
        ensures
            r == (self@ == other@),
    {
        self.scene_name == other.scene_name && self.service_id == other.service_id
    }
}

/// Why a registry operation was refused.
#[derive(Clone, Copy, Debug, PartialEq, Eq, Structural)]
pub enum WatchError {
    /// A watcher is already registered under the key.
    AlreadyWatching,
    /// No watcher is registered under the key.
    NotWatching,
}

/// The map that a sequence of pairs denotes, later pairs overriding earlier.
pub open spec fn pairs_to_map<K, V>(s: Seq<(K, V)>) -> Map<K, V>
    decreases s.len(),
{
    if s.len() == 0 {
        Map::empty()
    } else {
        pairs_to_map(s.drop_last()).insert(s.last().0, s.last().1)
    }
}

pub open spec fn keys_unique<K, V>(s: Seq<(K, V)>) -> bool {
    forall|i: int, j: int|
        0 <= i < s.len() && 0 <= j < s.len() && i != j ==> #[trigger] s[i].0 != #[trigger] s[j].0
}

pub proof fn lemma_pairs_to_map_dom<K, V>(s: Seq<(K, V)>, k: K)
    ensures
        pairs_to_map(s).contains_key(k) <==> exists|i: int| 0 <= i < s.len() && #[trigger] s[i].0 == k,
    decreases s.len(),
{
    if s.len() > 0 {
        lemma_pairs_to_map_dom(s.drop_last(), k);
        if pairs_to_map(s).contains_key(k) {
            if k != s.last().0 {
                let i = choose|i: int| 0 <= i < s.drop_last().len() && #[trigger] s.drop_last()[i].0 == k;
                assert(s[i].0 == k);
            } else {
                assert(s[s.len() - 1].0 == k);
            }
        }
        if exists|i: int| 0 <= i < s.len() && #[trigger] s[i].0 == k {
            let i = choose|i: int| 0 <= i < s.len() && #[trigger] s[i].0 == k;
            if i < s.len() - 1 {
                assert(s.drop_last()[i].0 == k);
            }
        }
    }
}

pub proof fn lemma_pairs_to_map_index<K, V>(s: Seq<(K, V)>, i: int)
    requires
        keys_unique(s),
        0 <= i < s.len(),
    ensures
        pairs_to_map(s).contains_key(s[i].0),
        pairs_to_map(s)[s[i].0] == s[i].1,
    decreases s.len(),
{
    if i < s.len() - 1 {
        let t = s.drop_last();
        assert(keys_unique(t)) by {
            assert forall|a: int, b: int|
                0 <= a < t.len() && 0 <= b < t.len() && a != b implies #[trigger] t[a].0
                != #[trigger] t[b].0 by {
                assert(t[a] == s[a] && t[b] == s[b]);
            }
        }
        lemma_pairs_to_map_index(t, i);
        assert(t[i] == s[i]);
        assert(s[i].0 != s[s.len() - 1].0);
    }
}

pub proof fn lemma_pairs_to_map_remove<K, V>(s: Seq<(K, V)>, i: int)
    requires
        keys_unique(s),
        0 <= i < s.len(),
    ensures
        pairs_to_map(s.remove(i)) == pairs_to_map(s).remove(s[i].0),
    decreases s.len(),
{
    let t = s.drop_last();
    assert(keys_unique(t)) by {
        assert forall|a: int, b: int|
            0 <= a < t.len() && 0 <= b < t.len() && a != b implies #[trigger] t[a].0
            != #[trigger] t[b].0 by {
            assert(t[a] == s[a] && t[b] == s[b]);
        }
    }
    if i == s.len() - 1 {
        assert(s.remove(i) =~= t);
        lemma_pairs_to_map_dom(t, s[i].0);
        if pairs_to_map(t).contains_key(s[i].0) {
            let j = choose|j: int| 0 <= j < t.len() && #[trigger] t[j].0 == s[i].0;
            assert(s[j].0 == s[i].0);
        }
        assert(pairs_to_map(s.remove(i)) =~= pairs_to_map(s).remove(s[i].0));
    } else {
        lemma_pairs_to_map_remove(t, i);
        assert(s.remove(i) =~= t.remove(i).push(s.last()));
        assert(s.remove(i).drop_last() =~= t.remove(i));
        assert(t[i] == s[i]);
        assert(s[i].0 != s[s.len() - 1].0);
        assert(pairs_to_map(s.remove(i)) =~= pairs_to_map(s).remove(s[i].0));
    }
}

pub proof fn lemma_keys_unique_push<K, V>(s: Seq<(K, V)>, e: (K, V))
    requires
        keys_unique(s),
        !pairs_to_map(s).contains_key(e.0),
    ensures
        keys_unique(s.push(e)),
{
    lemma_pairs_to_map_dom(s, e.0);
    let u = s.push(e);
    assert forall|a: int, b: int|
        0 <= a < u.len() && 0 <= b < u.len() && a != b implies #[trigger] u[a].0
        != #[trigger] u[b].0 by {
        if a < s.len() && b < s.len() {
            assert(u[a] == s[a] && u[b] == s[b]);
        } else if a < s.len() {
            assert(u[a] == s[a]);
        } else {
            assert(u[b] == s[b]);
        }
    }
}

pub proof fn lemma_keys_unique_remove<K, V>(s: Seq<(K, V)>, i: int)
    requires
        keys_unique(s),
        0 <= i < s.len(),
    ensures
        keys_unique(s.remove(i)),
{
    let u = s.remove(i);
    assert forall|a: int, b: int|
        0 <= a < u.len() && 0 <= b < u.len() && a != b implies #[trigger] u[a].0
        != #[trigger] u[b].0 by {
        let a2 = if a < i { a } else { a + 1 };
        let b2 = if b < i { b } else { b + 1 };
        assert(u[a] == s[a2] && u[b] == s[b2]);
    }
}

/// Running watchers by key, at most one entry per key.
pub struct WatchTable<K, H> {
    entries: Vec<(K, H)>,
}

/// Status or log watchers of single services.
pub type ServiceTable<H> = WatchTable<ServiceKey, H>;

/// Scene-wide status watchers: one batch of handles per scene name.
pub type SceneTable<H> = WatchTable<String, Vec<H>>;

impl<K: TableKey, H> WatchTable<K, H> {
    pub closed spec fn pairs(&self) -> Seq<(K::V, H)> {
        Seq::new(self.entries@.len(), |i: int| (self.entries@[i].0@, self.entries@[i].1))
    }

    /// The handles by key.
    pub closed spec fn view(&self) -> Map<K::V, H> {
        pairs_to_map(self.pairs())
    }

    /// At most one entry per key.
    pub closed spec fn wf(&self) -> bool {
        keys_unique(self.pairs())
    }

    /// Positions of the entries registered under key `k`.
    pub closed spec fn positions_of(&self, k: K::V) -> Set<int> {
        Set::new(|i: int| 0 <= i < self.entries@.len() && self.entries@[i].0@ == k)
    }

    /// At most one handle per key: in a well-formed table the entries under
    /// a key are at most one, and its handle is the one the view gives.
    pub proof fn lemma_one_handle_per_key(&self, k: K::V)
        requires
            self.wf(),
        ensures
            forall|i: int, j: int|
                self.positions_of(k).contains(i) && self.positions_of(k).contains(j) ==> i == j,
            forall|i: int| self.positions_of(k).contains(i) ==> self@[k] == self.pairs()[i].1,
    {
        assert forall|i: int, j: int|
            self.positions_of(k).contains(i) && self.positions_of(k).contains(j) implies i == j by {
            if i != j {
                assert(self.pairs()[i].0 == k && self.pairs()[j].0 == k);
            }
        }
        assert forall|i: int| self.positions_of(k).contains(i) implies self@[k] == self.pairs()[i].1 by {
            lemma_pairs_to_map_index(self.pairs(), i);
        }
    }

    pub fn new() -> (r: WatchTable<K, H>)
        ensures
            r.wf(),
            r@ == Map::<K::V, H>::empty(),
    {
        let r = WatchTable { entries: Vec::new() };
        assert(r.pairs() =~= Seq::<(K::V, H)>::empty());
        r
    }

    fn find(&self, key: &K) -> (r: Option<usize>)
        ensures
            match r {
                Some(i) => i < self.entries@.len() && self.entries@[i as int].0@ == key@,
                None => forall|i: int|
                    0 <= i < self.entries@.len() ==> #[trigger] self.entries@[i].0@ != key@,
            },
    {
        let mut i: usize = 0;
        while i < self.entries.len()
            invariant
                i <= self.entries@.len(),
                forall|j: int| 0 <= j < i ==> #[trigger] self.entries@[j].0@ != key@,
            decreases self.entries@.len() - i,
        {
            if self.entries[i].0.same_key(key) {
                return Some(i);
            }
            i = i + 1;
        }
        None
    }

    proof fn lemma_not_found(&self, key: K::V)
        requires
            forall|i: int| 0 <= i < self.entries@.len() ==> #[trigger] self.entries@[i].0@ != key,
        ensures
            !self@.contains_key(key),
    {
        lemma_pairs_to_map_dom(self.pairs(), key);
        if exists|i: int| 0 <= i < self.pairs().len() && #[trigger] self.pairs()[i].0 == key {
            let i = choose|i: int| 0 <= i < self.pairs().len() && #[trigger] self.pairs()[i].0 == key;
            assert(self.entries@[i].0@ == key);
        }
    }

    /// Whether a watcher is registered under `key`.
    pub fn contains(&self, key: &K) -> (r: bool)
        requires
            self.wf(),
        ensures
            r == self@.contains_key(key@),
    {
        match self.find(key) {
            Some(i) => {
                proof {
                    lemma_pairs_to_map_index(self.pairs(), i as int);
                }
                true
            },
            None => {
                proof {
                    self.lemma_not_found(key@);
                }
                false
            },
        }
    }

    /// Registers `handle` under `key`. Where `key` is taken the table is left
    /// as it was and the handle comes back with `AlreadyWatching`.
    pub fn register(&mut self, key: K, handle: H) -> (r: Result<(), (WatchError, H)>)
        requires
            old(self).wf(),
        ensures
            final(self).wf(),
            old(self)@.contains_key(key@) <==> r is Err,
            match r {
                Ok(()) => final(self)@ == old(self)@.insert(key@, handle),
                Err((e, h)) => e == WatchError::AlreadyWatching && h == handle && final(self)@
                    == old(self)@,
            },
    {
        match self.find(&key) {
            Some(i) => {
                proof {
                    lemma_pairs_to_map_index(self.pairs(), i as int);
                }
                Err((WatchError::AlreadyWatching, handle))
            },
            None => {
                proof {
                    self.lemma_not_found(key@);
                }
                let ghost before = self.pairs();
                let ghost k = key@;
                self.entries.push((key, handle));
                assert(self.pairs() =~= before.push((k, handle)));
                assert(before.push((k, handle)).drop_last() =~= before);
                proof {
                    lemma_keys_unique_push(before, (k, handle));
                }
                Ok(())
            },
        }
    }

    /// Removes the watcher registered under `key` and hands back its handle.
    pub fn unregister(&mut self, key: &K) -> (r: Option<H>)
        requires
            old(self).wf(),
        ensures
            final(self).wf(),
            final(self)@ == old(self)@.remove(key@),
            match r {
                Some(h) => old(self)@.contains_key(key@) && h == old(self)@[key@],
                None => !old(self)@.contains_key(key@),
            },
    {
        match self.find(key) {
            Some(i) => {
                let ghost before = self.pairs();
                proof {
                    lemma_pairs_to_map_index(before, i as int);
                    lemma_pairs_to_map_remove(before, i as int);
                    lemma_keys_unique_remove(before, i as int);
                }
                let (_, h) = self.entries.remove(i);
                assert(self.pairs() =~= before.remove(i as int));
                Some(h)
            },
            None => {
                proof {
                    self.lemma_not_found(key@);
                }
                assert(self@ =~= self@.remove(key@));
                None
            },
        }
    }

    /// Removes the watcher registered under `key`, then asks it to stop.
    /// Without one, `NotWatching` and the table is left as it was.
    pub fn cancel_and_unregister(&mut self, key: &K) -> (r: Result<(), WatchError>)
        where
            H: Cancel,
        requires
            old(self).wf(),
        ensures
            final(self).wf(),
            final(self)@ == old(self)@.remove(key@),
            r is Ok <==> old(self)@.contains_key(key@),
            r matches Err(e) ==> e == WatchError::NotWatching,
    {
        match self.unregister(key) {
            Some(h) => {
                h.cancel();
                Ok(())
            },
            None => Err(WatchError::NotWatching),
        }
    }

    /// Asks every registered watcher to stop and empties the table.
    pub fn cancel_all(&mut self)
        where
            H: Cancel,
        requires
            old(self).wf(),
        ensures
            final(self).wf(),
            final(self)@ == Map::<K::V, H>::empty(),
    {
        while self.entries.len() > 0
            invariant
                self.wf(),
            decreases self.entries@.len(),
        {
            let ghost before = self.pairs();
            let e = self.entries.pop();
            match e {
                Some((_, h)) => h.cancel(),
                None => {},
            }
            proof {
                lemma_keys_unique_remove(before, before.len() - 1);
            }
            assert(self.pairs() =~= before.remove(before.len() - 1));
        }
        assert(self.pairs() =~= Seq::<(K::V, H)>::empty());
    }
}

/// A key holds one handle at a time: after a handle was registered under a
/// key, the key is taken by that handle, so `register` refuses a second one
/// there and leaves the table as it is, until the key is stopped.
pub proof fn lemma_register_twice<K, H>(table: Map<K, H>, key: K, first: H)
    ensures
        table.insert(key, first).contains_key(key),
        table.insert(key, first)[key] == first,
        !table.insert(key, first).remove(key).contains_key(key),
{
}

/// Stopping twice: the first stop removes the key, so the second finds no
/// watcher (`NotWatching`), cancels nothing and leaves the table as the first
/// left it.
pub proof fn lemma_stop_twice<K, H>(table: Map<K, H>, key: K)
    ensures
        !table.remove(key).contains_key(key),
        table.remove(key).remove(key) == table.remove(key),
{
    assert(table.remove(key).remove(key) =~= table.remove(key));
}

/// Stopping an absent key leaves the table as it is.
pub proof fn lemma_stop_absent<K, H>(table: Map<K, H>, key: K)
    requires
        !table.contains_key(key),
    ensures
        table.remove(key) == table,
{
    assert(table.remove(key) =~= table);
}

} // verus!
