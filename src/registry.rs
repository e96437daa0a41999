use vstd::prelude::*;

verus! {

/// Where a key's entry is stored: which kind it is, and its index in that store.
#[derive(Clone, Copy, Debug, PartialEq, Eq, Structural)]
pub enum Handle {
    Value(usize),
    Timeline(usize),
}

/// Why a lookup was refused.
#[derive(Clone, Copy, Debug, PartialEq, Eq, Structural)]
pub enum RegistryError {
    /// The key is registered for the other kind of entry.
    KindMismatch,
}

/// A registered key and the entry it names.
#[derive(Debug)]
pub struct KeyEntry {
    pub key: String,
    pub handle: Handle,
}

/// Keyed store of animated values (`V`) and timelines (`T`). A key names at most
/// one entry; the first registration of a key decides its entry.
#[derive(Debug)]
pub struct Registry<V, T> {
    keys: Vec<KeyEntry>,
    values: Vec<V>,
    timelines: Vec<T>,
}

/// Whether `key` stands at position `i` of `keys`.
pub open spec fn key_at_in(keys: Seq<(Seq<char>, Handle)>, i: int, key: Seq<char>) -> bool {
    0 <= i < keys.len() && keys[i].0 == key
}

pub open spec fn keys_contain(keys: Seq<(Seq<char>, Handle)>, key: Seq<char>) -> bool {
    exists|i: int| key_at_in(keys, i, key)
}

/// The handle `keys` give for `key`, if any.
pub open spec fn keys_lookup(keys: Seq<(Seq<char>, Handle)>, key: Seq<char>) -> Option<Handle> {
    if keys_contain(keys, key) {
        Some(keys[choose|i: int| key_at_in(keys, i, key)].1)
    } else {
        None
    }
}

/// The mathematical state of a registry.
pub struct RegistryView<V, T> {
    pub keys: Seq<(Seq<char>, Handle)>,
    pub values: Seq<V>,
    pub timelines: Seq<T>,
}

impl<V, T> RegistryView<V, T> {
    /// Whether `key` is registered at position `i` of the key list.
    pub open spec fn key_at(&self, i: int, key: Seq<char>) -> bool {
        key_at_in(self.keys, i, key)
    }

    pub open spec fn contains(&self, key: Seq<char>) -> bool {
        keys_contain(self.keys, key)
    }

    /// The entry `key` names, if any.
    pub open spec fn lookup(&self, key: Seq<char>) -> Option<Handle> {
        keys_lookup(self.keys, key)
    }

    /// Keys are unique and every handle points into its store.
    pub open spec fn wf(&self) -> bool {
        &&& forall|i: int, j: int|
            0 <= i < self.keys.len() && 0 <= j < self.keys.len() && #[trigger] self.keys[i].0
                == #[trigger] self.keys[j].0 ==> i == j
        &&& forall|i: int| 0 <= i < self.keys.len() ==> match #[trigger] self.keys[i].1 {
            Handle::Value(n) => n < self.values.len(),
            Handle::Timeline(n) => n < self.timelines.len(),
        }
    }

    /// The state after adding `key` for a new entry at `handle`.
    pub open spec fn with_key(self, key: Seq<char>, handle: Handle) -> RegistryView<V, T> {
        RegistryView { keys: self.keys.push((key, handle)), ..self }
    }

    /// Registry state and result of asking for the value under `key`, offering
    /// `initial` for it: an existing value is returned untouched (the offer is
    /// ignored), a timeline under that key is a mismatch, and an unseen key gets
    /// `initial` as its new entry.
    pub open spec fn value_for(self, key: Seq<char>, initial: V) -> (RegistryView<V, T>, Result<usize, RegistryError>) {
        match self.lookup(key) {
            Some(Handle::Value(n)) => (self, Ok(n)),
            Some(Handle::Timeline(_)) => (self, Err(RegistryError::KindMismatch)),
            None => {
                let n = self.values.len() as usize;
                (RegistryView { values: self.values.push(initial), ..self }.with_key(key, Handle::Value(n)), Ok(n))
            },
        }
    }

    /// As `value_for`, for timelines: `empty` becomes the entry of an unseen key.
    pub open spec fn timeline_for(self, key: Seq<char>, empty: T) -> (RegistryView<V, T>, Result<usize, RegistryError>) {
        match self.lookup(key) {
            Some(Handle::Timeline(n)) => (self, Ok(n)),
            Some(Handle::Value(_)) => (self, Err(RegistryError::KindMismatch)),
            None => {
                let n = self.timelines.len() as usize;
                (RegistryView { timelines: self.timelines.push(empty), ..self }.with_key(key, Handle::Timeline(n)), Ok(n))
            },
        }
    }
}

impl<V, T> View for Registry<V, T> {
    type V = RegistryView<V, T>;

    closed spec fn view(&self) -> RegistryView<V, T> {
        RegistryView {
            keys: self.keys@.map_values(|e: KeyEntry| (e.key@, e.handle)),
            values: self.values@,
            timelines: self.timelines@,
        }
    }
}

proof fn lemma_lookup_found<V, T>(r: RegistryView<V, T>, i: int, key: Seq<char>)
    requires
        r.wf(),
        r.key_at(i, key),
    ensures
        r.lookup(key) == Some(r.keys[i].1),
{
    let j = choose|j: int| key_at_in(r.keys, j, key);
    assert(r.keys[i].0 == r.keys[j].0);
}

proof fn lemma_with_key<V, T>(r: RegistryView<V, T>, key: Seq<char>, h: Handle)
    requires
        r.wf(),
        !r.contains(key),
    ensures
        forall|k: Seq<char>| k != key ==> #[trigger] r.with_key(key, h).lookup(k) == r.lookup(k),
        r.with_key(key, h).lookup(key) == Some(h),
{
    let s = r.with_key(key, h);
    let n = r.keys.len() as int;
    assert(s.key_at(n, key));
    assert forall|k: Seq<char>| k != key implies #[trigger] s.lookup(k) == r.lookup(k) by {
        if r.contains(k) {
            let i = choose|i: int| key_at_in(r.keys, i, k);
            assert(s.key_at(i, k));
            let j = choose|j: int| key_at_in(s.keys, j, k);
            assert(j != n);
            assert(r.key_at(j, k));
            lemma_lookup_found(r, j, k);
        } else {
            if s.contains(k) {
                let j = choose|j: int| key_at_in(s.keys, j, k);
                assert(r.key_at(j, k));
            }
        }
    }
    let j = choose|j: int| key_at_in(s.keys, j, key);
    if j != n {
        assert(r.key_at(j, key));
    }
}

impl<V, T> Registry<V, T> {
    pub open spec fn wf(&self) -> bool {
        self@.wf()
    }

    /// An empty registry.
    pub fn new() -> (r: Registry<V, T>)
        ensures
            r.wf(),
            r@.keys.len() == 0,
            r@.values.len() == 0,
            r@.timelines.len() == 0,
    {
        Registry { keys: Vec::new(), values: Vec::new(), timelines: Vec::new() }
    }

    /// Position of `key` in the key list, if registered.
    fn position(&self, key: &String) -> (r: Option<usize>)
        requires
            self.wf(),
        ensures
            r matches Some(i) ==> self@.key_at(i as int, key@) && self@.lookup(key@) == Some(self@.keys[i as int].1),
            r.is_none() ==> !self@.contains(key@) && self@.lookup(key@).is_none(),
    {
        let mut i: usize = 0;
        while i < self.keys.len()
            invariant
                self.wf(),
                i <= self.keys@.len(),
                forall|j: int| 0 <= j < i ==> !self@.key_at(j, key@),
            decreases self.keys@.len() - i,
        {
            if self.keys[i].key == *key {
                proof {
                    lemma_lookup_found(self@, i as int, key@);
                }
                return Some(i);
            }
            i = i + 1;
        }
        proof {
            if self@.contains(key@) {
                let j = choose|j: int| key_at_in(self@.keys, j, key@);
                assert(self@.key_at(j, key@));
            }
        }
        None
    }

    /// The entry `key` names, if any.
    pub fn lookup(&self, key: &str) -> (r: Option<Handle>)
        requires
            self.wf(),
        ensures
            r == self@.lookup(key@),
    {
        let k = key.to_owned();
        match self.position(&k) {
            Some(i) => Some(self.keys[i].handle),
            None => None,
        }
    }

    /// The value entry under `key`, created from `initial` when `key` is unseen.
    /// First registration wins: for a key already holding a value, `initial` is
    /// ignored and the registry is unchanged. A key holding a timeline is refused.
    pub fn value_for(&mut self, key: &str, initial: V) -> (r: Result<usize, RegistryError>)
        requires
            old(self).wf(),
        ensures
            final(self).wf(),
            (final(self)@, r) == old(self)@.value_for(key@, initial),
    {
        let k = key.to_owned();
        match self.position(&k) {
            Some(i) => match self.keys[i].handle {
                Handle::Value(n) => Ok(n),
                Handle::Timeline(_) => Err(RegistryError::KindMismatch),
            },
            None => {
                let n = self.values.len();
                let ghost before = self@;
                self.values.push(initial);
                self.keys.push(KeyEntry { key: k, handle: Handle::Value(n) });
                proof {
                    let mid = RegistryView { values: before.values.push(initial), ..before };
                    assert(self@.keys =~= mid.with_key(key@, Handle::Value(n)).keys);
                    assert(self@ == mid.with_key(key@, Handle::Value(n)));
                    assert forall|i: int, j: int|
                        0 <= i < self@.keys.len() && 0 <= j < self@.keys.len() && #[trigger] self@.keys[i].0
                            == #[trigger] self@.keys[j].0 implies i == j by {
                        if i < before.keys.len() && j == before.keys.len() {
                            assert(before.key_at(i, key@));
                        }
                        if j < before.keys.len() && i == before.keys.len() {
                            assert(before.key_at(j, key@));
                        }
                    }
                    assert forall|i: int| 0 <= i < self@.keys.len() implies match #[trigger] self@.keys[i].1 {
                        Handle::Value(m) => m < self@.values.len(),
                        Handle::Timeline(m) => m < self@.timelines.len(),
                    } by {
                        if i < before.keys.len() {
                            assert(self@.keys[i] == before.keys[i]);
                        }
                    }
                }
                Ok(n)
            },
        }
    }

    /// The timeline entry under `key`, created from `empty` when `key` is unseen;
    /// an existing timeline is returned untouched, a value under `key` is refused.
    pub fn timeline_for(&mut self, key: &str, empty: T) -> (r: Result<usize, RegistryError>)
        requires
            old(self).wf(),
        ensures
            final(self).wf(),
            (final(self)@, r) == old(self)@.timeline_for(key@, empty),
    {
        let k = key.to_owned();
        match self.position(&k) {
            Some(i) => match self.keys[i].handle {
                Handle::Timeline(n) => Ok(n),
                Handle::Value(_) => Err(RegistryError::KindMismatch),
            },
            None => {
                let n = self.timelines.len();
                let ghost before = self@;
                self.timelines.push(empty);
                self.keys.push(KeyEntry { key: k, handle: Handle::Timeline(n) });
                proof {
                    let mid = RegistryView { timelines: before.timelines.push(empty), ..before };
                    assert(self@.keys =~= mid.with_key(key@, Handle::Timeline(n)).keys);
                    assert(self@ == mid.with_key(key@, Handle::Timeline(n)));
                    assert forall|i: int, j: int|
                        0 <= i < self@.keys.len() && 0 <= j < self@.keys.len() && #[trigger] self@.keys[i].0
                            == #[trigger] self@.keys[j].0 implies i == j by {
                        if i < before.keys.len() && j == before.keys.len() {
                            assert(before.key_at(i, key@));
                        }
                        if j < before.keys.len() && i == before.keys.len() {
                            assert(before.key_at(j, key@));
                        }
                    }
                    assert forall|i: int| 0 <= i < self@.keys.len() implies match #[trigger] self@.keys[i].1 {
                        Handle::Value(m) => m < self@.values.len(),
                        Handle::Timeline(m) => m < self@.timelines.len(),
                    } by {
                        if i < before.keys.len() {
                            assert(self@.keys[i] == before.keys[i]);
                        }
                    }
                }
                Ok(n)
            },
        }
    }

    /// Forgets `key`; returns the entry it named. The entry itself stays in its
    /// store, so handles already given out keep pointing at it.
    pub fn remove(&mut self, key: &str) -> (r: Option<Handle>)
        requires
            old(self).wf(),
        ensures
            final(self).wf(),
            r == old(self)@.lookup(key@),
            final(self)@.lookup(key@).is_none(),
            forall|k: Seq<char>| k != key@ ==> #[trigger] final(self)@.lookup(k) == old(self)@.lookup(k),
            final(self)@.values == old(self)@.values,
            final(self)@.timelines == old(self)@.timelines,
    {
        let k = key.to_owned();
        match self.position(&k) {
            Some(i) => {
                let ghost before = self@;
                let e = self.keys.remove(i);
                proof {
                    assert(self@.keys =~= before.keys.remove(i as int));
                    lemma_remove_key(before, i as int);
                }
                Some(e.handle)
            },
            None => None,
        }
    }

    pub fn value(&self, n: usize) -> (r: &V)
        requires
            n < self@.values.len(),
        ensures
            *r == self@.values[n as int],
    {
        &self.values[n]
    }

    pub fn timeline(&self, n: usize) -> (r: &T)
        requires
            n < self@.timelines.len(),
        ensures
            *r == self@.timelines[n as int],
    {
        &self.timelines[n]
    }

    pub fn value_count(&self) -> (r: usize)
        ensures
            r == self@.values.len(),
    {
        self.values.len()
    }

    pub fn timeline_count(&self) -> (r: usize)
        ensures
            r == self@.timelines.len(),
    {
        self.timelines.len()
    }

    /// Replaces the value stored at `n`; keys and timelines stay as they are.
    pub fn set_value(&mut self, n: usize, v: V)
        requires
            old(self).wf(),
            n < old(self)@.values.len(),
        ensures
            final(self).wf(),
            final(self)@.keys == old(self)@.keys,
            final(self)@.values == old(self)@.values.update(n as int, v),
            final(self)@.timelines == old(self)@.timelines,
    {
        self.values.set(n, v);
    }

    /// The timeline stored at `n`, to change in place.
    pub fn timeline_mut(&mut self, n: usize) -> (r: &mut T)
        requires
            old(self).wf(),
            n < old(self)@.timelines.len(),
        ensures
            *r == old(self)@.timelines[n as int],
            final(self)@ == (RegistryView { timelines: old(self)@.timelines.update(n as int, *final(r)), ..old(self)@ }),
    {
        &mut self.timelines[n]
    }

    /// Replaces the timeline stored at `n`; keys and values stay as they are.
    pub fn set_timeline(&mut self, n: usize, t: T)
        requires
            old(self).wf(),
            n < old(self)@.timelines.len(),
        ensures
            final(self).wf(),
            final(self)@.keys == old(self)@.keys,
            final(self)@.values == old(self)@.values,
            final(self)@.timelines == old(self)@.timelines.update(n as int, t),
    {
        self.timelines.set(n, t);
    }
}

proof fn lemma_remove_key<V, T>(r: RegistryView<V, T>, i: int)
    requires
        r.wf(),
        0 <= i < r.keys.len(),
    ensures
        ({
            let s = RegistryView { keys: r.keys.remove(i), ..r };
            &&& s.wf()
            &&& s.lookup(r.keys[i].0).is_none()
            &&& forall|k: Seq<char>| k != r.keys[i].0 ==> #[trigger] s.lookup(k) == r.lookup(k)
            &&& r.lookup(r.keys[i].0) == Some(r.keys[i].1)
        }),
{
    let s = RegistryView { keys: r.keys.remove(i), ..r };
    let key = r.keys[i].0;
    lemma_lookup_found(r, i, key);
    assert forall|a: int, b: int|
        0 <= a < s.keys.len() && 0 <= b < s.keys.len() && #[trigger] s.keys[a].0 == #[trigger] s.keys[b].0 implies a == b by {
        let a2 = if a < i { a } else { a + 1 };
        let b2 = if b < i { b } else { b + 1 };
        assert(s.keys[a] == r.keys[a2]);
        assert(s.keys[b] == r.keys[b2]);
    }
    assert forall|a: int| 0 <= a < s.keys.len() implies match #[trigger] s.keys[a].1 {
        Handle::Value(n) => n < s.values.len(),
        Handle::Timeline(n) => n < s.timelines.len(),
    } by {
        let a2 = if a < i { a } else { a + 1 };
        assert(s.keys[a] == r.keys[a2]);
    }
    if s.contains(key) {
        let j = choose|j: int| key_at_in(s.keys, j, key);
        let j2 = if j < i { j } else { j + 1 };
        assert(s.keys[j] == r.keys[j2]);
    }
    assert forall|k: Seq<char>| k != key implies #[trigger] s.lookup(k) == r.lookup(k) by {
        if r.contains(k) {
            let a = choose|a: int| key_at_in(r.keys, a, k);
            assert(a != i);
            let a1 = if a < i { a } else { a - 1 };
            assert(s.keys[a1] == r.keys[a]);
            assert(s.key_at(a1, k));
            lemma_lookup_found(s, a1, k);
            lemma_lookup_found(r, a, k);
        } else if s.contains(k) {
            let j = choose|j: int| key_at_in(s.keys, j, k);
            let j2 = if j < i { j } else { j + 1 };
            assert(s.keys[j] == r.keys[j2]);
            assert(r.key_at(j2, k));
        }
    }
}

/// First registration wins: asking for a value under one key a second time gives
/// the same result and changes nothing, and a third request that offers another
/// initial value changes nothing either; the value stored is the one the first
/// request offered when the key was new.
pub proof fn law_first_registration_wins<V, T>(r: RegistryView<V, T>, key: Seq<char>, first: V, later: V)
    requires
        r.wf(),
        r.values.len() < usize::MAX,
    ensures
        ({
            let (r1, x1) = r.value_for(key, first);
            let (r2, x2) = r1.value_for(key, first);
            let (r3, x3) = r2.value_for(key, later);
            &&& r1.wf()
            &&& x2 == x1 && r2 == r1
            &&& x3 == x1 && r3 == r1
            &&& r.lookup(key).is_none() ==> x1 is Ok && r3.values[x1->Ok_0 as int] == first
        }),
{
    let (r1, x1) = r.value_for(key, first);
    match r.lookup(key) {
        Some(_) => {},
        None => {
            let n = r.values.len() as usize;
            let mid = RegistryView { values: r.values.push(first), ..r };
            assert(!mid.contains(key));
            lemma_with_key(mid, key, Handle::Value(n));
            assert(r1.lookup(key) == Some(Handle::Value(n)));
            assert forall|i: int| 0 <= i < r1.keys.len() implies match #[trigger] r1.keys[i].1 {
                Handle::Value(m) => m < r1.values.len(),
                Handle::Timeline(m) => m < r1.timelines.len(),
            } by {
                if i < r.keys.len() {
                    assert(r1.keys[i] == r.keys[i]);
                }
            }
            assert forall|i: int, j: int|
                0 <= i < r1.keys.len() && 0 <= j < r1.keys.len() && #[trigger] r1.keys[i].0 == #[trigger] r1.keys[j].0 implies i == j by {
                if i < r.keys.len() && j == r.keys.len() {
                    assert(r.key_at(i, key));
                }
                if j < r.keys.len() && i == r.keys.len() {
                    assert(r.key_at(j, key));
                }
            }
        },
    }
}

} // verus!
