//! Open Kernel environment storage.
//!
//! The environment is a map from variable names to values, both kept as the
//! encoded bytes the process received. It is filled from the `KEY=VALUE`
//! entries of the process startup block.
use vstd::prelude::*;
use vstd::slice::{slice_subrange, slice_to_vec};
use crate::io_error::IoError;

verus! {

/// The byte that separates a name from its value in a startup entry.
pub const SEPARATOR: u8 = 0x3d;

/// `i` is the position of the first separator in `bytes`.
pub open spec fn is_first_separator(bytes: Seq<u8>, i: int) -> bool {
    &&& 0 <= i < bytes.len()
    &&& bytes[i] == SEPARATOR
    &&& forall|j: int| 0 <= j < i ==> bytes[j] != SEPARATOR
}

/// The name and value of a startup entry: the bytes before its first separator
/// and the bytes after it; `None` for an entry without a separator.
pub open spec fn split_entry_spec(bytes: Seq<u8>) -> Option<(Seq<u8>, Seq<u8>)> {
    if exists|i: int| is_first_separator(bytes, i) {
        let i = choose|i: int| is_first_separator(bytes, i);
        Some((bytes.take(i), bytes.skip(i + 1)))
    } else {
        None
    }
}

/// The environment that a startup block holds: its entries applied in order,
/// a later entry for a name replacing an earlier one, entries without a
/// separator skipped.
pub open spec fn env_map_of(entries: Seq<Seq<u8>>) -> Map<Seq<u8>, Seq<u8>>
    decreases entries.len(),
{
    if entries.len() == 0 {
        Map::empty()
    } else {
        let before = env_map_of(entries.drop_last());
        match split_entry_spec(entries.last()) {
            Some((name, value)) => before.insert(name, value),
            None => before,
        }
    }
}

/// The value of `name` in `env`, as `getenv` returns it.
pub open spec fn lookup(env: Map<Seq<u8>, Seq<u8>>, name: Seq<u8>) -> Option<Seq<u8>> {
    if env.contains_key(name) {
        Some(env[name])
    } else {
        None
    }
}

/// `pairs` lists exactly the variables of `m`, each name once.
pub open spec fn lists_exactly(pairs: Seq<(Seq<u8>, Seq<u8>)>, m: Map<Seq<u8>, Seq<u8>>) -> bool {
    &&& forall|i: int, j: int| 0 <= i < j < pairs.len() ==> pairs[i].0 != pairs[j].0
    &&& forall|i: int|
        0 <= i < pairs.len() ==> #[trigger] m.contains_key(pairs[i].0) && m[pairs[i].0] == pairs[i].1
    &&& forall|k: Seq<u8>| m.contains_key(k) ==> exists|i: int| 0 <= i < pairs.len() && pairs[i].0 == k
}

/// The position in the startup vector where the environment entries begin:
/// after the `argc` arguments and the null that ends them.
pub fn env_block_offset(argc: isize) -> (offset: usize)
    ensures
        argc >= 0 ==> offset == argc + 1,
        argc < 0 ==> offset == 1,
{
    let count: usize = if argc >= 0 { argc as usize } else { 0 };
    count + 1
}

/// Whether two byte strings are equal.
fn bytes_equal(a: &[u8], b: &[u8]) -> (equal: bool)
    ensures
        equal == (a@ == b@),
{
    if a.len() != b.len() {
        return false;
    }
    let mut i: usize = 0;
    while i < a.len()
        invariant
            a@.len() == b@.len(),
            i <= a@.len(),
            forall|j: int| 0 <= j < i ==> a@[j] == b@[j],
        decreases a@.len() - i,
    {
        if a[i] != b[i] {
            return false;
        }
        i = i + 1;
    }
    assert(a@ =~= b@);
    true
}

/// Splits a startup entry at its first separator into name and value.
pub fn split_entry(bytes: &[u8]) -> (parts: Option<(Vec<u8>, Vec<u8>)>)
    ensures
        match parts {
            None => split_entry_spec(bytes@) is None,
            Some((name, value)) => split_entry_spec(bytes@) == Some((name@, value@)),
        },
{
    let mut i: usize = 0;
    while i < bytes.len()
        invariant
            i <= bytes@.len(),
            forall|j: int| 0 <= j < i ==> bytes@[j] != SEPARATOR,
        decreases bytes@.len() - i,
    {
        if bytes[i] == SEPARATOR {
            assert(is_first_separator(bytes@, i as int));
            let ghost c = choose|c: int| is_first_separator(bytes@, c);
            assert(c == i) by {
                if c < i {
                    assert(bytes@[c] != SEPARATOR);
                }
                if c > i {
                    assert(bytes@[i as int] != SEPARATOR);
                }
            }
            let name = slice_to_vec(slice_subrange(bytes, 0, i));
            let value = slice_to_vec(slice_subrange(bytes, i + 1, bytes.len()));
            assert(name@ =~= bytes@.take(i as int));
            assert(value@ =~= bytes@.skip(i + 1));
            return Some((name, value));
        }
        i = i + 1;
    }
    assert forall|c: int| !is_first_separator(bytes@, c) by {
        if 0 <= c < bytes@.len() {
            assert(bytes@[c] != SEPARATOR);
        }
    }
    None
}

/// The process environment: names and values as encoded bytes.
pub struct EnvStore {
    entries: Vec<(Vec<u8>, Vec<u8>)>,
    contents: Ghost<Map<Seq<u8>, Seq<u8>>>,
}

impl View for EnvStore {
    type V = Map<Seq<u8>, Seq<u8>>;

    closed spec fn view(&self) -> Map<Seq<u8>, Seq<u8>> {
        self.contents@
    }
}

impl EnvStore {
    spec fn name_at(self, i: int) -> Seq<u8> {
        self.entries@[i].0@
    }

    spec fn value_at(self, i: int) -> Seq<u8> {
        self.entries@[i].1@
    }

    /// The stored pairs list exactly the variables of the environment.
    pub closed spec fn wf(self) -> bool {
        &&& forall|i: int, j: int|
            0 <= i < j < self.entries@.len() ==> #[trigger] self.name_at(i) != #[trigger] self.name_at(j)
        &&& forall|i: int|
            0 <= i < self.entries@.len() ==> #[trigger] self.contents@.contains_key(self.name_at(i))
                && self.contents@[self.name_at(i)] == self.value_at(i)
        &&& forall|k: Seq<u8>|
            #[trigger] self.contents@.contains_key(k) ==> exists|i: int|
                0 <= i < self.entries@.len() && self.name_at(i) == k
    }

    /// An empty environment.
    pub fn new() -> (store: EnvStore)
        ensures
            store.wf(),
            store@ == Map::<Seq<u8>, Seq<u8>>::empty(),
    {
        EnvStore { entries: Vec::new(), contents: Ghost(Map::empty()) }
    }

    /// The position of `name` among the stored pairs.
    fn find(&self, name: &[u8]) -> (position: Option<usize>)
        requires
            self.wf(),
        ensures
            match position {
                None => !self@.contains_key(name@),
                Some(i) => i < self.entries@.len() && self.name_at(i as int) == name@
                    && self@.contains_key(name@),
            },
    {
        let mut i: usize = 0;
        while i < self.entries.len()
            invariant
                self.wf(),
                i <= self.entries@.len(),
                forall|j: int| 0 <= j < i ==> self.name_at(j) != name@,
            decreases self.entries@.len() - i,
        {
            if bytes_equal(self.entries[i].0.as_slice(), name) {
                assert(self.contents@.contains_key(self.name_at(i as int)));
                return Some(i);
            }
            i = i + 1;
        }
        proof {
            if self@.contains_key(name@) {
                let j = choose|j: int| 0 <= j < self.entries@.len() && self.name_at(j) == name@;
                assert(self.name_at(j) != name@);
            }
        }
        None
    }

    /// Sets `name` to `value`, replacing any earlier value.
    pub fn insert(&mut self, name: Vec<u8>, value: Vec<u8>)
        requires
            old(self).wf(),
        ensures
            final(self).wf(),
            final(self)@ == old(self)@.insert(name@, value@),
    {
        let ghost old_self = *self;
        let ghost new_contents = self.contents@.insert(name@, value@);
        match self.find(name.as_slice()) {
            Some(i) => {
                self.entries.set(i, (name, value));
                self.contents = Ghost(new_contents);
                assert forall|a: int| 0 <= a < self.entries@.len() implies
                    #[trigger] self.contents@.contains_key(self.name_at(a))
                    && self.contents@[self.name_at(a)] == self.value_at(a) by {
                    if a != i {
                        assert(old_self.name_at(a) != old_self.name_at(i as int));
                    }
                }
                assert forall|k: Seq<u8>| #[trigger] self.contents@.contains_key(k) implies exists|j: int|
                    0 <= j < self.entries@.len() && self.name_at(j) == k by {
                    if k != self.name_at(i as int) {
                        let j = choose|j: int| 0 <= j < old_self.entries@.len() && old_self.name_at(j) == k;
                        assert(self.name_at(j) == k);
                    }
                }
                assert forall|a: int, b: int|
                    0 <= a < b < self.entries@.len() implies #[trigger] self.name_at(a) != #[trigger] self.name_at(b) by {
                    assert(old_self.name_at(a) != old_self.name_at(b));
                }
            },
            None => {
                self.entries.push((name, value));
                self.contents = Ghost(new_contents);
                let ghost last = self.entries@.len() - 1;
                assert forall|a: int| 0 <= a < self.entries@.len() implies
                    #[trigger] self.contents@.contains_key(self.name_at(a))
                    && self.contents@[self.name_at(a)] == self.value_at(a) by {
                    if a != last {
                        assert(old_self@.contains_key(old_self.name_at(a)));
                        assert(old_self.name_at(a) == self.name_at(a));
                    }
                }
                assert forall|k: Seq<u8>| #[trigger] self.contents@.contains_key(k) implies exists|j: int|
                    0 <= j < self.entries@.len() && self.name_at(j) == k by {
                    if k != self.name_at(last) {
                        let j = choose|j: int| 0 <= j < old_self.entries@.len() && old_self.name_at(j) == k;
                        assert(self.name_at(j) == k);
                    } else {
                        assert(self.name_at(last) == k);
                    }
                }
                assert forall|a: int, b: int|
                    0 <= a < b < self.entries@.len() implies #[trigger] self.name_at(a) != #[trigger] self.name_at(b) by {
                    if b == last {
                        assert(old_self@.contains_key(old_self.name_at(a)));
                    } else {
                        assert(old_self.name_at(a) != old_self.name_at(b));
                    }
                }
            },
        }
    }

    /// Removes `name` and its value, if present.
    pub fn remove(&mut self, name: &[u8])
        requires
            old(self).wf(),
        ensures
            final(self).wf(),
            final(self)@ == old(self)@.remove(name@),
    {
        let ghost old_self = *self;
        let ghost new_contents = self.contents@.remove(name@);
        match self.find(name) {
            Some(i) => {
                let _ = self.entries.remove(i);
                self.contents = Ghost(new_contents);
                assert forall|k: Seq<u8>| #[trigger] self.contents@.contains_key(k) implies exists|j: int|
                    0 <= j < self.entries@.len() && self.name_at(j) == k by {
                    let j = choose|j: int| 0 <= j < old_self.entries@.len() && old_self.name_at(j) == k;
                    assert(j != i);
                    if j < i {
                        assert(self.name_at(j) == k);
                    } else {
                        assert(self.name_at(j - 1) == k);
                    }
                }
                assert forall|a: int, b: int|
                    0 <= a < b < self.entries@.len() implies #[trigger] self.name_at(a) != #[trigger] self.name_at(b) by {
                    let oa = if a < i { a } else { a + 1 };
                    let ob = if b < i { b } else { b + 1 };
                    assert(self.name_at(a) == old_self.name_at(oa));
                    assert(self.name_at(b) == old_self.name_at(ob));
                    assert(old_self.name_at(oa) != old_self.name_at(ob));
                }
                assert forall|a: int| 0 <= a < self.entries@.len() implies
                    #[trigger] self.contents@.contains_key(self.name_at(a))
                    && self.contents@[self.name_at(a)] == self.value_at(a) by {
                    let oa = if a < i { a } else { a + 1 };
                    assert(self.name_at(a) == old_self.name_at(oa));
                    assert(self.value_at(a) == old_self.value_at(oa));
                    if oa < i {
                        assert(old_self.name_at(oa) != old_self.name_at(i as int));
                    } else {
                        assert(old_self.name_at(i as int) != old_self.name_at(oa));
                    }
                    assert(old_self.contents@.contains_key(old_self.name_at(oa)));
                }
            },
            None => {
                assert(self.contents@ =~= new_contents);
            },
        }
    }

    /// Removes every variable.
    pub fn clear(&mut self)
        ensures
            final(self).wf(),
            final(self)@ == Map::<Seq<u8>, Seq<u8>>::empty(),
    {
        self.entries.clear();
        self.contents = Ghost(Map::empty());
    }

    /// Replaces the environment with the one that the startup entries hold
    /// (`KEY=VALUE` byte strings, in the order the process received them).
    pub fn init(&mut self, entries: &Vec<Vec<u8>>)
        ensures
            final(self).wf(),
            final(self)@ == env_map_of(entries.deep_view()),
    {
        self.clear();
        let ghost all = entries.deep_view();
        let mut i: usize = 0;
        while i < entries.len()
            invariant
                self.wf(),
                i <= entries@.len(),
                all == entries.deep_view(),
                self@ == env_map_of(all.take(i as int)),
            decreases entries@.len() - i,
        {
            assert(all.take(i + 1).drop_last() =~= all.take(i as int));
            assert(all[i as int] == entries@[i as int]@);
            match split_entry(entries[i].as_slice()) {
                Some((name, value)) => {
                    self.insert(name, value);
                },
                None => {},
            }
            i = i + 1;
        }
        assert(all.take(i as int) =~= all);
    }
}

/// A copy of the whole environment, each variable once.
pub fn env(store: &EnvStore) -> (pairs: Vec<(Vec<u8>, Vec<u8>)>)
    requires
        store.wf(),
    ensures
        lists_exactly(pairs.deep_view(), store@),
{
    let mut pairs: Vec<(Vec<u8>, Vec<u8>)> = Vec::new();
    let mut i: usize = 0;
    while i < store.entries.len()
        invariant
            store.wf(),
            i <= store.entries@.len(),
            pairs@.len() == i,
            forall|j: int| 0 <= j < i ==> (#[trigger] pairs@[j]).0@ == store.name_at(j) && pairs@[j].1@ == store.value_at(j),
        decreases store.entries@.len() - i,
    {
        let name = slice_to_vec(store.entries[i].0.as_slice());
        let value = slice_to_vec(store.entries[i].1.as_slice());
        pairs.push((name, value));
        i = i + 1;
    }
    let ghost view = pairs.deep_view();
    assert forall|a: int| 0 <= a < view.len() implies #[trigger] view[a] == (store.name_at(a), store.value_at(a)) by {
        assert(pairs@[a].0.deep_view() =~= pairs@[a].0@);
        assert(pairs@[a].1.deep_view() =~= pairs@[a].1@);
    }
    assert forall|a: int, b: int| 0 <= a < b < view.len() implies view[a].0 != view[b].0 by {
        assert(view[a] == (store.name_at(a), store.value_at(a)));
        assert(view[b] == (store.name_at(b), store.value_at(b)));
    }
    assert forall|a: int| 0 <= a < view.len() implies #[trigger] store@.contains_key(view[a].0)
        && store@[view[a].0] == view[a].1 by {
        assert(view[a] == (store.name_at(a), store.value_at(a)));
    }
    assert forall|k: Seq<u8>| store@.contains_key(k) implies exists|a: int| 0 <= a < view.len() && view[a].0 == k by {
        let a = choose|a: int| 0 <= a < store.entries@.len() && store.name_at(a) == k;
        assert(view[a] == (store.name_at(a), store.value_at(a)));
    }
    pairs
}

/// The value of `name`, if it is set.
pub fn getenv(store: &EnvStore, name: &[u8]) -> (value: Option<Vec<u8>>)
    requires
        store.wf(),
    ensures
        value.deep_view() == lookup(store@, name@),
        match value {
            None => !store@.contains_key(name@),
            Some(v) => store@.contains_key(name@) && v@ == store@[name@],
        },
{
    match store.find(name) {
        None => None,
        Some(i) => {
            let v = slice_to_vec(store.entries[i].1.as_slice());
            assert(v.deep_view() =~= v@);
            Some(v)
        },
    }
}

/// Sets `name` to `value`; always succeeds.
pub fn setenv(store: &mut EnvStore, name: &[u8], value: &[u8]) -> (result: Result<(), IoError>)
    requires
        old(store).wf(),
    ensures
        final(store).wf(),
        final(store)@ == old(store)@.insert(name@, value@),
        result is Ok,
{
    store.insert(slice_to_vec(name), slice_to_vec(value));
    Ok(())
}

/// Removes `name`; always succeeds, whether or not it was set.
pub fn unsetenv(store: &mut EnvStore, name: &[u8]) -> (result: Result<(), IoError>)
    requires
        old(store).wf(),
    ensures
        final(store).wf(),
        final(store)@ == old(store)@.remove(name@),
        result is Ok,
{
    store.remove(name);
    Ok(())
}

/// Splitting a startup entry cuts it at its first separator: the name holds no
/// separator, and name, separator and value put back together give the entry;
/// an entry is left unsplit exactly when it holds no separator.
pub proof fn law_split_at_first_separator(bytes: Seq<u8>)
    ensures
        split_entry_spec(bytes) matches Some((name, value)) ==> {
            &&& bytes == name + seq![SEPARATOR] + value
            &&& forall|j: int| 0 <= j < name.len() ==> name[j] != SEPARATOR
        },
        split_entry_spec(bytes) is None <==> forall|j: int| 0 <= j < bytes.len() ==> bytes[j] != SEPARATOR,
{
    if exists|i: int| is_first_separator(bytes, i) {
        let i = choose|i: int| is_first_separator(bytes, i);
        assert(bytes =~= bytes.take(i) + seq![SEPARATOR] + bytes.skip(i + 1));
    } else {
        assert forall|j: int| 0 <= j < bytes.len() implies bytes[j] != SEPARATOR by {
            if bytes[j] == SEPARATOR {
                lemma_first_separator_exists(bytes, j);
            }
        }
    }
    if !(forall|j: int| 0 <= j < bytes.len() ==> bytes[j] != SEPARATOR) {
        let j = choose|j: int| 0 <= j < bytes.len() && bytes[j] == SEPARATOR;
        lemma_first_separator_exists(bytes, j);
    }
}

proof fn lemma_first_separator_exists(bytes: Seq<u8>, j: int)
    requires
        0 <= j < bytes.len(),
        bytes[j] == SEPARATOR,
    ensures
        exists|i: int| is_first_separator(bytes, i),
    decreases j,
{
    if forall|k: int| 0 <= k < j ==> bytes[k] != SEPARATOR {
        assert(is_first_separator(bytes, j));
    } else {
        let k = choose|k: int| 0 <= k < j && bytes[k] == SEPARATOR;
        lemma_first_separator_exists(bytes, k);
    }
}

/// A name set by a startup entry has the value of the last entry that names it.
pub proof fn law_last_entry_wins(entries: Seq<Seq<u8>>, i: int, name: Seq<u8>, value: Seq<u8>)
    requires
        0 <= i < entries.len(),
        split_entry_spec(entries[i]) == Some((name, value)),
        forall|j: int|
            i < j < entries.len() ==> !(#[trigger] split_entry_spec(entries[j]) matches Some((n, _)) && n == name),
    ensures
        env_map_of(entries).contains_key(name),
        env_map_of(entries)[name] == value,
    decreases entries.len(),
{
    let last = entries.len() - 1;
    if i < last {
        let shorter = entries.drop_last();
        assert forall|j: int| i < j < shorter.len() implies
            !(#[trigger] split_entry_spec(shorter[j]) matches Some((n, _)) && n == name) by {
            assert(shorter[j] == entries[j]);
            assert(!(split_entry_spec(entries[j]) matches Some((n, _)) && n == name));
        }
        assert(shorter[i] == entries[i]);
        law_last_entry_wins(shorter, i, name, value);
        assert(!(split_entry_spec(entries[last]) matches Some((n, _)) && n == name));
    }
}

/// The environment a startup block holds has a variable exactly for the names
/// that some entry with a separator gives.
pub proof fn law_names_come_from_entries(entries: Seq<Seq<u8>>, name: Seq<u8>)
    ensures
        env_map_of(entries).contains_key(name) <==> exists|i: int|
            0 <= i < entries.len() && (#[trigger] split_entry_spec(entries[i]) matches Some((n, _)) && n == name),
    decreases entries.len(),
{
    if entries.len() > 0 {
        let shorter = entries.drop_last();
        let last = entries.len() - 1;
        law_names_come_from_entries(shorter, name);
        if env_map_of(entries).contains_key(name) {
            if !(split_entry_spec(entries[last]) matches Some((n, _)) && n == name) {
                let i = choose|i: int|
                    0 <= i < shorter.len() && (#[trigger] split_entry_spec(shorter[i]) matches Some((n, _)) && n == name);
                assert(shorter[i] == entries[i]);
            }
        }
        if exists|i: int|
            0 <= i < entries.len() && (#[trigger] split_entry_spec(entries[i]) matches Some((n, _)) && n == name) {
            let i = choose|i: int|
                0 <= i < entries.len() && (#[trigger] split_entry_spec(entries[i]) matches Some((n, _)) && n == name);
            if i < last {
                assert(shorter[i] == entries[i]);
            }
        }
    }
}

/// Reading a variable back after writing it: `setenv` leaves `env.insert(name,
/// value)`, `unsetenv` leaves `env.remove(name)`, and `getenv` returns `lookup`.
/// After `setenv(name, value)`, `getenv(name)` gives `value`; after
/// `unsetenv(name)` it gives nothing; every other name reads as before.
pub proof fn law_read_after_write(env: Map<Seq<u8>, Seq<u8>>, name: Seq<u8>, value: Seq<u8>, other: Seq<u8>)
    ensures
        lookup(env.insert(name, value), name) == Some(value),
        lookup(env.remove(name), name) == None::<Seq<u8>>,
        other != name ==> lookup(env.insert(name, value), other) == lookup(env, other),
        other != name ==> lookup(env.remove(name), other) == lookup(env, other),
{
}

} // verus!
