//! The settings store: a durable key/value map of scalar configuration,
//! modelled as a `Map` from key to value and kept as a list of entries
//! with pairwise-distinct keys. The surrounding binary loads it from and
//! flushes it back to one JSON document; every read and write here is
//! exact against the map model.

use vstd::prelude::*;

use crate::strutil::str_eq;

verus! {

/// A scalar value a settings key can hold.
#[derive(Debug, Clone, PartialEq, Eq)]
pub enum SettingValue {
    Text(String),
    Flag(bool),
}

/// Mathematical model of a [`SettingValue`].
pub enum ValueModel {
    Text(Seq<char>),
    Flag(bool),
}

impl View for SettingValue {
    type V = ValueModel;

    open spec fn view(&self) -> ValueModel {
        match self {
            SettingValue::Text(s) => ValueModel::Text(s@),
            SettingValue::Flag(b) => ValueModel::Flag(*b),
        }
    }
}

/// The map a sequence of entries denotes: later entries win.
pub open spec fn entries_map(s: Seq<(String, SettingValue)>) -> Map<Seq<char>, ValueModel>
    decreases s.len(),
{
    if s.len() == 0 {
        Map::empty()
    } else {
        entries_map(s.drop_last()).insert(s.last().0@, s.last().1@)
    }
}

/// The key/value settings store.
pub struct SettingsStore {
    entries: Vec<(String, SettingValue)>,
}

impl View for SettingsStore {
    type V = Map<Seq<char>, ValueModel>;

    closed spec fn view(&self) -> Map<Seq<char>, ValueModel> {
        entries_map(self.entries@)
    }
}

/// Keys are pairwise distinct within the entry list.
pub closed spec fn distinct_keys(s: Seq<(String, SettingValue)>) -> bool {
    forall|i: int, j: int| 0 <= i < j < s.len() ==> s[i].0@ != s[j].0@
}

proof fn lemma_entries_map_contains(s: Seq<(String, SettingValue)>, k: Seq<char>)
    ensures
        entries_map(s).contains_key(k) <==> exists|i: int| 0 <= i < s.len() && s[i].0@ == k,
    decreases s.len(),
{
    if s.len() > 0 {
        lemma_entries_map_contains(s.drop_last(), k);
        if s.last().0@ == k {
            assert(s[s.len() - 1].0@ == k);
        } else if entries_map(s).contains_key(k) {
            let i = choose|i: int| 0 <= i < s.drop_last().len() && s.drop_last()[i].0@ == k;
            assert(s[i].0@ == k);
        } else {
            assert(forall|i: int|
                0 <= i < s.len() - 1 && s.drop_last()[i].0@ == s[i].0@ ==> s[i].0@ != k);
        }
    }
}

proof fn lemma_entries_map_at(s: Seq<(String, SettingValue)>, i: int)
    requires
        distinct_keys(s),
        0 <= i < s.len(),
    ensures
        entries_map(s).contains_key(s[i].0@),
        entries_map(s)[s[i].0@] == s[i].1@,
    decreases s.len(),
{
    if i < s.len() - 1 {
        assert(s.drop_last()[i] == s[i]);
        lemma_entries_map_at(s.drop_last(), i);
        assert(s.last().0@ != s[i].0@);
    }
}

proof fn lemma_entries_map_update(s: Seq<(String, SettingValue)>, i: int, v: SettingValue)
    requires
        distinct_keys(s),
        0 <= i < s.len(),
        s.update(i, (s[i].0, v))[i].0@ == s[i].0@,
    ensures
        entries_map(s.update(i, (s[i].0, v))) =~= entries_map(s).insert(s[i].0@, v@),
    decreases s.len(),
{
    let t = s.update(i, (s[i].0, v));
    if i == s.len() - 1 {
        assert(t.drop_last() =~= s.drop_last());
        assert(t.last() == (s[i].0, v));
    } else {
        assert(t.drop_last() =~= s.drop_last().update(i, (s[i].0, v)));
        assert(s.drop_last()[i] == s[i]);
        lemma_entries_map_update(s.drop_last(), i, v);
        assert(t.last() == s.last());
        assert(s.last().0@ != s[i].0@);
    }
}

impl SettingsStore {
    /// The store's internal entry list is well formed.
    pub closed spec fn wf(&self) -> bool {
        distinct_keys(self.entries@)
    }

    /// An empty store.
    pub fn new() -> (r: SettingsStore)
        ensures
            r.wf(),
            r@ == Map::<Seq<char>, ValueModel>::empty(),
    {
        SettingsStore { entries: Vec::new() }
    }

    /// Position of the entry holding `key`, if any.
    fn find(&self, key: &str) -> (r: Option<usize>)
        requires
            self.wf(),
        ensures
            match r {
                Some(i) => i < self.entries@.len() && self.entries@[i as int].0@ == key@,
                None => forall|j: int| 0 <= j < self.entries@.len()
                    ==> self.entries@[j].0@ != key@,
            },
    {
        let n = self.entries.len();
        let mut i: usize = 0;
        while i < n
            invariant
                n == self.entries@.len(),
                i <= n,
                forall|j: int| 0 <= j < i ==> self.entries@[j].0@ != key@,
            decreases n - i,
        {
            if str_eq(self.entries[i].0.as_str(), key) {
                return Some(i);
            }
            i += 1;
        }
        None
    }

    /// The value under `key`, if the store holds one.
    pub fn get(&self, key: &str) -> (r: Option<&SettingValue>)
        requires
            self.wf(),
        ensures
            match r {
                Some(v) => self@.contains_key(key@) && self@[key@] == v@,
                None => !self@.contains_key(key@),
            },
    {
        proof {
            lemma_entries_map_contains(self.entries@, key@);
        }
        match self.find(key) {
            Some(i) => {
                proof {
                    lemma_entries_map_at(self.entries@, i as int);
                }
                Some(&self.entries[i].1)
            },
            None => None,
        }
    }

    /// The text under `key`: `None` if the key is absent or holds a flag.
    pub fn get_text(&self, key: &str) -> (r: Option<String>)
        requires
            self.wf(),
        ensures
            match r {
                Some(t) => self@.contains_key(key@) && self@[key@] == ValueModel::Text(t@),
                None => !(self@.contains_key(key@) && self@[key@] is Text),
            },
    {
        match self.get(key) {
            Some(SettingValue::Text(t)) => Some(t.clone()),
            _ => None,
        }
    }

    /// The flag under `key`: `None` if the key is absent or holds text.
    pub fn get_flag(&self, key: &str) -> (r: Option<bool>)
        requires
            self.wf(),
        ensures
            match r {
                Some(b) => self@.contains_key(key@) && self@[key@] == ValueModel::Flag(b),
                None => !(self@.contains_key(key@) && self@[key@] is Flag),
            },
    {
        match self.get(key) {
            Some(SettingValue::Flag(b)) => Some(*b),
            _ => None,
        }
    }

    /// Bind `key` to `value`, replacing any previous binding.
    pub fn set(&mut self, key: &str, value: SettingValue)
        requires
            old(self).wf(),
        ensures
            final(self).wf(),
            final(self)@ == old(self)@.insert(key@, value@),
    {
        let ghost s0 = self.entries@;
        match self.find(key) {
            Some(i) => {
                let owned_key = self.entries[i].0.clone();
                self.entries[i] = (owned_key, value);
                proof {
                    assert(self.entries@ =~= s0.update(i as int, (s0[i as int].0, value)));
                    lemma_entries_map_update(s0, i as int, value);
                    assert(self@ =~= old(self)@.insert(key@, value@));
                }
            },
            None => {
                let owned_key = String::from_str(key);
                self.entries.push((owned_key, value));
                proof {
                    assert(self.entries@.drop_last() =~= s0);
                    assert(self@ =~= old(self)@.insert(key@, value@));
                }
            },
        }
    }

    /// Bind `key` to the text `value`.
    pub fn set_text(&mut self, key: &str, value: &str)
        requires
            old(self).wf(),
        ensures
            final(self).wf(),
            final(self)@ == old(self)@.insert(key@, ValueModel::Text(value@)),
    {
        self.set(key, SettingValue::Text(String::from_str(value)));
    }

    /// Bind `key` to the flag `value`.
    pub fn set_flag(&mut self, key: &str, value: bool)
        requires
            old(self).wf(),
        ensures
            final(self).wf(),
            final(self)@ == old(self)@.insert(key@, ValueModel::Flag(value)),
    {
        self.set(key, SettingValue::Flag(value));
    }

    /// Build a store from a list of pairs, later pairs winning, as when the
    /// persisted JSON document is read back in.
    pub fn from_pairs(pairs: Vec<(String, SettingValue)>) -> (r: SettingsStore)
        ensures
            r.wf(),
            r@ == entries_map(pairs@),
    {
        let ghost all = pairs@;
        let mut rest = pairs;
        let mut store = SettingsStore::new();
        let ghost mut i: int = 0;
        while rest.len() > 0
            invariant
                0 <= i <= all.len(),
                rest@ =~= all.subrange(i, all.len() as int),
                store.wf(),
                store@ == entries_map(all.subrange(0, i)),
            decreases rest@.len(),
    {
            let (k, v) = rest.remove(0);
            store.set(k.as_str(), v);
            proof {
                assert(all.subrange(0, i + 1).drop_last() =~= all.subrange(0, i));
                assert(all.subrange(0, i + 1).last() == all[i]);
                i = i + 1;
            }
        }
        proof {
            assert(all.subrange(0, all.len() as int) =~= all);
        }
        store
    }

    /// The entries, for persisting the store back to its JSON document.
    pub fn entries(&self) -> (r: &Vec<(String, SettingValue)>)
        ensures
            entries_map(r@) == self@,
    {
        &self.entries
    }
}

} // verus!
