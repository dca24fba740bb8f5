//! The settings record: a flat mapping from setting names to values, with
//! one reserved key that holds the target address of the proxied device.
use vstd::prelude::*;
use crate::codec::{entries_from_json, entries_to_json, pairs_view, settings_from_json, settings_json};

verus! {

/// The value of a setting: a JSON scalar.
#[derive(Debug, PartialEq)]
pub enum SettingValue {
    Text(String),
    Number(serde_json::Number),
    Bool(bool),
    Null,
}

/// A setting's value as plain values.
pub enum ScalarView {
    Text(Seq<char>),
    Number(serde_json::Number),
    Bool(bool),
    Null,
}

impl View for SettingValue {
    type V = ScalarView;

    open spec fn view(&self) -> ScalarView {
        match self {
            SettingValue::Text(t) => ScalarView::Text(t@),
            SettingValue::Number(n) => ScalarView::Number(*n),
            SettingValue::Bool(b) => ScalarView::Bool(*b),
            SettingValue::Null => ScalarView::Null,
        }
    }
}

/// What a list of entries means: each entry sets its key, a later entry
/// overriding an earlier one with the same key.
pub open spec fn entries_map(s: Seq<(String, SettingValue)>) -> Map<Seq<char>, ScalarView>
    decreases s.len(),
{
    if s.len() == 0 {
        Map::empty()
    } else {
        entries_map(s.drop_last()).insert(s.last().0@, s.last().1@)
    }
}

/// What a list of plain entries means, as for `entries_map`.
pub open spec fn pairs_map(s: Seq<(Seq<char>, ScalarView)>) -> Map<Seq<char>, ScalarView>
    decreases s.len(),
{
    if s.len() == 0 {
        Map::empty()
    } else {
        pairs_map(s.drop_last()).insert(s.last().0, s.last().1)
    }
}

proof fn lemma_pairs_map_of_view(s: Seq<(String, SettingValue)>)
    ensures
        entries_map(s) == pairs_map(pairs_view(s)),
    decreases s.len(),
{
    if s.len() > 0 {
        lemma_pairs_map_of_view(s.drop_last());
        assert(pairs_view(s).drop_last() =~= pairs_view(s.drop_last()));
    }
}

/// No two entries share a key.
pub open spec fn keys_distinct(s: Seq<(String, SettingValue)>) -> bool {
    forall|i: int, j: int| 0 <= i < j < s.len() ==> s[i].0@ != s[j].0@
}

/// The entry at `i` is what the list maps its key to.
proof fn lemma_entry_in_map(s: Seq<(String, SettingValue)>, i: int)
    requires
        keys_distinct(s),
        0 <= i < s.len(),
    ensures
        entries_map(s).contains_key(s[i].0@),
        entries_map(s)[s[i].0@] == s[i].1@,
    decreases s.len(),
{
    if i < s.len() - 1 {
        lemma_entry_in_map(s.drop_last(), i);
    }
}

/// A key that no entry carries is not in the mapping.
proof fn lemma_key_absent(s: Seq<(String, SettingValue)>, k: Seq<char>)
    requires
        forall|i: int| 0 <= i < s.len() ==> s[i].0@ != k,
    ensures
        !entries_map(s).contains_key(k),
    decreases s.len(),
{
    if s.len() > 0 {
        lemma_key_absent(s.drop_last(), k);
    }
}

/// A key in the mapping is carried by some entry.
proof fn lemma_key_present(s: Seq<(String, SettingValue)>, k: Seq<char>)
    requires
        entries_map(s).contains_key(k),
    ensures
        exists|i: int| 0 <= i < s.len() && s[i].0@ == k,
{
    if forall|i: int| 0 <= i < s.len() ==> s[i].0@ != k {
        lemma_key_absent(s, k);
    }
}

/// Replacing the value of one entry replaces it in the mapping.
proof fn lemma_replace_value(s: Seq<(String, SettingValue)>, i: int, v: SettingValue)
    requires
        keys_distinct(s),
        0 <= i < s.len(),
    ensures
        keys_distinct(s.update(i, (s[i].0, v))),
        entries_map(s.update(i, (s[i].0, v))) == entries_map(s).insert(s[i].0@, v@),
{
    let t = s.update(i, (s[i].0, v));
    let m = entries_map(s).insert(s[i].0@, v@);
    assert(keys_distinct(t));
    assert forall|k: Seq<char>| #[trigger] entries_map(t).contains_key(k) <==> m.contains_key(k) by {
        if entries_map(t).contains_key(k) {
            lemma_key_present(t, k);
            let j = choose|j: int| 0 <= j < t.len() && t[j].0@ == k;
            if j != i {
                lemma_entry_in_map(s, j);
            }
        }
        if m.contains_key(k) && k != s[i].0@ {
            lemma_key_present(s, k);
            let j = choose|j: int| 0 <= j < s.len() && s[j].0@ == k;
            lemma_entry_in_map(t, j);
        }
        if k == s[i].0@ {
            lemma_entry_in_map(t, i);
        }
    }
    assert forall|k: Seq<char>| #[trigger] entries_map(t).contains_key(k) implies entries_map(t)[k] == m[k] by {
        {
            lemma_key_present(t, k);
            let j = choose|j: int| 0 <= j < t.len() && t[j].0@ == k;
            lemma_entry_in_map(t, j);
            if j != i {
                lemma_entry_in_map(s, j);
            }
        }
    }
    assert(entries_map(t) =~= m);
}

/// Appending an entry sets its key.
proof fn lemma_push_entry(s: Seq<(String, SettingValue)>, e: (String, SettingValue))
    ensures
        entries_map(s.push(e)) == entries_map(s).insert(e.0@, e.1@),
{
    assert(s.push(e).drop_last() =~= s);
}

/// A settings record.
#[derive(Debug)]
pub struct Settings {
    entries: Vec<(String, SettingValue)>,
}

impl View for Settings {
    type V = Map<Seq<char>, ScalarView>;

    closed spec fn view(&self) -> Map<Seq<char>, ScalarView> {
        entries_map(self.entries@)
    }
}

impl Settings {
    /// The record is well formed: no key is stored twice.
    pub closed spec fn wf(&self) -> bool {
        keys_distinct(self.entries@)
    }

    /// The entries in the order in which they are stored.
    pub closed spec fn stored(&self) -> Seq<(String, SettingValue)> {
        self.entries@
    }

    /// An empty record.
    pub fn new() -> (r: Settings)
        ensures
            r.wf(),
            r@ == Map::<Seq<char>, ScalarView>::empty(),
    {
        Settings { entries: Vec::new() }
    }

    /// Where `key` is stored, if it is.
    fn position(&self, key: &String) -> (r: Option<usize>)
        ensures
            match r {
                Some(i) => i < self.entries@.len() && self.entries@[i as int].0@ == key@,
                None => forall|i: int| 0 <= i < self.entries@.len() ==> self.entries@[i].0@ != key@,
            },
    {
        let mut i: usize = 0;
        while i < self.entries.len()
            invariant
                i <= self.entries@.len(),
                forall|j: int| 0 <= j < i ==> self.entries@[j].0@ != key@,
            decreases self.entries@.len() - i,
        {
            if self.entries[i].0 == *key {
                return Some(i);
            }
            i = i + 1;
        }
        None
    }

    /// The value stored under `key`.
    pub fn get(&self, key: &str) -> (r: Option<&SettingValue>)
        requires
            self.wf(),
        ensures
            r is Some <==> self@.contains_key(key@),
            r is Some ==> r->Some_0@ == self@[key@],
    {
        let k = key.to_owned();
        match self.position(&k) {
            Some(i) => {
                proof {
                    lemma_entry_in_map(self.entries@, i as int);
                }
                Some(&self.entries[i].1)
            },
            None => {
                proof {
                    lemma_key_absent(self.entries@, key@);
                }
                None
            },
        }
    }

    /// Stores `value` under `key`, replacing what was there.
    pub fn set(&mut self, key: &str, value: SettingValue)
        requires
            old(self).wf(),
        ensures
            final(self).wf(),
            final(self)@ == old(self)@.insert(key@, value@),
    {
        let k = key.to_owned();
        match self.position(&k) {
            Some(i) => {
                proof {
                    lemma_replace_value(self.entries@, i as int, value);
                }
                let e = (self.entries[i].0.clone(), value);
                self.entries.set(i, e);
            },
            None => {
                proof {
                    lemma_push_entry(self.entries@, (k, value));
                }
                self.entries.push((k, value));
            },
        }
    }

    /// Stores each of `pairs` in order, a later pair overriding an earlier
    /// one with the same key.
    pub fn absorb(&mut self, pairs: Vec<(String, SettingValue)>)
        requires
            old(self).wf(),
        ensures
            final(self).wf(),
            final(self)@ == old(self)@.union_prefer_right(entries_map(pairs@)),
    {
        let ghost start = self@;
        let ghost all = pairs@;
        let n = pairs.len();
        let mut rest = pairs;
        let mut i: usize = 0;
        while rest.len() > 0
            invariant
                self.wf(),
                i <= all.len(),
                rest@ == all.skip(i as int),
                all.len() == i + rest@.len(),
                all.len() == n,
                self@ == start.union_prefer_right(entries_map(all.take(i as int))),
            decreases rest@.len(),
        {
            proof {
                let t = all.take(i as int + 1);
                assert(t.drop_last() =~= all.take(i as int));
                assert(start.union_prefer_right(entries_map(t)) =~= start.union_prefer_right(
                    entries_map(all.take(i as int)),
                ).insert(all[i as int].0@, all[i as int].1@));
            }
            let (k, v) = rest.remove(0);
            assert(rest@ =~= all.skip(i as int + 1));
            self.set(k.as_str(), v);
            i = i + 1;
        }
        assert(all.take(all.len() as int) =~= all);
    }

    /// Merges `patch` into this record: new keys are added, keys that both
    /// hold take the patch's value, and other keys are kept.
    pub fn merge(&mut self, patch: Settings)
        requires
            old(self).wf(),
        ensures
            final(self).wf(),
            final(self)@ == old(self)@.union_prefer_right(patch@),
    {
        self.absorb(patch.entries);
    }

    /// A record holding the given entries, a later entry overriding an
    /// earlier one with the same key.
    pub fn from_pairs(pairs: Vec<(String, SettingValue)>) -> (r: Settings)
        ensures
            r.wf(),
            r@ == entries_map(pairs@),
    {
        let mut r = Settings::new();
        r.absorb(pairs);
        assert(Map::<Seq<char>, ScalarView>::empty().union_prefer_right(entries_map(pairs@))
            =~= entries_map(pairs@));
        r
    }

    /// The stored entries, each key once.
    pub fn entries(&self) -> (r: &Vec<(String, SettingValue)>)
        requires
            self.wf(),
        ensures
            r@ == self.stored(),
            keys_distinct(r@),
            entries_map(r@) == self@,
    {
        &self.entries
    }

    /// The target address of the proxied device, if one is configured: the
    /// text stored under the reserved key.
    pub fn target_address(&self) -> (r: Option<String>)
        requires
            self.wf(),
        ensures
            r is Some <==> address_in(self@) is Some,
            r is Some ==> r->Some_0@ == address_in(self@)->Some_0,
    {
        let key = target_address_key();
        match self.get(key.as_str()) {
            Some(SettingValue::Text(t)) => Some(t.clone()),
            _ => None,
        }
    }

    /// Configures the target address. Only an empty address is refused; its
    /// form as a network address is judged when a request is made.
    pub fn set_target_address(&mut self, address: &str) -> (r: Result<(), ConfigError>)
        requires
            old(self).wf(),
        ensures
            final(self).wf(),
            address@.len() == 0 ==> r == Err::<(), ConfigError>(ConfigError::EmptyAddress),
            address@.len() > 0 <==> r is Ok,
            address@.len() == 0 ==> final(self)@ == old(self)@,
            r is Ok ==> final(self)@ == old(self)@.insert(target_key(), ScalarView::Text(address@)),
    {
        if address.unicode_len() == 0 {
            return Err(ConfigError::EmptyAddress);
        }
        let key = target_address_key();
        self.set(key.as_str(), SettingValue::Text(address.to_owned()));
        Ok(())
    }

    /// Reads a record from the text of a settings file.
    pub fn from_json(text: &str) -> (r: Result<Settings, ConfigError>)
        ensures
            match settings_from_json(text@) {
                None => r == Err::<Settings, ConfigError>(ConfigError::Parse),
                Some(p) => r is Ok && r->Ok_0.wf() && r->Ok_0@ == pairs_map(p),
            },
    {
        match entries_from_json(text) {
            Some(pairs) => {
                proof {
                    lemma_pairs_map_of_view(pairs@);
                }
                Ok(Settings::from_pairs(pairs))
            },
            None => Err(ConfigError::Parse),
        }
    }

    /// The record held by a settings file: an empty record where there is no
    /// file yet, else what its text holds.
    pub fn load(existing: Option<&str>) -> (r: Result<Settings, ConfigError>)
        ensures
            match existing {
                None => r is Ok && r->Ok_0.wf() && r->Ok_0@ == Map::<Seq<char>, ScalarView>::empty(),
                Some(text) => match settings_from_json(text@) {
                    None => r == Err::<Settings, ConfigError>(ConfigError::Parse),
                    Some(p) => r is Ok && r->Ok_0.wf() && r->Ok_0@ == pairs_map(p),
                },
            },
    {
        match existing {
            None => Ok(Settings::new()),
            Some(text) => Settings::from_json(text),
        }
    }

    /// The text of the settings file that holds this record; reading it back
    /// gives this record.
    pub fn to_json(&self) -> (r: String)
        ensures
            r@ == settings_json(pairs_view(self.stored())),
            settings_from_json(r@) is Some,
            pairs_map(settings_from_json(r@)->Some_0) == self@,
    {
        proof {
            lemma_pairs_map_of_view(self.entries@);
        }
        match entries_to_json(&self.entries) {
            Some(text) => text,
            None => String::new(),
        }
    }
} // impl Settings

/// The reserved key under which the target address is stored.
pub open spec fn target_key() -> Seq<char> {
    seq!['a', 'p', 'i', '_', 'i', 'p']
}

/// The reserved key under which the target address is stored.
pub fn target_address_key() -> (r: String)
    ensures
        r@ == target_key(),
{
    let r = String::from_str("api_ip");
    proof {
        reveal_strlit("api_ip");
        assert(r@ =~= target_key());
    }
    r
}

/// The target address that a record holds: the text stored under the
/// reserved key.
pub open spec fn address_in(record: Map<Seq<char>, ScalarView>) -> Option<Seq<char>> {
    if record.contains_key(target_key()) {
        match record[target_key()] {
            ScalarView::Text(t) => Some(t),
            _ => None,
        }
    } else {
        None
    }
}

/// Why a settings operation failed.
#[derive(Clone, Debug, PartialEq, Eq)]
pub enum ConfigError {
    /// The settings file could not be read or written.
    Io { message: String },
    /// The settings file is not a well-formed record.
    Parse,
    /// An empty target address was given.
    EmptyAddress,
}

/// Merging a patch a second time changes nothing.
pub proof fn lemma_merge_idempotent(
    record: Map<Seq<char>, ScalarView>,
    patch: Map<Seq<char>, ScalarView>,
)
    ensures
        record.union_prefer_right(patch).union_prefer_right(patch) == record.union_prefer_right(
            patch,
        ),
{
    assert(record.union_prefer_right(patch).union_prefer_right(patch) =~= record.union_prefer_right(
        patch,
    ));
}

/// After two merges every key of the second patch has its value, and every
/// key of the first that the second does not name keeps the first's value.
pub proof fn lemma_merge_keeps_both(
    record: Map<Seq<char>, ScalarView>,
    first: Map<Seq<char>, ScalarView>,
    second: Map<Seq<char>, ScalarView>,
)
    ensures
        forall|k: Seq<char>| #[trigger]
            second.contains_key(k) ==> record.union_prefer_right(first).union_prefer_right(
                second,
            ).contains_key(k) && record.union_prefer_right(first).union_prefer_right(second)[k]
                == second[k],
        forall|k: Seq<char>|
            #![trigger first.contains_key(k)]
            first.contains_key(k) && !second.contains_key(k) ==> record.union_prefer_right(
                first,
            ).union_prefer_right(second).contains_key(k) && record.union_prefer_right(
                first,
            ).union_prefer_right(second)[k] == first[k],
{
}

/// Reading the target address after configuring a non-empty one gives it
/// back exactly.
pub proof fn lemma_address_round_trip(record: Map<Seq<char>, ScalarView>, address: Seq<char>)
    requires
        address.len() > 0,
    ensures
        address_in(record.insert(target_key(), ScalarView::Text(address))) == Some(address),
{
}

} // verus!
