//! Configuration values and string-keyed tables of them.
//!
//! A configuration value is modelled by what the configuration logic reads of
//! it: for a JSON string, its characters; for any other JSON value, its
//! compact JSON text. Tables keep their entries in a fixed order, each key at
//! most once.

use vstd::prelude::*;
use crate::text::{starts_with_char, str_equal};

verus! {

/// The compact JSON text of a JSON string holding the characters `s`.
pub uninterp spec fn json_string_literal(s: Seq<char>) -> Seq<char>;

/// Trusted: serde_json's `Display` for `Value::String`, which serialises the
/// string as a JSON string literal. The serialiser writes a `"` first and
/// last (`begin_string` / `end_string` in serde_json's `ser.rs`); the escaped
/// characters in between are only named.
#[verifier::external_body]
fn json_string_text(s: &str) -> (r: String)
    ensures
        r@ == json_string_literal(s@),
        r@.len() >= 2,
        r@[0] == '"',
        r@.last() == '"',
{
    serde_json::Value::String(s.to_owned()).to_string()
}

/// The abstract view of a configuration value.
pub enum JsonValue {
    /// A JSON string, by its characters.
    Str(Seq<char>),
    /// Any other JSON value, by its compact JSON text.
    Other(Seq<char>),
}

/// A non-string JSON value never serialises to an empty text or one that
/// begins with a quote.
pub open spec fn json_value_wf(v: JsonValue) -> bool {
    match v {
        JsonValue::Str(_) => true,
        JsonValue::Other(t) => t.len() > 0 && t[0] != '"',
    }
}

/// The compact JSON text of a value (what serde_json's `to_string` gives).
pub open spec fn json_text(v: JsonValue) -> Seq<char> {
    match v {
        JsonValue::Str(s) => json_string_literal(s),
        JsonValue::Other(t) => t,
    }
}

/// A value read as a plain string: a JSON string gives its characters, any
/// other value its JSON text.
pub open spec fn string_form(v: JsonValue) -> Seq<char> {
    match v {
        JsonValue::Str(s) => s,
        JsonValue::Other(t) => t,
    }
}

/// A configuration value.
pub struct ConfigValue {
    string: Option<String>,
    json: String,
}

impl ConfigValue {
    #[verifier::type_invariant]
    spec fn inv(self) -> bool {
        match self.string {
            Some(s) => self.json@ == json_string_literal(s@) && self.json@.len() > 0
                && self.json@[0] == '"',
            None => self.json@.len() > 0 && self.json@[0] != '"',
        }
    }

    /// A JSON string value.
    pub fn from_string(s: String) -> (r: ConfigValue)
        ensures
            r@ == JsonValue::Str(s@),
    {
        let json = json_string_text(s.as_str());
        ConfigValue { string: Some(s), json }
    }

    /// A non-string JSON value given by its compact JSON text; `None` when the
    /// text is empty or starts with a quote, as no such value has that text.
    pub fn from_json_text(text: String) -> (r: Option<ConfigValue>)
        ensures
            r is Some <==> (text@.len() > 0 && text@[0] != '"'),
            r matches Some(v) ==> v@ == JsonValue::Other(text@),
    {
        if text.as_str().unicode_len() == 0 || starts_with_char(text.as_str(), '"') {
            None
        } else {
            Some(ConfigValue { string: None, json: text })
        }
    }

    /// The compact JSON text (serde_json's `to_string`).
    pub fn to_json_text(&self) -> (r: String)
        ensures
            r@ == json_text(self@),
            (r@.len() > 0 && r@[0] == '"') <==> self@ is Str,
    {
        proof {
            use_type_invariant(self);
        }
        self.json.clone()
    }

    /// The characters of a JSON string (serde_json's `as_str`).
    pub fn as_str(&self) -> (r: Option<&str>)
        ensures
            match self@ {
                JsonValue::Str(s) => r matches Some(x) && x@ == s,
                JsonValue::Other(_) => r is None,
            },
    {
        match &self.string {
            Some(s) => Some(s.as_str()),
            None => None,
        }
    }
}

impl View for ConfigValue {
    type V = JsonValue;

    closed spec fn view(&self) -> JsonValue {
        match self.string {
            Some(s) => JsonValue::Str(s@),
            None => JsonValue::Other(self.json@),
        }
    }
}

/// Values that can be copied with their view kept.
pub trait Duplicate: View + Sized {
    fn duplicate(&self) -> (r: Self)
        ensures
            r@ == self@,
    ;
}

impl Duplicate for ConfigValue {
    fn duplicate(&self) -> (r: ConfigValue) {
        proof {
            use_type_invariant(self);
        }
        let string = match &self.string {
            Some(s) => Some(s.clone()),
            None => None,
        };
        ConfigValue { string, json: self.json.clone() }
    }
}

/// No key occurs twice.
pub open spec fn keys_unique<V>(s: Seq<(Seq<char>, V)>) -> bool {
    forall|i: int, j: int| 0 <= i < j < s.len() ==> #[trigger] s[i].0 != #[trigger] s[j].0
}

/// Index of an entry with key `k`.
pub open spec fn key_index<V>(s: Seq<(Seq<char>, V)>, k: Seq<char>) -> int {
    choose|i: int| 0 <= i < s.len() && s[i].0 == k
}

/// Some entry has key `k`.
pub open spec fn has_key<V>(s: Seq<(Seq<char>, V)>, k: Seq<char>) -> bool {
    exists|i: int| 0 <= i < s.len() && s[i].0 == k
}

/// The value stored under `k`, if any.
pub open spec fn lookup<V>(s: Seq<(Seq<char>, V)>, k: Seq<char>) -> Option<V> {
    if has_key(s, k) {
        Some(s[key_index(s, k)].1)
    } else {
        None
    }
}

/// The entries after storing `v` under `k`: an existing entry with that key
/// is overwritten in place, otherwise the entry is appended.
pub open spec fn inserted<V>(s: Seq<(Seq<char>, V)>, k: Seq<char>, v: V) -> Seq<(Seq<char>, V)> {
    if has_key(s, k) {
        s.update(key_index(s, k), (k, v))
    } else {
        s.push((k, v))
    }
}

/// Reading a key back after storing it gives the stored value; every other
/// key keeps its value, and keys stay unique.
pub proof fn lemma_read_after_insert<V>(s: Seq<(Seq<char>, V)>, k: Seq<char>, v: V, other: Seq<char>)
    requires
        keys_unique(s),
        other != k,
    ensures
        keys_unique(inserted(s, k, v)),
        lookup(inserted(s, k, v), k) == Some(v),
        lookup(inserted(s, k, v), other) == lookup(s, other),
{
    let t = inserted(s, k, v);
    if has_key(s, k) {
        let i = key_index(s, k);
        assert(keys_unique(t)) by {
            assert forall|a: int, b: int| 0 <= a < b < t.len() implies #[trigger] t[a].0
                != #[trigger] t[b].0 by {
                assert(s[a].0 != s[b].0);
            }
        }
        lemma_lookup_at(t, i);
        if has_key(s, other) {
            let j = key_index(s, other);
            lemma_lookup_at(s, j);
            lemma_lookup_at(t, j);
        } else {
            assert(!has_key(t, other));
        }
    } else {
        assert(keys_unique(t)) by {
            assert forall|a: int, b: int| 0 <= a < b < t.len() implies #[trigger] t[a].0
                != #[trigger] t[b].0 by {
                if b < s.len() {
                    assert(s[a].0 != s[b].0);
                }
            }
        }
        lemma_lookup_at(t, s.len() as int);
        if has_key(s, other) {
            let j = key_index(s, other);
            lemma_lookup_at(s, j);
            lemma_lookup_at(t, j);
        } else {
            assert(!has_key(t, other));
        }
    }
}

/// With unique keys, the entry at `i` is what `lookup` finds under its key.
pub proof fn lemma_lookup_at<V>(s: Seq<(Seq<char>, V)>, i: int)
    requires
        keys_unique(s),
        0 <= i < s.len(),
    ensures
        has_key(s, s[i].0),
        key_index(s, s[i].0) == i,
        lookup(s, s[i].0) == Some(s[i].1),
{
    assert(has_key(s, s[i].0));
    let j = key_index(s, s[i].0);
    if j != i {
        if j < i {
            assert(s[j].0 != s[i].0);
        } else {
            assert(s[i].0 != s[j].0);
        }
    }
}

/// A map from strings to values, in insertion order.
pub struct StrMap<V: Duplicate> {
    entries: Vec<(String, V)>,
}

/// A table of configuration values.
pub type Table = StrMap<ConfigValue>;

/// A table of tables (named sections).
pub type Tables = StrMap<Table>;

impl<V: Duplicate> View for StrMap<V> {
    type V = Seq<(Seq<char>, V::V)>;

    closed spec fn view(&self) -> Seq<(Seq<char>, V::V)> {
        self.entries@.map_values(|e: (String, V)| (e.0@, e.1@))
    }
}

impl<V: Duplicate> StrMap<V> {
    #[verifier::type_invariant]
    spec fn inv(self) -> bool {
        keys_unique(self@)
    }

    /// The empty map.
    pub fn new() -> (r: Self)
        ensures
            r@ == Seq::<(Seq<char>, V::V)>::empty(),
    {
        let r = StrMap { entries: Vec::new() };
        assert(r@ =~= Seq::<(Seq<char>, V::V)>::empty());
        r
    }

    /// Number of entries (no key occurs twice among them).
    pub fn len(&self) -> (r: usize)
        ensures
            r == self@.len(),
            keys_unique(self@),
    {
        proof {
            use_type_invariant(self);
        }
        self.entries.len()
    }

    /// Whether the map has no entries.
    pub fn is_empty(&self) -> (r: bool)
        ensures
            r == (self@.len() == 0),
    {
        self.entries.len() == 0
    }

    /// The key of the `i`-th entry.
    pub fn key_at(&self, i: usize) -> (r: &String)
        requires
            i < self@.len(),
        ensures
            r@ == self@[i as int].0,
    {
        &self.entries[i].0
    }

    /// The value of the `i`-th entry.
    pub fn value_at(&self, i: usize) -> (r: &V)
        requires
            i < self@.len(),
        ensures
            r@ == self@[i as int].1,
    {
        &self.entries[i].1
    }

    /// Position of the entry with key `key`, if any.
    pub fn position(&self, key: &str) -> (r: Option<usize>)
        ensures
            match r {
                Some(i) => i < self@.len() && self@[i as int].0 == key@,
                None => !has_key(self@, key@),
            },
    {
        let n = self.entries.len();
        let mut i: usize = 0;
        while i < n
            invariant
                n == self@.len(),
                i <= n,
                forall|j: int| 0 <= j < i ==> self@[j].0 != key@,
            decreases n - i,
        {
            if str_equal(self.entries[i].0.as_str(), key) {
                return Some(i);
            }
            i = i + 1;
        }
        None
    }

    /// Whether some entry has key `key`.
    pub fn contains_key(&self, key: &str) -> (r: bool)
        ensures
            r == has_key(self@, key@),
    {
        self.position(key).is_some()
    }

    /// The value stored under `key`.
    pub fn get(&self, key: &str) -> (r: Option<&V>)
        ensures
            match r {
                Some(v) => lookup(self@, key@) == Some(v@),
                None => lookup(self@, key@) is None,
            },
    {
        proof {
            use_type_invariant(self);
        }
        match self.position(key) {
            Some(i) => {
                proof {
                    lemma_lookup_at(self@, i as int);
                }
                Some(&self.entries[i].1)
            },
            None => None,
        }
    }

    /// Stores `value` under `key` (see `inserted`).
    pub fn insert(&mut self, key: String, value: V)
        ensures
            final(self)@ == inserted(old(self)@, key@, value@),
    {
        proof {
            use_type_invariant(&*self);
        }
        let ghost old_view = self@;
        match self.position(key.as_str()) {
            Some(i) => {
                proof {
                    lemma_lookup_at(old_view, i as int);
                }
                let mut entries = Vec::new();
                std::mem::swap(&mut entries, &mut self.entries);
                entries.set(i, (key, value));
                assert(entries@.map_values(|e: (String, V)| (e.0@, e.1@)) =~= old_view.update(
                    i as int,
                    (key@, value@),
                ));
                self.entries = entries;
            },
            None => {
                let mut entries = Vec::new();
                std::mem::swap(&mut entries, &mut self.entries);
                entries.push((key, value));
                assert(entries@.map_values(|e: (String, V)| (e.0@, e.1@)) =~= old_view.push(
                    (key@, value@),
                ));
                self.entries = entries;
            },
        }
    }
}

impl<V: Duplicate> Duplicate for StrMap<V> {
    fn duplicate(&self) -> (r: Self) {
        proof {
            use_type_invariant(self);
        }
        let n = self.entries.len();
        let mut out: Vec<(String, V)> = Vec::new();
        let mut i: usize = 0;
        while i < n
            invariant
                n == self.entries@.len(),
                i <= n,
                out@.len() == i,
                forall|j: int|
                    0 <= j < i ==> (#[trigger] out@[j]).0@ == self.entries@[j].0@ && out@[j].1@
                        == self.entries@[j].1@,
            decreases n - i,
        {
            let k = self.entries[i].0.clone();
            let v = self.entries[i].1.duplicate();
            out.push((k, v));
            i = i + 1;
        }
        assert(out@.map_values(|e: (String, V)| (e.0@, e.1@)) =~= self@);
        StrMap { entries: out }
    }
}

} // verus!
