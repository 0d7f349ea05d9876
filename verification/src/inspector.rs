//! The inspector's transient memory: expand/collapse flags and text-field
//! values kept by key (clip identifier and parameter), so that they survive
//! a redraw of the panel.
use crate::text::str_is;
use vstd::prelude::*;

verus! {

/// The position of the first key equal to `key`, if any.
pub open spec fn key_position(keys: Seq<Seq<char>>, key: Seq<char>) -> Option<int> {
    if exists|i: int| 0 <= i < keys.len() && keys[i] == key {
        Some(
            choose|i: int|
                0 <= i < keys.len() && keys[i] == key && forall|j: int|
                    0 <= j < i ==> keys[j] != key,
        )
    } else {
        None
    }
}

proof fn lemma_least_key(keys: Seq<Seq<char>>, key: Seq<char>, n: int)
    requires
        0 <= n <= keys.len(),
        exists|i: int| 0 <= i < n && keys[i] == key,
    ensures
        exists|i: int|
            0 <= i < keys.len() && keys[i] == key && forall|j: int| 0 <= j < i ==> keys[j] != key,
    decreases n,
{
    if exists|i: int| 0 <= i < n - 1 && keys[i] == key {
        lemma_least_key(keys, key, n - 1);
    } else {
        assert(keys[n - 1] == key);
    }
}

/// `key_position` is the smallest position holding the key.
pub proof fn lemma_key_position(keys: Seq<Seq<char>>, key: Seq<char>)
    ensures
        (match key_position(keys, key) {
            Some(i) => 0 <= i < keys.len() && keys[i] == key && forall|j: int|
                0 <= j < i ==> keys[j] != key,
            None => forall|j: int| 0 <= j < keys.len() ==> keys[j] != key,
        }),
{
    if exists|i: int| 0 <= i < keys.len() && keys[i] == key {
        let i = choose|i: int| 0 <= i < keys.len() && keys[i] == key;
        lemma_least_key(keys, key, i + 1);
    }
}

/// The flags after flipping the one under `key`.
pub open spec fn toggled(f: spec_fn(Seq<char>) -> bool, key: Seq<char>) -> spec_fn(
    Seq<char>,
) -> bool {
    |k: Seq<char>|
        if k == key {
            !f(k)
        } else {
            f(k)
        }
}

/// The flags after setting the one under `key` to `val`.
pub open spec fn with_flag(f: spec_fn(Seq<char>) -> bool, key: Seq<char>, val: bool) -> spec_fn(
    Seq<char>,
) -> bool {
    |k: Seq<char>|
        if k == key {
            val
        } else {
            f(k)
        }
}

/// The texts after storing `val` under `key`.
pub open spec fn with_text(
    f: spec_fn(Seq<char>) -> Option<Seq<char>>,
    key: Seq<char>,
    val: Seq<char>,
) -> spec_fn(Seq<char>) -> Option<Seq<char>> {
    |k: Seq<char>|
        if k == key {
            Some(val)
        } else {
            f(k)
        }
}

/// Expand/collapse flags and text values of the inspector, by key. A flag
/// never set reads as `false`; a text never stored reads as absent.
pub struct InspectorMemory {
    flags: Vec<(String, bool)>,
    texts: Vec<(String, String)>,
}

/// The keys of a list of keyed entries.
pub open spec fn keys_of<V>(entries: Seq<(String, V)>) -> Seq<Seq<char>> {
    entries.map_values(|e: (String, V)| e.0@)
}

impl InspectorMemory {
    /// Every flag, by key.
    pub closed spec fn flags(&self) -> spec_fn(Seq<char>) -> bool {
        |k: Seq<char>|
            match key_position(keys_of(self.flags@), k) {
                Some(i) => self.flags@[i].1,
                None => false,
            }
    }

    /// Every stored text, by key.
    pub closed spec fn texts(&self) -> spec_fn(Seq<char>) -> Option<Seq<char>> {
        |k: Seq<char>|
            match key_position(keys_of(self.texts@), k) {
                Some(i) => Some(self.texts@[i].1@),
                None => None,
            }
    }

    /// Empty memory: every flag off, no text.
    pub fn new() -> (r: InspectorMemory)
        ensures
            forall|k: Seq<char>| !(#[trigger] (r.flags())(k)),
            forall|k: Seq<char>| (#[trigger] (r.texts())(k)) is None,
    {
        InspectorMemory { flags: Vec::new(), texts: Vec::new() }
    }

    /// The flag under `key`.
    pub fn flag_get(&self, key: &str) -> (r: bool)
        ensures
            r == (self.flags())(key@),
    {
        match find_key(&self.flags, key) {
            Some(i) => self.flags[i].1,
            None => false,
        }
    }

    /// Sets the flag under `key`; every other flag is unchanged.
    pub fn flag_set(&mut self, key: &str, val: bool)
        ensures
            final(self).flags() == with_flag(old(self).flags(), key@, val),
            final(self).texts() == old(self).texts(),
    {
        let ghost keys0 = keys_of(self.flags@);
        let ghost before = self.flags();
        match find_key(&self.flags, key) {
            Some(i) => {
                self.flags.set(i, (owned(key), val));
                proof {
                    lemma_key_position(keys0, key@);
                    assert(keys_of(self.flags@) =~= keys0);
                }
            },
            None => {
                self.flags.push((owned(key), val));
                proof {
                    lemma_key_position(keys0, key@);
                    assert(keys_of(self.flags@) =~= keys0.push(key@));
                    lemma_key_pushed(keys0, key@);
                }
            },
        }
        assert(self.flags() =~= with_flag(before, key@, val)) by {
            assert forall|k: Seq<char>| (#[trigger] (self.flags())(k)) == with_flag(
                before,
                key@,
                val,
            )(k) by {
                lemma_key_position(keys0, k);
                lemma_key_position(keys_of(self.flags@), k);
                lemma_key_position(keys0, key@);
            }
        }
    }

    /// Flips the flag under `key`.
    pub fn flag_toggle(&mut self, key: &str)
        ensures
            final(self).flags() == toggled(old(self).flags(), key@),
            final(self).texts() == old(self).texts(),
    {
        let v = self.flag_get(key);
        self.flag_set(key, !v);
        assert(self.flags() =~= toggled(old(self).flags(), key@));
    }

    /// The text under `key`, if one was stored.
    pub fn str_val_get(&self, key: &str) -> (r: Option<String>)
        ensures
            (match r {
                Some(s) => (self.texts())(key@) == Some(s@),
                None => (self.texts())(key@) is None,
            }),
    {
        match find_key(&self.texts, key) {
            Some(i) => Some(self.texts[i].1.clone()),
            None => None,
        }
    }

    /// Stores `val` under `key`; every other text is unchanged.
    pub fn str_val_set(&mut self, key: &str, val: String)
        ensures
            final(self).texts() == with_text(old(self).texts(), key@, val@),
            final(self).flags() == old(self).flags(),
    {
        let ghost keys0 = keys_of(self.texts@);
        let ghost before = self.texts();
        let ghost v = val@;
        match find_key(&self.texts, key) {
            Some(i) => {
                self.texts.set(i, (owned(key), val));
                proof {
                    lemma_key_position(keys0, key@);
                    assert(keys_of(self.texts@) =~= keys0);
                }
            },
            None => {
                self.texts.push((owned(key), val));
                proof {
                    lemma_key_position(keys0, key@);
                    assert(keys_of(self.texts@) =~= keys0.push(key@));
                    lemma_key_pushed(keys0, key@);
                }
            },
        }
        assert(self.texts() =~= with_text(before, key@, v)) by {
            assert forall|k: Seq<char>| (#[trigger] (self.texts())(k)) == with_text(
                before,
                key@,
                v,
            )(k) by {
                lemma_key_position(keys0, k);
                lemma_key_position(keys_of(self.texts@), k);
                lemma_key_position(keys0, key@);
            }
        }
    }
}

/// A `String` holding a string slice.
fn owned(t: &str) -> (r: String)
    ensures
        r@ == t@,
{
    let mut s = String::new();
    crate::text::push_str(&mut s, t);
    assert(s@ =~= t@);
    s
}

/// Appending a key adds it after all the others.
proof fn lemma_key_pushed(keys: Seq<Seq<char>>, key: Seq<char>)
    requires
        key_position(keys, key) is None,
    ensures
        key_position(keys.push(key), key) == Some(keys.len() as int),
        forall|k: Seq<char>| k != key ==> key_position(keys.push(key), k) == key_position(keys, k),
{
    lemma_key_position(keys, key);
    let q = keys.push(key);
    assert(q[keys.len() as int] == key);
    lemma_key_position(q, key);
    let j = key_position(q, key)->0;
    if j < keys.len() {
        assert(q[j] == keys[j]);
    }
    assert forall|k: Seq<char>| k != key implies key_position(keys.push(key), k) == key_position(
        keys,
        k,
    ) by {
        lemma_key_position(keys, k);
        lemma_key_position(keys.push(key), k);
        let p = keys.push(key);
        match key_position(keys, k) {
            Some(i) => {
                assert(p[i] == keys[i]);
                match key_position(p, k) {
                    Some(j) => {
                        if j < i {
                            assert(p[j] == keys[j]);
                        } else if j > i {
                            assert(p[i] != k);
                        }
                    },
                    None => {
                        assert(p[i] != k);
                    },
                }
            },
            None => {
                match key_position(p, k) {
                    Some(j) => {
                        if j < keys.len() {
                            assert(p[j] == keys[j]);
                        }
                    },
                    None => {},
                }
            },
        }
    }
}

/// The position of the first entry whose key equals `key`.
fn find_key<V>(entries: &Vec<(String, V)>, key: &str) -> (r: Option<usize>)
    ensures
        (match r {
            Some(i) => key_position(keys_of(entries@), key@) == Some(i as int) && i
                < entries@.len(),
            None => key_position(keys_of(entries@), key@) is None,
        }),
{
    let ghost ks = keys_of(entries@);
    let mut i: usize = 0;
    while i < entries.len()
        invariant
            i <= entries@.len(),
            ks == keys_of(entries@),
            forall|j: int| 0 <= j < i ==> ks[j] != key@,
        decreases entries.len() - i,
    {
        if str_is(entries[i].0.as_str(), key) {
            proof {
                lemma_key_position(ks, key@);
                assert(ks[i as int] == key@);
                let j = key_position(ks, key@)->0;
                if j < i {
                    assert(ks[j] != key@);
                } else if j > i {
                    assert(ks[i as int] != key@);
                }
            }
            return Some(i);
        }
        i = i + 1;
    }
    proof {
        lemma_key_position(ks, key@);
    }
    None
}

/// Flipping a flag twice leaves every flag as it was.
pub proof fn law_toggle_twice_restores(f: spec_fn(Seq<char>) -> bool, key: Seq<char>)
    ensures
        toggled(toggled(f, key), key) == f,
{
    assert(toggled(toggled(f, key), key) =~= f);
}

/// A flag reads back as it was set, and setting it touches no other flag.
pub proof fn law_flag_reads_back(
    f: spec_fn(Seq<char>) -> bool,
    key: Seq<char>,
    val: bool,
    other: Seq<char>,
)
    ensures
        with_flag(f, key, val)(key) == val,
        other != key ==> with_flag(f, key, val)(other) == f(other),
{
}

/// A text reads back as it was stored, and storing it touches no other
/// text.
pub proof fn law_text_reads_back(
    f: spec_fn(Seq<char>) -> Option<Seq<char>>,
    key: Seq<char>,
    val: Seq<char>,
    other: Seq<char>,
)
    ensures
        with_text(f, key, val)(key) == Some(val),
        other != key ==> with_text(f, key, val)(other) == f(other),
{
}

} // verus!
