//! String-keyed attribute maps, and the decorator mini-language that fills them.
use vstd::prelude::*;

use crate::text::{chars_of, find_char, first_index, str_eq, string_of_range, trim, trim_range};

verus! {

/// The map a list of entries makes when they are inserted in order: a later
/// entry for a key replaces an earlier one.
pub open spec fn map_of_entries(s: Seq<(String, String)>) -> Map<Seq<char>, Seq<char>>
    decreases s.len(),
{
    if s.len() == 0 {
        Map::empty()
    } else {
        map_of_entries(s.drop_last()).insert(s.last().0@, s.last().1@)
    }
}

/// With no entry for `k` in `[i, s.len())`, the entries before `i` decide `k`.
proof fn lemma_map_of_entries_tail(s: Seq<(String, String)>, i: int, k: Seq<char>)
    requires
        0 <= i <= s.len(),
        forall|j: int| i <= j < s.len() ==> (#[trigger] s[j]).0@ != k,
    ensures
        map_of_entries(s).contains_key(k) == map_of_entries(s.subrange(0, i)).contains_key(k),
        map_of_entries(s).contains_key(k) ==> map_of_entries(s)[k] == map_of_entries(
            s.subrange(0, i),
        )[k],
    decreases s.len() - i,
{
    if i < s.len() {
        let t = s.drop_last();
        assert forall|j: int| i <= j < t.len() implies (#[trigger] t[j]).0@ != k by {
            assert(t[j] == s[j]);
        }
        lemma_map_of_entries_tail(t, i, k);
        assert(t.subrange(0, i) =~= s.subrange(0, i));
        assert(s[s.len() - 1].0@ != k);
    } else {
        assert(s.subrange(0, i) =~= s);
    }
}

/// A string-keyed map of string values; keys are case-sensitive.
#[derive(Debug)]
pub struct Attributes {
    entries: Vec<(String, String)>,
}

impl View for Attributes {
    type V = Map<Seq<char>, Seq<char>>;

    closed spec fn view(&self) -> Map<Seq<char>, Seq<char>> {
        map_of_entries(self.entries@)
    }
}

impl Attributes {
    /// An empty map.
    pub fn new() -> (r: Self)
        ensures
            r@ == Map::<Seq<char>, Seq<char>>::empty(),
    {
        Attributes { entries: Vec::new() }
    }

    /// Sets `key` to `value`, replacing what it held.
    pub fn insert(&mut self, key: String, value: String)
        ensures
            final(self)@ == old(self)@.insert(key@, value@),
    {
        let ghost before = self.entries@;
        self.entries.push((key, value));
        assert(self.entries@.drop_last() =~= before);
    }

    /// Whether the map holds no key.
    pub fn is_empty(&self) -> (r: bool)
        ensures
            r == (self@.dom() == Set::<Seq<char>>::empty()),
    {
        if self.entries.len() == 0 {
            assert(self@ =~= Map::<Seq<char>, Seq<char>>::empty());
            true
        } else {
            let ghost s = self.entries@;
            assert(self@.contains_key(s.last().0@));
            false
        }
    }

    /// The value `key` holds.
    pub fn get(&self, key: &str) -> (r: Option<String>)
        ensures
            match r {
                Some(v) => self@.contains_key(key@) && self@[key@] == v@,
                None => !self@.contains_key(key@),
            },
    {
        let mut i = self.entries.len();
        while i > 0
            invariant
                i <= self.entries.len(),
                forall|j: int|
                    i <= j < self.entries@.len() ==> (#[trigger] self.entries@[j]).0@ != key@,
            decreases i,
        {
            let e = &self.entries[i - 1];
            if str_eq(e.0.as_str(), key) {
                proof {
                    let s = self.entries@;
                    lemma_map_of_entries_tail(s, i as int, key@);
                    let p = s.subrange(0, i as int);
                    assert(p.drop_last() =~= s.subrange(0, i - 1));
                }
                return Some(e.1.clone());
            }
            i -= 1;
        }
        proof {
            lemma_map_of_entries_tail(self.entries@, 0, key@);
        }
        None
    }

    /// Whether `key` holds a value.
    pub fn contains_key(&self, key: &str) -> (r: bool)
        ensures
            r == self@.contains_key(key@),
    {
        self.get(key).is_some()
    }
}

/// What `shlex::split` makes of a string: its shell-style words, or nothing when
/// the quoting is malformed.
pub uninterp spec fn shell_words(s: Seq<char>) -> Option<Seq<Seq<char>>>;

/// Relies on shlex::split: splits a string into shell-style words, honouring
/// quotes and escapes; `None` where the input cannot be split.
#[verifier::external_body]
fn split_shell_words(s: &str) -> (r: Option<Vec<String>>)
    ensures
        match r {
            Some(v) => shell_words(s@) == Some(v@.map_values(|t: String| t@)),
            None => shell_words(s@) is None,
        },
{
    shlex::split(s)
}

pub open spec fn true_text() -> Seq<char> {
    seq!['t', 'r', 'u', 'e']
}

/// The key and value one decorator word gives: split at the first `=`, the key
/// trimmed and the value kept as it is; a bare word is a flag set to `true`.
pub open spec fn token_entry(t: Seq<char>) -> (Seq<char>, Seq<char>) {
    match first_index(t, '=') {
        Some(i) => (trim(t.subrange(0, i)), t.subrange(i + 1, t.len() as int)),
        None => (trim(t), true_text()),
    }
}

/// The attributes a list of decorator words gives; a later word for a key wins.
pub open spec fn attrs_of_tokens(ts: Seq<Seq<char>>) -> Map<Seq<char>, Seq<char>>
    decreases ts.len(),
{
    if ts.len() == 0 {
        Map::empty()
    } else {
        let e = token_entry(ts.last());
        attrs_of_tokens(ts.drop_last()).insert(e.0, e.1)
    }
}

/// What a decorator string stands for: no attributes when it cannot be split or
/// holds no word, else the attributes its words give.
pub open spec fn decorator_attrs(info: Seq<char>) -> Option<Map<Seq<char>, Seq<char>>> {
    match shell_words(info) {
        None => None,
        Some(ts) => if ts.len() == 0 {
            None
        } else {
            Some(attrs_of_tokens(ts))
        },
    }
}

/// The key and value of one decorator word.
pub fn token_to_entry(token: &str) -> (r: (String, String))
    ensures
        r.0@ == token_entry(token@).0,
        r.1@ == token_entry(token@).1,
{
    let v = chars_of(token);
    let n = v.len();
    assert(v@.subrange(0, n as int) =~= v@);
    match find_char(&v, 0, n, '=') {
        Some(i) => {
            let (a, b) = trim_range(&v, 0, i);
            assert(v@.subrange(0, i as int) =~= token@.subrange(0, i as int));
            let key = string_of_range(&v, a, b);
            let value = string_of_range(&v, i + 1, n);
            (key, value)
        },
        None => {
            let (a, b) = trim_range(&v, 0, n);
            let key = string_of_range(&v, a, b);
            let value = "true".to_owned();
            proof {
                reveal_strlit("true");
                assert(value@ =~= true_text());
            }
            (key, value)
        },
    }
}

/// The attributes a list of decorator words gives, or `None` for no words.
pub fn attributes_from_tokens(tokens: &Vec<String>) -> (r: Option<Attributes>)
    ensures
        tokens@.len() == 0 ==> r is None,
        tokens@.len() > 0 ==> r is Some && r->0@ == attrs_of_tokens(
            tokens@.map_values(|t: String| t@),
        ),
{
    if tokens.len() == 0 {
        return None;
    }
    let ghost words = tokens@.map_values(|t: String| t@);
    let mut attrs = Attributes::new();
    let mut i: usize = 0;
    while i < tokens.len()
        invariant
            i <= tokens.len(),
            words == tokens@.map_values(|t: String| t@),
            attrs@ == attrs_of_tokens(words.subrange(0, i as int)),
        decreases tokens.len() - i,
    {
        let (k, v) = token_to_entry(tokens[i].as_str());
        attrs.insert(k, v);
        proof {
            let p = words.subrange(0, i + 1);
            assert(p.drop_last() =~= words.subrange(0, i as int));
            assert(p.last() == tokens@[i as int]@);
        }
        i += 1;
    }
    assert(words.subrange(0, i as int) =~= words);
    Some(attrs)
}

/// Parses a fence's decorator string (`key=value`, quoted values, bare flags)
/// into attributes. `None` when the quoting is malformed or there is no word.
pub fn parse_custom_attributes(info_string: &str) -> (r: Option<Attributes>)
    ensures
        match decorator_attrs(info_string@) {
            None => r is None,
            Some(m) => r is Some && r->0@ == m,
        },
{
    match split_shell_words(info_string) {
        None => None,
        Some(tokens) => attributes_from_tokens(&tokens),
    }
}

} // verus!
