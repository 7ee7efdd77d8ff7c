//! The preference store: a small set of `key=value` records kept as text.
//!
//! The stored form is one record per line, `key=value`, with no sections, quoting or
//! escaping. Reading splits each line at its first `=` and trims both parts; a line without
//! `=` is skipped; a key that occurs again replaces the value read before. Writing puts every
//! record on a line of its own.
//!
//! The functions here go from text to text. Reading and writing the file is the caller's
//! part: a file that is missing or cannot be read is handed in as `None`.

use crate::preference_laws::{lemma_as_map_stored, lemma_stored_keeps_keys_unique};
use crate::text::{
    find_char, is_trimmed, lemma_index_of_first_absent, lemma_index_of_first_at, string_from_chars,
    to_chars, trim, trim_bounds, Text,
};
use vstd::prelude::*;
use vstd::string::StringExecFns;

verus! {

/// Key of the appearance mode.
pub const PREF_THEME: &'static str = "theme";

/// Key of the editor colour scheme.
pub const PREF_SCHEME: &'static str = "color-scheme";

/// Appearance mode of a store that holds none.
pub const DEFAULT_THEME: &'static str = "default";

/// Editor colour scheme of a store that holds none.
pub const DEFAULT_SCHEME: &'static str = "Adwaita-dark";

/// The keys of `records`, in order.
pub open spec fn keys(records: Seq<(Text, Text)>) -> Seq<Text> {
    records.map_values(|r: (Text, Text)| r.0)
}

/// The value that `records` holds for `key`, if any.
pub open spec fn lookup(records: Seq<(Text, Text)>, key: Text) -> Option<Text> {
    match keys(records).index_of_first(key) {
        Some(i) => Some(records[i].1),
        None => None,
    }
}

/// `records` after `value` has been written for `key`: the record of `key` holds `value`
/// where it stood, or stands at the end if there was none.
pub open spec fn stored(records: Seq<(Text, Text)>, key: Text, value: Text) -> Seq<(Text, Text)> {
    match keys(records).index_of_first(key) {
        Some(i) => records.update(i, (key, value)),
        None => records.push((key, value)),
    }
}

/// `records` as a mapping from key to value.
pub open spec fn as_map(records: Seq<(Text, Text)>) -> Map<Text, Text> {
    Map::new(|k: Text| lookup(records, k) is Some, |k: Text| lookup(records, k)->0)
}

/// The record that a line holds: the trimmed text before its first `=` and the trimmed text
/// after it. A line without `=` holds none.
pub open spec fn parse_line(line: Text) -> Option<(Text, Text)> {
    match line.index_of_first('=') {
        Some(i) => Some((trim(line.take(i)), trim(line.skip(i + 1)))),
        None => None,
    }
}

/// `records` after one line has been read.
pub open spec fn read_line(records: Seq<(Text, Text)>, line: Text) -> Seq<(Text, Text)> {
    match parse_line(line) {
        Some(record) => stored(records, record.0, record.1),
        None => records,
    }
}

/// `records` after the lines of `content` have been read in order. Lines end at a newline;
/// the text after the last newline is a line too.
pub open spec fn read_lines(records: Seq<(Text, Text)>, content: Text) -> Seq<(Text, Text)>
    decreases content.len(),
    via read_lines_decreases
{
    match content.index_of_first('\n') {
        Some(i) => read_lines(read_line(records, content.take(i)), content.skip(i + 1)),
        None => read_line(records, content),
    }
}

#[via_fn]
proof fn read_lines_decreases(records: Seq<(Text, Text)>, content: Text) {
    content.index_of_first_ensures('\n');
}

/// The records that a stored text holds.
pub open spec fn parse_records(content: Text) -> Seq<(Text, Text)> {
    read_lines(Seq::empty(), content)
}

/// The line of one record.
pub open spec fn record_line(record: (Text, Text)) -> Text {
    record.0 + seq!['='] + record.1
}

/// The stored text of `records`: their lines, with a newline between one and the next.
pub open spec fn serialize_records(records: Seq<(Text, Text)>) -> Text
    decreases records.len(),
{
    if records.len() == 0 {
        Seq::empty()
    } else if records.len() == 1 {
        record_line(records.first())
    } else {
        record_line(records.first()) + seq!['\n'] + serialize_records(records.drop_first())
    }
}

/// What a load returns: the value stored for `key`, or `default` where the store is missing
/// or holds no such key.
pub open spec fn loaded(content: Option<Text>, key: Text, default: Text) -> Text {
    match content {
        Some(text) => match lookup(parse_records(text), key) {
            Some(value) => value,
            None => default,
        },
        None => default,
    }
}

/// What a save writes: the records of the store as it was, with `value` written for `key`.
/// A missing store counts as empty.
pub open spec fn saved(content: Option<Text>, key: Text, value: Text) -> Text {
    let prior = match content {
        Some(text) => parse_records(text),
        None => Seq::empty(),
    };
    serialize_records(stored(prior, key, value))
}

/// A key that reads back as itself: no `=`, no newline, no whitespace at either end.
pub open spec fn is_clean_key(key: Text) -> bool {
    !key.contains('=') && !key.contains('\n') && is_trimmed(key)
}

/// A value that reads back as itself: no newline, no whitespace at either end.
pub open spec fn is_clean_value(value: Text) -> bool {
    !value.contains('\n') && is_trimmed(value)
}

/// Records that read back as themselves: no key twice, every key and value clean.
pub open spec fn is_canonical(records: Seq<(Text, Text)>) -> bool {
    &&& keys(records).no_duplicates()
    &&& forall|i: int|
        0 <= i < records.len() ==> is_clean_key(#[trigger] records[i].0) && is_clean_value(
            records[i].1,
        )
}

/// One record of the store.
struct Preference {
    key: String,
    value: String,
}

/// The records of a preference store, in the order in which their keys first came.
pub struct PreferenceSet {
    entries: Vec<Preference>,
}

impl View for PreferenceSet {
    type V = Map<Text, Text>;

    /// The set as a mapping from key to value.
    closed spec fn view(&self) -> Map<Text, Text> {
        as_map(self.records())
    }
}

impl PreferenceSet {
    /// The records in order, each as its key and its value.
    pub closed spec fn records(&self) -> Seq<(Text, Text)> {
        self.entries@.map_values(|e: Preference| (e.key@, e.value@))
    }

    /// No key occurs twice.
    #[verifier::type_invariant]
    closed spec fn keys_are_unique(self) -> bool {
        keys(self.records()).no_duplicates()
    }

    /// The view is the mapping that the records make.
    pub proof fn lemma_view_is_map_of_records(&self)
        ensures
            self@ == as_map(self.records()),
    {
    }

    /// A set without records.
    pub fn new() -> (set: Self)
        ensures
            set.records() == Seq::<(Text, Text)>::empty(),
            set@ == Map::<Text, Text>::empty(),
    {
        let set = PreferenceSet { entries: Vec::new() };
        proof {
            assert(set.records() =~= Seq::<(Text, Text)>::empty());
            lemma_index_of_first_absent_everywhere(set.records());
            assert(set@ =~= Map::<Text, Text>::empty());
        }
        set
    }

    /// Number of records.
    pub fn len(&self) -> (n: usize)
        ensures
            n == self.records().len(),
            keys(self.records()).no_duplicates(),
    {
        proof {
            use_type_invariant(self);
        }
        self.entries.len()
    }

    /// The position of the record of `key`, or the number of records where there is none.
    fn position(&self, key: &String) -> (at: usize)
        ensures
            at <= self.records().len() == self.entries@.len(),
            keys(self.records()).index_of_first(key@) == if at < self.records().len() {
                Some(at as int)
            } else {
                None
            },
            at < self.records().len() ==> self.entries@[at as int].key@ == key@,
    {
        let ghost ks = keys(self.records());
        let mut at: usize = 0;
        while at < self.entries.len()
            invariant
                at <= self.entries.len(),
                ks == keys(self.records()),
                ks.len() == self.entries.len(),
                forall|j: int| 0 <= j < at ==> ks[j] != key@,
            decreases self.entries.len() - at,
        {
            if self.entries[at].key == *key {
                proof {
                    lemma_index_of_first_at(ks, key@, at as int);
                }
                return at;
            }
            at += 1;
        }
        proof {
            lemma_index_of_first_absent(ks, key@);
        }
        at
    }

    /// The value stored for `key`, if any.
    pub fn get(&self, key: &str) -> (value: Option<String>)
        ensures
            match value {
                Some(v) => lookup(self.records(), key@) == Some(v@),
                None => lookup(self.records(), key@) is None,
            },
            match value {
                Some(v) => self@.contains_key(key@) && self@[key@] == v@,
                None => !self@.contains_key(key@),
            },
    {
        let owned = key.to_owned();
        let at = self.position(&owned);
        if at < self.entries.len() {
            assert(self.records()[at as int].1 == self.entries@[at as int].value@);
            Some(self.entries[at].value.clone())
        } else {
            None
        }
    }

    /// The value stored for `key`, or `default` where there is none.
    pub fn get_or(&self, key: &str, default: &str) -> (value: String)
        ensures
            value@ == match lookup(self.records(), key@) {
                Some(v) => v,
                None => default@,
            },
            value@ == if self@.contains_key(key@) {
                self@[key@]
            } else {
                default@
            },
    {
        match self.get(key) {
            Some(value) => value,
            None => default.to_owned(),
        }
    }

    /// Writes `value` for `key`. A record of that key keeps its place and takes the value;
    /// without one, a new record goes to the end.
    pub fn set(&mut self, key: &str, value: &str)
        ensures
            final(self).records() == stored(old(self).records(), key@, value@),
            final(self)@ == old(self)@.insert(key@, value@),
    {
        self.insert(key.to_owned(), value.to_owned());
    }

    /// Writes `value` for `key`, taking both by value.
    fn insert(&mut self, key: String, value: String)
        ensures
            final(self).records() == stored(old(self).records(), key@, value@),
            final(self)@ == old(self)@.insert(key@, value@),
    {
        proof {
            use_type_invariant(&*self);
            lemma_stored_keeps_keys_unique(self.records(), key@, value@);
            lemma_as_map_stored(self.records(), key@, value@);
        }
        let ghost before = self.records();
        let at = self.position(&key);
        let ghost record = (key@, value@);
        if at < self.entries.len() {
            let mut entries = Vec::new();
            std::mem::swap(&mut entries, &mut self.entries);
            entries.set(at, Preference { key, value });
            proof {
                assert(entries@.map_values(|e: Preference| (e.key@, e.value@)) =~= before.update(
                    at as int,
                    record,
                ));
            }
            self.entries = entries;
        } else {
            let mut entries = Vec::new();
            std::mem::swap(&mut entries, &mut self.entries);
            entries.push(Preference { key, value });
            proof {
                assert(entries@.map_values(|e: Preference| (e.key@, e.value@)) =~= before.push(
                    record,
                ));
            }
            self.entries = entries;
        }
    }

    /// Reads the line `chars[from..to]` into the set.
    fn read_line(&mut self, chars: &Vec<char>, from: usize, to: usize)
        requires
            from <= to <= chars.len(),
        ensures
            final(self).records() == read_line(
                old(self).records(),
                chars@.subrange(from as int, to as int),
            ),
    {
        let ghost line = chars@.subrange(from as int, to as int);
        let eq = find_char(chars, from, to, '=');
        if eq < to {
            let (key_from, key_to) = trim_bounds(chars, from, eq);
            let (value_from, value_to) = trim_bounds(chars, eq + 1, to);
            let key = string_from_chars(chars, key_from, key_to);
            let value = string_from_chars(chars, value_from, value_to);
            proof {
                assert(line.take(eq - from) =~= chars@.subrange(from as int, eq as int));
                assert(line.skip(eq - from + 1) =~= chars@.subrange(eq as int + 1, to as int));
            }
            self.insert(key, value);
        }
    }

    /// The records that the stored text `content` holds.
    pub fn parse(content: &str) -> (set: Self)
        ensures
            set.records() == parse_records(content@),
            set@ == as_map(parse_records(content@)),
    {
        let chars = to_chars(content);
        let n = chars.len();
        let mut set = PreferenceSet::new();
        let mut start: usize = 0;
        let mut done = false;
        proof {
            assert(chars@.skip(0) =~= chars@);
        }
        while !done
            invariant
                start <= n == chars.len(),
                !done ==> read_lines(set.records(), chars@.skip(start as int)) == parse_records(
                    chars@,
                ),
                done ==> set.records() == parse_records(chars@),
            decreases
                    if done {
                        0
                    } else {
                        n - start + 1
                    },
        {
            let ghost rest = chars@.skip(start as int);
            let end = find_char(&chars, start, n, '\n');
            proof {
                assert(rest.take(end - start) =~= chars@.subrange(start as int, end as int));
                if end < n {
                    assert(rest.skip(end - start + 1) =~= chars@.skip(end as int + 1));
                } else {
                    assert(rest =~= chars@.subrange(start as int, end as int));
                }
            }
            set.read_line(&chars, start, end);
            if end < n {
                start = end + 1;
            } else {
                done = true;
            }
        }
        set
    }

    /// The stored text of the set: one line per record, a newline between one and the next.
    pub fn serialize(&self) -> (content: String)
        ensures
            content@ == serialize_records(self.records()),
    {
        let ghost records = self.records();
        let mut content = String::new();
        let mut i: usize = 0;
        while i < self.entries.len()
            invariant
                i <= self.entries.len(),
                records == self.records(),
                records.len() == self.entries.len(),
                i == 0 ==> content@ == Seq::<char>::empty(),
                i > 0 ==> serialize_records(records) == content@ + (if i < records.len() {
                    seq!['\n'] + serialize_records(records.skip(i as int))
                } else {
                    Seq::<char>::empty()
                }),
            decreases self.entries.len() - i,
        {
            let ghost tail = records.skip(i as int);
            let ghost before = content@;
            if i > 0 {
                content.push('\n');
            }
            content.append(self.entries[i].key.as_str());
            content.push('=');
            content.append(self.entries[i].value.as_str());
            proof {
                assert(tail.first() == records[i as int]);
                assert(tail.drop_first() =~= records.skip(i as int + 1));
                assert(records.skip(0) =~= records);
                let line = record_line(records[i as int]);
                if i == 0 {
                    assert(content@ =~= line);
                } else {
                    assert(content@ =~= before + seq!['\n'] + line);
                }
                if i + 1 < records.len() {
                    assert(serialize_records(tail) == line + seq!['\n'] + serialize_records(
                        records.skip(i as int + 1),
                    ));
                    assert(serialize_records(records) =~= content@ + (seq!['\n']
                        + serialize_records(records.skip(i as int + 1))));
                } else {
                    assert(serialize_records(tail) == line);
                    assert(serialize_records(records) =~= content@ + Seq::<char>::empty());
                }
            }
            i += 1;
        }
        proof {
            if i > 0 {
                assert(content@ + Seq::<char>::empty() =~= content@);
            }
        }
        content
    }
}

/// In records without entries no key has a first index.
proof fn lemma_index_of_first_absent_everywhere(records: Seq<(Text, Text)>)
    requires
        records.len() == 0,
    ensures
        forall|k: Text| lookup(records, k) is None,
{
    assert forall|k: Text| lookup(records, k) is None by {
        lemma_index_of_first_absent(keys(records), k);
    }
}

/// The value that the store holds for `key`, or `default`. `content` is the stored text, or
/// `None` where the store is missing or cannot be read.
pub fn load_pref(content: Option<&str>, key: &str, default: &str) -> (value: String)
    ensures
        value@ == loaded(
            match content {
                Some(text) => Some(text@),
                None => None,
            },
            key@,
            default@,
        ),
{
    match content {
        Some(text) => PreferenceSet::parse(text).get_or(key, default),
        None => default.to_owned(),
    }
}

/// The text to store after `value` has been written for `key`. `content` is the stored text
/// as it was, or `None` where the store is missing or cannot be read.
pub fn save_pref(content: Option<&str>, key: &str, value: &str) -> (updated: String)
    ensures
        updated@ == saved(
            match content {
                Some(text) => Some(text@),
                None => None,
            },
            key@,
            value@,
        ),
{
    let mut set = match content {
        Some(text) => PreferenceSet::parse(text),
        None => PreferenceSet::new(),
    };
    set.set(key, value);
    set.serialize()
}

} // verus!
