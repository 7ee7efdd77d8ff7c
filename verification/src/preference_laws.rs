//! What holds of the preference store: a write is read back, a write leaves the other keys
//! alone, and a store that was written reads back as it was.

use crate::preferences::{
    as_map, is_canonical, is_clean_key, is_clean_value, keys, loaded, lookup, parse_line,
    parse_records, read_line, read_lines, record_line, saved, serialize_records, stored,
};
use crate::text::{
    lemma_index_of_first_absent, lemma_index_of_first_at, lemma_trim_is_subrange,
    lemma_trim_keeps_absence, lemma_trim_of_trimmed, Text,
};
use vstd::prelude::*;

verus! {

/// After a write, the written key holds the written value and every other key holds what it
/// held before.
pub proof fn lemma_lookup_stored(records: Seq<(Text, Text)>, key: Text, value: Text, other: Text)
    ensures
        lookup(stored(records, key, value), other) == if other == key {
            Some(value)
        } else {
            lookup(records, other)
        },
{
    let ks = keys(records);
    let after = stored(records, key, value);
    ks.index_of_first_ensures(key);
    ks.index_of_first_ensures(other);
    match ks.index_of_first(key) {
        Some(i) => {
            assert(keys(after) =~= ks);
        },
        None => {
            assert(keys(after) =~= ks.push(key));
            if other == key {
                lemma_index_of_first_at(keys(after), key, records.len() as int);
            } else {
                match ks.index_of_first(other) {
                    Some(j) => {
                        lemma_index_of_first_at(keys(after), other, j);
                    },
                    None => {
                        lemma_index_of_first_absent(keys(after), other);
                    },
                }
            }
        },
    }
}

/// A write to a mapping: the records after a write, seen as a mapping, are the mapping
/// before with the key set to the value.
pub proof fn lemma_as_map_stored(records: Seq<(Text, Text)>, key: Text, value: Text)
    ensures
        as_map(stored(records, key, value)) == as_map(records).insert(key, value),
{
    let after = as_map(stored(records, key, value));
    let expected = as_map(records).insert(key, value);
    assert forall|k: Text| #[trigger] after.dom().contains(k) == expected.dom().contains(k) by {
        lemma_lookup_stored(records, key, value, k);
    }
    assert forall|k: Text| #[trigger] after.dom().contains(k) implies after[k] == expected[k] by {
        lemma_lookup_stored(records, key, value, k);
    }
    assert(after.dom() =~= expected.dom());
    assert(after =~= expected);
}

/// A write never makes a key occur twice.
pub proof fn lemma_stored_keeps_keys_unique(records: Seq<(Text, Text)>, key: Text, value: Text)
    requires
        keys(records).no_duplicates(),
    ensures
        keys(stored(records, key, value)).no_duplicates(),
{
    let ks = keys(records);
    let after = stored(records, key, value);
    ks.index_of_first_ensures(key);
    match ks.index_of_first(key) {
        Some(i) => {
            assert(keys(after) =~= ks);
        },
        None => {
            assert(keys(after) =~= ks.push(key));
        },
    }
}

/// Writing a clean key and value into canonical records leaves them canonical.
pub proof fn lemma_stored_keeps_canonical(records: Seq<(Text, Text)>, key: Text, value: Text)
    requires
        is_canonical(records),
        is_clean_key(key),
        is_clean_value(value),
    ensures
        is_canonical(stored(records, key, value)),
{
    lemma_stored_keeps_keys_unique(records, key, value);
    keys(records).index_of_first_ensures(key);
}

/// The record read from a line without a newline is clean.
pub proof fn lemma_parse_line_is_clean(line: Text)
    requires
        !line.contains('\n'),
    ensures
        match parse_line(line) {
            Some(record) => is_clean_key(record.0) && is_clean_value(record.1),
            None => true,
        },
{
    line.index_of_first_ensures('=');
    match line.index_of_first('=') {
        Some(i) => {
            let before = line.take(i);
            let after = line.skip(i + 1);
            assert(!before.contains('=')) by {
                if before.contains('=') {
                    let j = choose|j: int| 0 <= j < before.len() && before[j] == '=';
                    assert(line[j] == '=');
                }
            }
            assert(!before.contains('\n')) by {
                if before.contains('\n') {
                    let j = choose|j: int| 0 <= j < before.len() && before[j] == '\n';
                    assert(line[j] == '\n');
                }
            }
            assert(!after.contains('\n')) by {
                if after.contains('\n') {
                    let j = choose|j: int| 0 <= j < after.len() && after[j] == '\n';
                    assert(line[i + 1 + j] == '\n');
                }
            }
            lemma_trim_keeps_absence(before, '=');
            lemma_trim_keeps_absence(before, '\n');
            lemma_trim_keeps_absence(after, '\n');
            lemma_trim_is_subrange(before);
            lemma_trim_is_subrange(after);
        },
        None => {},
    }
}

/// Reading one line into canonical records leaves them canonical.
pub proof fn lemma_read_line_keeps_canonical(records: Seq<(Text, Text)>, line: Text)
    requires
        is_canonical(records),
        !line.contains('\n'),
    ensures
        is_canonical(read_line(records, line)),
{
    lemma_parse_line_is_clean(line);
    match parse_line(line) {
        Some(record) => {
            lemma_stored_keeps_canonical(records, record.0, record.1);
        },
        None => {},
    }
}

/// Reading any text into canonical records leaves them canonical.
pub proof fn lemma_read_lines_keeps_canonical(records: Seq<(Text, Text)>, content: Text)
    requires
        is_canonical(records),
    ensures
        is_canonical(read_lines(records, content)),
    decreases content.len(),
{
    content.index_of_first_ensures('\n');
    match content.index_of_first('\n') {
        Some(i) => {
            let line = content.take(i);
            assert(!line.contains('\n')) by {
                if line.contains('\n') {
                    let j = choose|j: int| 0 <= j < line.len() && line[j] == '\n';
                    assert(content[j] == '\n');
                }
            }
            lemma_read_line_keeps_canonical(records, line);
            lemma_read_lines_keeps_canonical(read_line(records, line), content.skip(i + 1));
        },
        None => {
            lemma_read_line_keeps_canonical(records, content);
        },
    }
}

/// The records of any stored text are canonical: no key twice, every key and value clean.
pub proof fn lemma_parsed_records_are_canonical(content: Text)
    ensures
        is_canonical(parse_records(content)),
{
    lemma_read_lines_keeps_canonical(Seq::empty(), content);
}

/// The line of a clean record holds no newline and reads back as that record.
pub proof fn lemma_parse_record_line(record: (Text, Text))
    requires
        is_clean_key(record.0),
        is_clean_value(record.1),
    ensures
        !record_line(record).contains('\n'),
        parse_line(record_line(record)) == Some(record),
{
    let line = record_line(record);
    let n = record.0.len() as int;
    assert(!line.contains('\n')) by {
        if line.contains('\n') {
            let j = choose|j: int| 0 <= j < line.len() && line[j] == '\n';
            if j < n {
                assert(record.0[j] == '\n');
            } else if j > n {
                assert(record.1[j - n - 1] == '\n');
            }
        }
    }
    assert forall|j: int| 0 <= j < n implies line[j] != '=' by {
        assert(line[j] == record.0[j]);
    }
    lemma_index_of_first_at(line, '=', n);
    assert(line.take(n) =~= record.0);
    assert(line.skip(n + 1) =~= record.1);
    lemma_trim_of_trimmed(record.0);
    lemma_trim_of_trimmed(record.1);
}

/// Reading the stored text of canonical records appends exactly those records.
pub proof fn lemma_read_serialized(acc: Seq<(Text, Text)>, records: Seq<(Text, Text)>)
    requires
        is_canonical(acc + records),
    ensures
        read_lines(acc, serialize_records(records)) == acc + records,
    decreases records.len(),
{
    let content = serialize_records(records);
    let all = acc + records;
    if records.len() == 0 {
        lemma_index_of_first_absent(content, '\n');
        lemma_index_of_first_absent(content, '=');
        assert(all =~= acc);
    } else {
        let first = records.first();
        let line = record_line(first);
        assert(all[acc.len() as int] == first);
        lemma_parse_record_line(first);
        assert(stored(acc, first.0, first.1) == acc.push(first)) by {
            assert forall|j: int| 0 <= j < acc.len() implies keys(acc)[j] != first.0 by {
                assert(keys(all)[j] == keys(acc)[j]);
                assert(keys(all)[acc.len() as int] == first.0);
            }
            lemma_index_of_first_absent(keys(acc), first.0);
        }
        if records.len() == 1 {
            assert forall|j: int| 0 <= j < content.len() implies content[j] != '\n' by {
                if content[j] == '\n' {
                    assert(line.contains('\n'));
                }
            }
            lemma_index_of_first_absent(content, '\n');
            assert(all =~= acc.push(first));
        } else {
            let rest = records.drop_first();
            let n = line.len() as int;
            assert forall|j: int| 0 <= j < n implies content[j] != '\n' by {
                if content[j] == '\n' {
                    assert(line[j] == '\n');
                    assert(line.contains('\n'));
                }
            }
            lemma_index_of_first_at(content, '\n', n);
            assert(content.take(n) =~= line);
            assert(content.skip(n + 1) =~= serialize_records(rest));
            assert(acc.push(first) + rest =~= all);
            lemma_read_serialized(acc.push(first), rest);
        }
    }
}

/// Canonical records survive being written and read: the stored text of the records holds
/// the same records in the same order.
pub proof fn lemma_parse_serialized(records: Seq<(Text, Text)>)
    requires
        is_canonical(records),
    ensures
        parse_records(serialize_records(records)) == records,
{
    assert(Seq::<(Text, Text)>::empty() + records =~= records);
    lemma_read_serialized(Seq::empty(), records);
}

/// The records that a save writes, whatever the store held before.
pub open spec fn saved_records(content: Option<Text>, key: Text, value: Text) -> Seq<(Text, Text)> {
    let prior = match content {
        Some(text) => parse_records(text),
        None => Seq::empty(),
    };
    stored(prior, key, value)
}

/// After a save with a clean key and value, the store reads back as the records that were
/// written.
pub proof fn lemma_saved_reads_back(content: Option<Text>, key: Text, value: Text)
    requires
        is_clean_key(key),
        is_clean_value(value),
    ensures
        parse_records(saved(content, key, value)) == saved_records(content, key, value),
{
    let prior = match content {
        Some(text) => parse_records(text),
        None => Seq::empty(),
    };
    match content {
        Some(text) => {
            lemma_parsed_records_are_canonical(text);
        },
        None => {},
    }
    lemma_stored_keeps_canonical(prior, key, value);
    lemma_parse_serialized(stored(prior, key, value));
}

/// A save followed by a load of the same key returns the saved value, whatever the store
/// held before and whatever the default. The key holds no `=` and no newline, the value no
/// newline, and neither begins or ends with whitespace.
pub proof fn lemma_save_then_load(content: Option<Text>, key: Text, value: Text, default: Text)
    requires
        is_clean_key(key),
        is_clean_value(value),
    ensures
        loaded(Some(saved(content, key, value)), key, default) == value,
{
    lemma_saved_reads_back(content, key, value);
    let prior = match content {
        Some(text) => parse_records(text),
        None => Seq::empty(),
    };
    lemma_lookup_stored(prior, key, value, key);
}

/// A save leaves every other key as it was: a load of another key returns after the save what
/// it returned before.
pub proof fn lemma_save_keeps_other_keys(
    content: Option<Text>,
    key: Text,
    value: Text,
    other: Text,
    default: Text,
)
    requires
        is_clean_key(key),
        is_clean_value(value),
        other != key,
    ensures
        loaded(Some(saved(content, key, value)), other, default) == loaded(content, other, default),
{
    lemma_saved_reads_back(content, key, value);
    let prior = match content {
        Some(text) => parse_records(text),
        None => Seq::empty(),
    };
    lemma_lookup_stored(prior, key, value, other);
    if content is None {
        lemma_index_of_first_absent(keys(prior), other);
    }
}

/// A load from a missing store returns the default, whatever the key.
pub proof fn lemma_load_from_missing_store(key: Text, default: Text)
    ensures
        loaded(None, key, default) == default,
{
}

/// A load from a store returns the value of the last line that holds the key. Stated for
/// two lines: the later one wins.
pub proof fn lemma_later_line_wins(records: Seq<(Text, Text)>, key: Text, first: Text, second: Text)
    ensures
        lookup(stored(stored(records, key, first), key, second), key) == Some(second),
{
    lemma_lookup_stored(stored(records, key, first), key, second, key);
}

} // verus!
