//! What a dictionary holds after a change.

use crate::model::{lookup, position, set_entry, Entries, Value};
use vstd::prelude::*;
use vstd::utf8::{encode_utf8, encode_utf8_decode_utf8};

verus! {

/// Two different texts have different bytes.
pub proof fn lemma_bytes_tell_apart(a: Seq<char>, b: Seq<char>)
    ensures
        encode_utf8(a) == encode_utf8(b) ==> a == b,
{
    encode_utf8_decode_utf8(a);
    encode_utf8_decode_utf8(b);
}

pub proof fn lemma_position_bounds(entries: Entries, key: Seq<u8>)
    ensures
        position(entries, key) <= entries.len(),
        position(entries, key) < entries.len() ==> entries[position(entries, key) as int].0 == key,
    decreases entries.len(),
{
    if entries.len() > 0 && entries[0].0 != key {
        lemma_position_bounds(entries.drop_first(), key);
    }
}

/// A new value under a key leaves every position as it is.
proof fn lemma_position_after_update(entries: Entries, i: int, value: Value, key: Seq<u8>)
    requires
        0 <= i < entries.len(),
    ensures
        position(entries.update(i, (entries[i].0, value)), key) == position(entries, key),
    decreases entries.len(),
{
    let updated = entries.update(i, (entries[i].0, value));
    if entries[0].0 != key {
        if i == 0 {
            assert(updated.drop_first() =~= entries.drop_first());
        } else {
            let rest = entries.drop_first();
            assert(updated.drop_first() =~= rest.update(i - 1, (rest[i - 1].0, value)));
            lemma_position_after_update(rest, i - 1, value, key);
        }
    }
}

proof fn lemma_position_after_push(entries: Entries, entry: (Seq<u8>, Value), key: Seq<u8>)
    ensures
        position(entries.push(entry), key) == if position(entries, key) < entries.len() || entry.0
            == key {
            position(entries, key)
        } else {
            entries.len() + 1
        },
    decreases entries.len(),
{
    lemma_position_bounds(entries, key);
    let longer = entries.push(entry);
    if entries.len() == 0 {
        assert(longer.drop_first() =~= entries);
    } else if entries[0].0 != key {
        assert(longer.drop_first() =~= entries.drop_first().push(entry));
        lemma_position_after_push(entries.drop_first(), entry, key);
    }
}

/// A value put under a key is found there, and what stands under every other
/// key stays.
pub proof fn law_lookup_after_set(
    entries: Entries,
    name: Seq<char>,
    value: Value,
    other: Seq<char>,
)
    ensures
        lookup(set_entry(entries, name, value), other) == if other == name {
            Some(value)
        } else {
            lookup(entries, other)
        },
{
    let key = encode_utf8(name);
    let sought = encode_utf8(other);
    lemma_bytes_tell_apart(name, other);
    lemma_position_bounds(entries, key);
    lemma_position_bounds(entries, sought);
    let i = position(entries, key) as int;
    if i < entries.len() {
        lemma_position_after_update(entries, i, value, sought);
    } else {
        lemma_position_after_push(entries, (key, value), sought);
    }
}

/// To put a value under a key that already holds it changes nothing.
pub proof fn law_set_again(entries: Entries, name: Seq<char>, value: Value)
    requires
        lookup(entries, name) == Some(value),
    ensures
        set_entry(entries, name, value) == entries,
{
    lemma_position_bounds(entries, encode_utf8(name));
    let i = position(entries, encode_utf8(name)) as int;
    assert(entries.update(i, (entries[i].0, value)) =~= entries);
}

} // verus!
