//! JSON as a plain value.
use vstd::prelude::*;

use crate::text;

verus! {

/// A JSON value.
#[derive(Debug, PartialEq)]
pub enum Json {
    Null,
    Bool(bool),
    /// An integer that is not negative.
    PosInt(u64),
    /// A negative integer.
    NegInt(i64),
    /// Any other number, as it is written.
    Number(String),
    Text(String),
    Array(Vec<Json>),
    /// The fields of an object, each key once.
    Object(Vec<(String, Json)>),
}

impl DeepView for Json {
    type V = Json;

    open spec fn deep_view(&self) -> Json {
        *self
    }
}

/// The value of the first entry with this key.
pub open spec fn entry<'a>(entries: Seq<(String, Json)>, key: Seq<char>) -> Option<&'a Json>
    decreases entries.len(),
{
    if entries.len() == 0 {
        None
    } else if entries[0].0@ == key {
        Some(&entries[0].1)
    } else {
        entry(entries.drop_first(), key)
    }
}

/// The value of a field, where `j` is an object that has it.
pub open spec fn field<'a>(j: Option<&'a Json>, key: Seq<char>) -> Option<&'a Json> {
    match j {
        Some(Json::Object(entries)) => entry(entries@, key),
        _ => None,
    }
}

/// The text that `j` is.
pub open spec fn text_of(j: Option<&Json>) -> Option<Seq<char>> {
    match j {
        Some(Json::Text(s)) => Some(s@),
        _ => None,
    }
}

/// The text that `j` is, where it is not empty.
pub open spec fn nonempty_text_of(j: Option<&Json>) -> Option<Seq<char>> {
    match text_of(j) {
        Some(s) => if s.len() > 0 {
            Some(s)
        } else {
            None
        },
        None => None,
    }
}

/// The integer that `j` is, where it is not negative.
pub open spec fn u64_of(j: Option<&Json>) -> Option<u64> {
    match j {
        Some(Json::PosInt(n)) => Some(*n),
        _ => None,
    }
}

/// The elements of the array that `j` is.
pub open spec fn array_of(j: Option<&Json>) -> Option<Seq<Json>> {
    match j {
        Some(Json::Array(v)) => Some(v@),
        _ => None,
    }
}

/// The elements of the array that `j` is, none where it is no array.
pub open spec fn elements_of(j: Option<&Json>) -> Seq<Json> {
    match array_of(j) {
        Some(v) => v,
        None => Seq::empty(),
    }
}

/// Whether `j` is an object.
pub open spec fn is_object(j: Option<&Json>) -> bool {
    j is Some && j->0 is Object
}

/// The value of a field, where `j` is an object that has it.
pub fn get<'a>(j: Option<&'a Json>, key: &str) -> (r: Option<&'a Json>)
    ensures
        r == field(j, key@),
{
    match j {
        Some(Json::Object(entries)) => {
            let mut i: usize = 0;
            assert(entries@.skip(0) == entries@);
            while i < entries.len()
                invariant
                    i <= entries.len(),
                    field(j, key@) == entry(entries@, key@),
                    entry(entries@, key@) == entry(entries@.skip(i as int), key@),
                decreases entries.len() - i,
            {
                assert(entries@.skip(i as int)[0] == entries@[i as int]);
                if text::same(entries[i].0.as_str(), key) {
                    return Some(&entries[i].1);
                }
                assert(entries@.skip(i as int).drop_first() == entries@.skip(i + 1));
                i = i + 1;
            }
            None
        },
        _ => None,
    }
}

/// The text that `j` is.
pub fn as_str<'a>(j: Option<&'a Json>) -> (r: Option<&'a str>)
    ensures
        r.deep_view() == text_of(j),
{
    match j {
        Some(Json::Text(s)) => Some(s.as_str()),
        _ => None,
    }
}

/// A copy of the text that `j` is.
pub fn to_text(j: Option<&Json>) -> (r: Option<String>)
    ensures
        r.deep_view() == text_of(j),
{
    match j {
        Some(Json::Text(s)) => Some(s.clone()),
        _ => None,
    }
}

/// A copy of the text that `j` is, where it is not empty.
pub fn to_nonempty_text(j: Option<&Json>) -> (r: Option<String>)
    ensures
        r.deep_view() == nonempty_text_of(j),
{
    match j {
        Some(Json::Text(s)) => if s.as_str().is_empty() {
            None
        } else {
            Some(s.clone())
        },
        _ => None,
    }
}

/// The integer that `j` is, where it is not negative.
pub fn as_u64(j: Option<&Json>) -> (r: Option<u64>)
    ensures
        r == u64_of(j),
{
    match j {
        Some(Json::PosInt(n)) => Some(*n),
        _ => None,
    }
}

/// The elements of the array that `j` is.
pub fn as_array<'a>(j: Option<&'a Json>) -> (r: Option<&'a Vec<Json>>)
    ensures
        match r {
            Some(v) => array_of(j) == Some(v@),
            None => array_of(j) is None,
        },
{
    match j {
        Some(Json::Array(v)) => Some(v),
        _ => None,
    }
}

/// Whether `j` is an object.
pub fn check_object(j: Option<&Json>) -> (r: bool)
    ensures
        r == is_object(j),
{
    match j {
        Some(Json::Object(_)) => true,
        _ => false,
    }
}

/// The value of a field, taken out of the object.
pub fn take(j: Json, key: &str) -> (r: Option<Json>)
    ensures
        match r {
            Some(v) => field(Some(&j), key@) == Some(&v),
            None => field(Some(&j), key@) is None,
        },
{
    match j {
        Json::Object(entries) => {
            let mut entries = entries;
            let ghost all = entries@;
            let mut i: usize = 0;
            assert(all.skip(0) == all);
            while i < entries.len()
                invariant
                    i <= entries.len(),
                    all == entries@,
                    field(Some(&j), key@) == entry(all, key@),
                    entry(all, key@) == entry(all.skip(i as int), key@),
                decreases entries.len() - i,
            {
                assert(all.skip(i as int)[0] == all[i as int]);
                if text::same(entries[i].0.as_str(), key) {
                    let e = entries.remove(i);
                    return Some(e.1);
                }
                assert(all.skip(i as int).drop_first() == all.skip(i + 1));
                i = i + 1;
            }
            None
        },
        _ => None,
    }
}

/// The elements of an array, taken out of it.
pub fn take_array(j: Json) -> (r: Option<Vec<Json>>)
    ensures
        match r {
            Some(v) => array_of(Some(&j)) == Some(v@),
            None => array_of(Some(&j)) is None,
        },
{
    match j {
        Json::Array(v) => Some(v),
        _ => None,
    }
}

/// The lower 32 bits of a number.
pub open spec fn low32(n: u64) -> u32 {
    (n % 0x1_0000_0000) as u32
}

/// The lower 8 bits of a number.
pub open spec fn low8(n: u64) -> u8 {
    (n % 256) as u8
}

/// The lower 8 bits of the integer that `j` is.
pub open spec fn low8_of(j: Option<&Json>) -> Option<u8> {
    match u64_of(j) {
        Some(n) => Some(low8(n)),
        None => None,
    }
}

/// The lower 32 bits of a number.
pub fn to_low32(n: u64) -> (r: u32)
    ensures
        r == low32(n),
{
    (n % 0x1_0000_0000) as u32
}

/// The lower 8 bits of a number.
pub fn to_low8(n: u64) -> (r: u8)
    ensures
        r == low8(n),
{
    (n % 256) as u8
}

/// The lower 8 bits of the integer that `j` is.
pub fn as_low8(j: Option<&Json>) -> (r: Option<u8>)
    ensures
        r == low8_of(j),
{
    match as_u64(j) {
        Some(n) => Some(to_low8(n)),
        None => None,
    }
}

// ---------------------------------------------------------------------------------------------
// Laws
// ---------------------------------------------------------------------------------------------


/// The field of a name is the first one of that name in an object; what is no object has none.
pub proof fn law_field(j: Json, key: Seq<char>)
    ensures
        match field(Some(&j), key) {
            Some(v) => j is Object && exists|i: int|
                0 <= i < j->Object_0@.len() && (#[trigger] j->Object_0@[i]).0@ == key && *v
                    == j->Object_0@[i].1 && forall|k: int|
                    0 <= k < i ==> (#[trigger] j->Object_0@[k]).0@ != key,
            None => j is Object ==> forall|k: int|
                0 <= k < j->Object_0@.len() ==> (#[trigger] j->Object_0@[k]).0@ != key,
        },
        field(None, key) is None,
{
    if let Json::Object(entries) = j {
        lemma_entry(entries@, key);
    }
}

proof fn lemma_entry(entries: Seq<(String, Json)>, key: Seq<char>)
    ensures
        match entry(entries, key) {
            Some(v) => exists|i: int|
                0 <= i < entries.len() && (#[trigger] entries[i]).0@ == key && *v == entries[i].1
                    && forall|k: int| 0 <= k < i ==> (#[trigger] entries[k]).0@ != key,
            None => forall|k: int| 0 <= k < entries.len() ==> (#[trigger] entries[k]).0@ != key,
        },
    decreases entries.len(),
{
    if entries.len() > 0 && entries[0].0@ != key {
        let rest = entries.drop_first();
        lemma_entry(rest, key);
        match entry(rest, key) {
            Some(v) => {
                let i = choose|i: int|
                    0 <= i < rest.len() && (#[trigger] rest[i]).0@ == key && *v == rest[i].1
                        && forall|k: int| 0 <= k < i ==> (#[trigger] rest[k]).0@ != key;
                assert(entries[i + 1] == rest[i]);
                assert forall|k: int| 0 <= k < i + 1 implies (#[trigger] entries[k]).0@ != key by {
                    if k > 0 {
                        assert(rest[k - 1] == entries[k]);
                    }
                }
            },
            None => {
                assert forall|k: int| 0 <= k < entries.len() implies (#[trigger] entries[k]).0@
                    != key by {
                    if k > 0 {
                        assert(rest[k - 1] == entries[k]);
                    }
                }
            },
        }
    } else if entries.len() > 0 {
        assert(entries[0].0@ == key);
    }
}

/// A value is read as what it is, and as nothing else.
pub proof fn law_readings(j: Json)
    ensures
        text_of(Some(&j)) == match j {
            Json::Text(s) => Some(s@),
            _ => None,
        },
        nonempty_text_of(Some(&j)) == if j is Text && j->Text_0@.len() > 0 {
            Some(j->Text_0@)
        } else {
            None
        },
        u64_of(Some(&j)) == match j {
            Json::PosInt(n) => Some(n),
            _ => None,
        },
        array_of(Some(&j)) == match j {
            Json::Array(v) => Some(v@),
            _ => None,
        },
        elements_of(Some(&j)) == match j {
            Json::Array(v) => v@,
            _ => Seq::empty(),
        },
        is_object(Some(&j)) == (j is Object),
        text_of(None) is None,
        u64_of(None) is None,
        array_of(None) is None,
        elements_of(None).len() == 0,
        !is_object(None),
{
}

/// A number that fits stays as it is when it is cut to fewer bits.
pub proof fn law_low_bits(n: u64)
    ensures
        n < 0x1_0000_0000 ==> low32(n) == n,
        n < 256 ==> low8(n) == n,
        low8_of(Some(&Json::PosInt(n))) == Some(low8(n)),
{
}

} // verus!
