//! The values of the user interface's method channels: their conversion to and from
//! [`Structure`], how they are written as map keys, and how a method call is answered.

use vstd::prelude::*;

use crate::protocol::{Structure, StructureNumber};
use crate::text::{append_decimal_i64, decimal, decimal_string};

verus! {

/// A value as the user interface's method channels carry it. A float is held as the
/// bits of its `f64`.
#[derive(Debug, PartialEq)]
pub enum ChannelValue {
    Null,
    Bool(bool),
    I64(i64),
    F64(u64),
    String(String),
    U8List(Vec<u8>),
    I32List(Vec<i32>),
    I64List(Vec<i64>),
    F64List(Vec<u64>),
    List(Vec<ChannelValue>),
    Mapping(Vec<(ChannelValue, ChannelValue)>),
}

/// The channel value of a structure number: every integer as a 64-bit signed one (a
/// non-negative one above `i64::MAX` wraps around), a float as a float.
pub open spec fn number_value(number: StructureNumber) -> ChannelValue {
    match number {
        StructureNumber::PosInt(u) => ChannelValue::I64(u as i64),
        StructureNumber::NegInt(i) => ChannelValue::I64(i),
        StructureNumber::Float(bits) => ChannelValue::F64(bits),
    }
}

/// `value` is the channel value of `structure`: null, booleans and strings as they
/// are, numbers by [`number_value`], arrays as lists of the values of their elements,
/// and objects as maps from their keys, as strings, to the values of their entries.
pub open spec fn represents(structure: Structure, value: ChannelValue) -> bool
    decreases structure,
{
    match structure {
        Structure::Null => value is Null,
        Structure::Bool(b) => value == ChannelValue::Bool(b),
        Structure::Number(n) => value == number_value(n),
        Structure::String(text) => value matches ChannelValue::String(t) && t@ == text@,
        Structure::Array(elements) => value matches ChannelValue::List(items) && all_represent(
            elements@,
            items@,
        ),
        Structure::Object(entries) => value matches ChannelValue::Mapping(pairs) && entries_represent(
            entries@,
            pairs@,
        ),
    }
}

/// Each value is the channel value of the structure at the same place.
pub open spec fn all_represent(structures: Seq<Structure>, values: Seq<ChannelValue>) -> bool
    decreases structures,
{
    &&& structures.len() == values.len()
    &&& structures.len() > 0 ==> {
        &&& represents(structures.last(), values.last())
        &&& all_represent(structures.drop_last(), values.drop_last())
    }
}

/// Each pair holds the key of the entry at the same place, as a string, and the channel
/// value of its structure.
pub open spec fn entries_represent(
    entries: Seq<(String, Structure)>,
    pairs: Seq<(ChannelValue, ChannelValue)>,
) -> bool
    decreases entries,
{
    &&& entries.len() == pairs.len()
    &&& entries.len() > 0 ==> {
        &&& pairs.last().0 matches ChannelValue::String(key) && key@ == entries.last().0@
        &&& represents(entries.last().1, pairs.last().1)
        &&& entries_represent(entries.drop_last(), pairs.drop_last())
    }
}

/// The channel value of a structure number.
pub fn structure_number_to_value(number: StructureNumber) -> (value: ChannelValue)
    ensures
        value == number_value(number),
{
    match number {
        StructureNumber::PosInt(u) => ChannelValue::I64(u as i64),
        StructureNumber::NegInt(i) => ChannelValue::I64(i),
        StructureNumber::Float(bits) => ChannelValue::F64(bits),
    }
}

/// The channel value of a structure.
pub fn structure_to_value(structure: Structure) -> (value: ChannelValue)
    ensures
        represents(structure, value),
    decreases structure,
{
    match structure {
        Structure::Null => ChannelValue::Null,
        Structure::Bool(b) => ChannelValue::Bool(b),
        Structure::Number(n) => structure_number_to_value(n),
        Structure::String(text) => ChannelValue::String(text),
        Structure::Array(elements) => {
            let ghost whole = elements;
            let ghost all = elements@;
            let mut rest = elements;
            let mut items: Vec<ChannelValue> = Vec::new();
            let mut taken: usize = 0;
            let total = rest.len();
            proof {
                assert(all.take(0) =~= Seq::<Structure>::empty());
            }
            while taken < total
                invariant
                    structure == Structure::Array(whole),
                    all == whole@,
                    total == all.len(),
                    taken <= total,
                    rest@ == all.skip(taken as int),
                    all_represent(all.take(taken as int), items@),
                decreases total - taken,
            {
                let element = rest.remove(0);
                proof {
                    assert(element == all[taken as int]);
                    assert(decreases_to!(structure => structure->Array_0));
                    assert(decreases_to!(whole => whole@));
                    assert(decreases_to!(whole@ => whole@[taken as int]));
                    assert(decreases_to!(structure => element));
                }
                let item = structure_to_value(element);
                let ghost before = items@;
                items.push(item);
                proof {
                    let done = all.take(taken + 1);
                    assert(done.drop_last() =~= all.take(taken as int));
                    assert(items@.drop_last() =~= before);
                }
                taken = taken + 1;
                proof {
                    assert(rest@ =~= all.skip(taken as int));
                }
            }
            assert(all.take(total as int) =~= all);
            ChannelValue::List(items)
        },
        Structure::Object(entries) => {
            let ghost whole = entries;
            let ghost all = entries@;
            let mut rest = entries;
            let mut pairs: Vec<(ChannelValue, ChannelValue)> = Vec::new();
            let mut taken: usize = 0;
            let total = rest.len();
            proof {
                assert(all.take(0) =~= Seq::<(String, Structure)>::empty());
            }
            while taken < total
                invariant
                    structure == Structure::Object(whole),
                    all == whole@,
                    total == all.len(),
                    taken <= total,
                    rest@ == all.skip(taken as int),
                    entries_represent(all.take(taken as int), pairs@),
                decreases total - taken,
            {
                let (key, entry) = rest.remove(0);
                proof {
                    assert((key, entry) == all[taken as int]);
                    assert(decreases_to!(structure => structure->Object_0));
                    assert(decreases_to!(whole => whole@));
                    assert(decreases_to!(whole@ => whole@[taken as int]));
                    assert(decreases_to!(whole@[taken as int] => whole@[taken as int].1));
                    assert(decreases_to!(structure => entry));
                }
                let item = structure_to_value(entry);
                let ghost before = pairs@;
                pairs.push((ChannelValue::String(key), item));
                proof {
                    let done = all.take(taken + 1);
                    assert(done.drop_last() =~= all.take(taken as int));
                    assert(pairs@.drop_last() =~= before);
                }
                taken = taken + 1;
                proof {
                    assert(rest@ =~= all.skip(taken as int));
                }
            }
            assert(all.take(total as int) =~= all);
            ChannelValue::Mapping(pairs)
        },
    }
}

/// `parts` written one after another with `separator` between each two of them.
pub open spec fn joined(parts: Seq<Seq<char>>, separator: Seq<char>) -> Seq<char>
    decreases parts.len(),
{
    if parts.len() == 0 {
        Seq::empty()
    } else if parts.len() == 1 {
        parts[0]
    } else {
        joined(parts.drop_last(), separator) + separator + parts.last()
    }
}

/// How a list of integers is written as a key: each in decimal, separated by `", "`.
pub open spec fn decimals_joined(values: Seq<i64>) -> Seq<char> {
    joined(values.map_values(|v: i64| decimal(v as int)), ", "@)
}

/// Each byte of a byte list as a non-negative number.
pub fn vec_num_convert_unsigned(input: Vec<u8>) -> (converted: Vec<Structure>)
    ensures
        converted@.len() == input@.len(),
        forall|i: int|
            0 <= i < input@.len() ==> #[trigger] converted@[i] == Structure::Number(
                StructureNumber::PosInt(input@[i] as u64),
            ),
{
    let mut converted: Vec<Structure> = Vec::new();
    let mut index: usize = 0;
    while index < input.len()
        invariant
            index <= input@.len(),
            converted@.len() == index,
            forall|i: int|
                0 <= i < index ==> #[trigger] converted@[i] == Structure::Number(
                    StructureNumber::PosInt(input@[i] as u64),
                ),
        decreases input@.len() - index,
    {
        converted.push(Structure::Number(StructureNumber::PosInt(input[index] as u64)));
        index = index + 1;
    }
    converted
}

/// Each integer of an integer list as a signed number.
pub fn vec_num_convert_signed(input: Vec<i64>) -> (converted: Vec<Structure>)
    ensures
        converted@.len() == input@.len(),
        forall|i: int|
            0 <= i < input@.len() ==> #[trigger] converted@[i] == Structure::Number(
                StructureNumber::NegInt(input@[i]),
            ),
{
    let mut converted: Vec<Structure> = Vec::new();
    let mut index: usize = 0;
    while index < input.len()
        invariant
            index <= input@.len(),
            converted@.len() == index,
            forall|i: int|
                0 <= i < index ==> #[trigger] converted@[i] == Structure::Number(
                    StructureNumber::NegInt(input@[i]),
                ),
        decreases input@.len() - index,
    {
        converted.push(Structure::Number(StructureNumber::NegInt(input[index])));
        index = index + 1;
    }
    converted
}

/// Each number of a floating point list, given by the bits of its `f64`, as a floating
/// point number.
pub fn vec_num_convert_float(input: Vec<u64>) -> (converted: Vec<Structure>)
    ensures
        converted@.len() == input@.len(),
        forall|i: int|
            0 <= i < input@.len() ==> #[trigger] converted@[i] == Structure::Number(
                StructureNumber::Float(input@[i]),
            ),
{
    let mut converted: Vec<Structure> = Vec::new();
    let mut index: usize = 0;
    while index < input.len()
        invariant
            index <= input@.len(),
            converted@.len() == index,
            forall|i: int|
                0 <= i < index ==> #[trigger] converted@[i] == Structure::Number(
                    StructureNumber::Float(input@[i]),
                ),
        decreases input@.len() - index,
    {
        converted.push(Structure::Number(StructureNumber::Float(input[index])));
        index = index + 1;
    }
    converted
}

/// Writes a list of integers as a key: each in decimal, separated by `", "`.
pub fn vec_convert_string(input: Vec<i64>) -> (text: String)
    ensures
        text@ == decimals_joined(input@),
{
    let mut text = String::new();
    let mut index: usize = 0;
    while index < input.len()
        invariant
            index <= input@.len(),
            text@ == decimals_joined(input@.take(index as int)),
        decreases input@.len() - index,
    {
        let ghost before = input@.take(index as int);
        let ghost after = input@.take(index + 1);
        proof {
            let parts = after.map_values(|v: i64| decimal(v as int));
            assert(parts.drop_last() =~= before.map_values(|v: i64| decimal(v as int)));
            assert(parts.last() == decimal(input@[index as int] as int));
        }
        if index > 0 {
            text.append(", ");
        }
        append_decimal_i64(&mut text, input[index]);
        index = index + 1;
    }
    assert(input@.take(input@.len() as int) =~= input@);
    text
}


/// The text `float_text` gives for the float with the given bits.
pub open spec fn float_text<F: Fn(u64) -> String>(float_text: F, bits: u64) -> Seq<char> {
    (choose|text: String| float_text.ensures((bits,), text))@
}

/// `float_text` can be called on every float and gives one text for each.
pub open spec fn writes_floats<F: Fn(u64) -> String>(float_text: F) -> bool {
    &&& forall|bits: u64| #[trigger] float_text.requires((bits,))
    &&& forall|bits: u64, a: String, b: String|
        #[trigger] float_text.ensures((bits,), a) && #[trigger] float_text.ensures((bits,), b)
            ==> a@ == b@
}

/// How a channel value is written as a map key: `null`, `true` and `false`, numbers in
/// decimal, floats by `float_text`, strings as they are, lists of numbers and lists of
/// values with their elements separated by `", "`, and maps as `key => value` pairs
/// separated by `", "`.
pub open spec fn key_text<F: Fn(u64) -> String>(value: ChannelValue, floats: F) -> Seq<char>
    decreases value,
{
    match value {
        ChannelValue::Null => "null"@,
        ChannelValue::Bool(b) => if b {
            "true"@
        } else {
            "false"@
        },
        ChannelValue::I64(i) => decimal(i as int),
        ChannelValue::F64(bits) => float_text(floats, bits),
        ChannelValue::String(text) => text@,
        ChannelValue::U8List(list) => decimals_joined(list@.map_values(|v: u8| v as i64)),
        ChannelValue::I32List(list) => decimals_joined(list@.map_values(|v: i32| v as i64)),
        ChannelValue::I64List(list) => decimals_joined(list@),
        ChannelValue::F64List(list) => joined(
            list@.map_values(|bits: u64| float_text(floats, bits)),
            ", "@,
        ),
        ChannelValue::List(items) => joined(item_texts(items@, floats), ", "@),
        ChannelValue::Mapping(pairs) => joined(pair_texts(pairs@, floats), ", "@),
    }
}

/// The key texts of the items, in order.
pub open spec fn item_texts<F: Fn(u64) -> String>(items: Seq<ChannelValue>, floats: F) -> Seq<
    Seq<char>,
>
    decreases items,
{
    if items.len() == 0 {
        Seq::empty()
    } else {
        item_texts(items.drop_last(), floats).push(key_text(items.last(), floats))
    }
}

/// The texts `key => value` of the pairs, in order.
pub open spec fn pair_texts<F: Fn(u64) -> String>(
    pairs: Seq<(ChannelValue, ChannelValue)>,
    floats: F,
) -> Seq<Seq<char>>
    decreases pairs,
{
    if pairs.len() == 0 {
        Seq::empty()
    } else {
        pair_texts(pairs.drop_last(), floats).push(
            key_text(pairs.last().0, floats) + " => "@ + key_text(pairs.last().1, floats),
        )
    }
}

/// Adding a part to a joined text adds the separator and the part.
pub proof fn lemma_joined_push(parts: Seq<Seq<char>>, part: Seq<char>, separator: Seq<char>)
    ensures
        joined(parts.push(part), separator) == if parts.len() == 0 {
            part
        } else {
            joined(parts, separator) + separator + part
        },
{
    assert(parts.push(part).drop_last() =~= parts);
}

/// Appends `part` to a text that joins `parts` (of which there are none exactly when
/// `first`), so that it joins them and `part`.
fn append_joined(text: &mut String, part: &str, first: bool, Ghost(parts): Ghost<Seq<Seq<char>>>)
    requires
        old(text)@ == joined(parts, ", "@),
        first == (parts.len() == 0),
    ensures
        final(text)@ == joined(parts.push(part@), ", "@),
{
    proof {
        lemma_joined_push(parts, part@, ", "@);
    }
    if !first {
        text.append(", ");
    }
    text.append(part);
    proof {
        if first {
            assert(text@ =~= part@);
        }
    }
}

/// Every byte as a 64-bit integer.
fn widen_bytes(list: &Vec<u8>) -> (wide: Vec<i64>)
    ensures
        wide@ == list@.map_values(|v: u8| v as i64),
{
    let mut wide: Vec<i64> = Vec::new();
    let mut index: usize = 0;
    while index < list.len()
        invariant
            index <= list@.len(),
            wide@ == list@.take(index as int).map_values(|v: u8| v as i64),
        decreases list@.len() - index,
    {
        wide.push(list[index] as i64);
        index = index + 1;
        assert(wide@ =~= list@.take(index as int).map_values(|v: u8| v as i64));
    }
    assert(list@.take(list@.len() as int) =~= list@);
    wide
}

/// Every 32-bit integer as a 64-bit one.
fn widen_ints(list: &Vec<i32>) -> (wide: Vec<i64>)
    ensures
        wide@ == list@.map_values(|v: i32| v as i64),
{
    let mut wide: Vec<i64> = Vec::new();
    let mut index: usize = 0;
    while index < list.len()
        invariant
            index <= list@.len(),
            wide@ == list@.take(index as int).map_values(|v: i32| v as i64),
        decreases list@.len() - index,
    {
        wide.push(list[index] as i64);
        index = index + 1;
        assert(wide@ =~= list@.take(index as int).map_values(|v: i32| v as i64));
    }
    assert(list@.take(list@.len() as int) =~= list@);
    wide
}

/// Writes the float with the given bits through `floats`.
fn write_float<F: Fn(u64) -> String>(bits: u64, floats: &F) -> (text: String)
    requires
        writes_floats(*floats),
    ensures
        text@ == float_text(*floats, bits),
{
    let text = floats(bits);
    proof {
        let chosen = choose|t: String| floats.ensures((bits,), t);
        assert(floats.ensures((bits,), chosen));
        assert(chosen@ == text@);
    }
    text
}

/// Writes a channel value as a map key, with floats written by `floats`.
pub fn value_to_key<F: Fn(u64) -> String>(value: ChannelValue, floats: &F) -> (key: String)
    requires
        writes_floats(*floats),
    ensures
        key@ == key_text(value, *floats),
    decreases value,
{
    match value {
        ChannelValue::Null => "null".to_owned(),
        ChannelValue::Bool(b) => if b {
            "true".to_owned()
        } else {
            "false".to_owned()
        },
        ChannelValue::I64(i) => decimal_string(i),
        ChannelValue::F64(bits) => write_float(bits, floats),
        ChannelValue::String(text) => text,
        ChannelValue::U8List(list) => vec_convert_string(widen_bytes(&list)),
        ChannelValue::I32List(list) => vec_convert_string(widen_ints(&list)),
        ChannelValue::I64List(list) => vec_convert_string(list),
        ChannelValue::F64List(list) => {
            let ghost texts = list@.map_values(|bits: u64| float_text(*floats, bits));
            let mut text = String::new();
            let mut index: usize = 0;
            proof {
                assert(texts.take(0) =~= Seq::<Seq<char>>::empty());
            }
            while index < list.len()
                invariant
                    writes_floats(*floats),
                    index <= list@.len(),
                    texts == list@.map_values(|bits: u64| float_text(*floats, bits)),
                    text@ == joined(texts.take(index as int), ", "@),
                decreases list@.len() - index,
            {
                let part = write_float(list[index], floats);
                proof {
                    assert(texts.take(index + 1) =~= texts.take(index as int).push(part@));
                }
                append_joined(&mut text, part.as_str(), index == 0, Ghost(texts.take(index as int)));
                index = index + 1;
            }
            assert(texts.take(list@.len() as int) =~= texts);
            text
        },
        ChannelValue::List(items) => {
            let ghost whole = items;
            let ghost all = items@;
            let mut rest = items;
            let mut text = String::new();
            let mut taken: usize = 0;
            let total = rest.len();
            proof {
                assert(all.take(0) =~= Seq::<ChannelValue>::empty());
            }
            while taken < total
                invariant
                    writes_floats(*floats),
                    value == ChannelValue::List(whole),
                    all == whole@,
                    total == all.len(),
                    taken <= total,
                    rest@ == all.skip(taken as int),
                    text@ == joined(item_texts(all.take(taken as int), *floats), ", "@),
                decreases total - taken,
            {
                let item = rest.remove(0);
                proof {
                    assert(item == all[taken as int]);
                    assert(decreases_to!(value => value->List_0));
                    assert(decreases_to!(whole => whole@));
                    assert(decreases_to!(whole@ => whole@[taken as int]));
                    assert(decreases_to!(value => item));
                }
                let part = value_to_key(item, floats);
                proof {
                    let done = all.take(taken + 1);
                    assert(done.drop_last() =~= all.take(taken as int));
                    assert(item_texts(done, *floats) == item_texts(all.take(taken as int), *floats).push(
                        part@,
                    ));
                }
                append_joined(
                    &mut text,
                    part.as_str(),
                    taken == 0,
                    Ghost(item_texts(all.take(taken as int), *floats)),
                );
                taken = taken + 1;
                proof {
                    assert(rest@ =~= all.skip(taken as int));
                }
            }
            assert(all.take(total as int) =~= all);
            text
        },
        ChannelValue::Mapping(pairs) => {
            let ghost whole = pairs;
            let ghost all = pairs@;
            let mut rest = pairs;
            let mut text = String::new();
            let mut taken: usize = 0;
            let total = rest.len();
            proof {
                assert(all.take(0) =~= Seq::<(ChannelValue, ChannelValue)>::empty());
            }
            while taken < total
                invariant
                    writes_floats(*floats),
                    value == ChannelValue::Mapping(whole),
                    all == whole@,
                    total == all.len(),
                    taken <= total,
                    rest@ == all.skip(taken as int),
                    text@ == joined(pair_texts(all.take(taken as int), *floats), ", "@),
                decreases total - taken,
            {
                let (key, entry) = rest.remove(0);
                proof {
                    assert((key, entry) == all[taken as int]);
                    assert(decreases_to!(value => value->Mapping_0));
                    assert(decreases_to!(whole => whole@));
                    assert(decreases_to!(whole@ => whole@[taken as int]));
                    assert(decreases_to!(whole@[taken as int] => whole@[taken as int].0));
                    assert(decreases_to!(whole@[taken as int] => whole@[taken as int].1));
                    assert(decreases_to!(value => key));
                    assert(decreases_to!(value => entry));
                }
                let key_part = value_to_key(key, floats);
                let entry_part = value_to_key(entry, floats);
                let mut part = key_part;
                part.append(" => ");
                part.append(entry_part.as_str());
                proof {
                    let done = all.take(taken + 1);
                    assert(done.drop_last() =~= all.take(taken as int));
                    assert(pair_texts(done, *floats) == pair_texts(all.take(taken as int), *floats).push(
                        part@,
                    ));
                }
                append_joined(
                    &mut text,
                    part.as_str(),
                    taken == 0,
                    Ghost(pair_texts(all.take(taken as int), *floats)),
                );
                taken = taken + 1;
                proof {
                    assert(rest@ =~= all.skip(taken as int));
                }
            }
            assert(all.take(total as int) =~= all);
            text
        },
    }
}

/// `structures` are the numbers `numbers`, in order.
pub open spec fn numbers_are(structures: Seq<Structure>, numbers: Seq<StructureNumber>) -> bool {
    &&& structures.len() == numbers.len()
    &&& forall|i: int|
        0 <= i < numbers.len() ==> #[trigger] structures[i] == Structure::Number(numbers[i])
}

/// `structure` is what a channel value becomes: null, booleans and strings as they are,
/// every integer as a signed number, bytes as non-negative numbers, floats as floats,
/// lists as arrays, and maps as objects whose keys are the key texts of the map's keys.
pub open spec fn converted<F: Fn(u64) -> String>(
    value: ChannelValue,
    structure: Structure,
    floats: F,
) -> bool
    decreases value,
{
    match value {
        ChannelValue::Null => structure is Null,
        ChannelValue::Bool(b) => structure == Structure::Bool(b),
        ChannelValue::I64(i) => structure == Structure::Number(StructureNumber::NegInt(i)),
        ChannelValue::F64(bits) => structure == Structure::Number(StructureNumber::Float(bits)),
        ChannelValue::String(text) => structure matches Structure::String(t) && t@ == text@,
        ChannelValue::U8List(list) => structure matches Structure::Array(a) && numbers_are(
            a@,
            list@.map_values(|v: u8| StructureNumber::PosInt(v as u64)),
        ),
        ChannelValue::I32List(list) => structure matches Structure::Array(a) && numbers_are(
            a@,
            list@.map_values(|v: i32| StructureNumber::NegInt(v as i64)),
        ),
        ChannelValue::I64List(list) => structure matches Structure::Array(a) && numbers_are(
            a@,
            list@.map_values(|v: i64| StructureNumber::NegInt(v)),
        ),
        ChannelValue::F64List(list) => structure matches Structure::Array(a) && numbers_are(
            a@,
            list@.map_values(|bits: u64| StructureNumber::Float(bits)),
        ),
        ChannelValue::List(items) => structure matches Structure::Array(a) && all_converted(
            items@,
            a@,
            floats,
        ),
        ChannelValue::Mapping(pairs) => structure matches Structure::Object(entries)
            && entries_converted(pairs@, entries@, floats),
    }
}

/// Each structure is what the item at the same place becomes.
pub open spec fn all_converted<F: Fn(u64) -> String>(
    items: Seq<ChannelValue>,
    structures: Seq<Structure>,
    floats: F,
) -> bool
    decreases items,
{
    &&& items.len() == structures.len()
    &&& items.len() > 0 ==> {
        &&& converted(items.last(), structures.last(), floats)
        &&& all_converted(items.drop_last(), structures.drop_last(), floats)
    }
}

/// Each entry holds the key text of the pair at the same place and what its value
/// becomes.
pub open spec fn entries_converted<F: Fn(u64) -> String>(
    pairs: Seq<(ChannelValue, ChannelValue)>,
    entries: Seq<(String, Structure)>,
    floats: F,
) -> bool
    decreases pairs,
{
    &&& pairs.len() == entries.len()
    &&& pairs.len() > 0 ==> {
        &&& entries.last().0@ == key_text(pairs.last().0, floats)
        &&& converted(pairs.last().1, entries.last().1, floats)
        &&& entries_converted(pairs.drop_last(), entries.drop_last(), floats)
    }
}

/// What a channel value becomes as a structure, with floats in map keys written by
/// `floats`.
pub fn value_to_structure<F: Fn(u64) -> String>(value: ChannelValue, floats: &F) -> (structure:
    Structure)
    requires
        writes_floats(*floats),
    ensures
        converted(value, structure, *floats),
    decreases value,
{
    match value {
        ChannelValue::Null => Structure::Null,
        ChannelValue::Bool(b) => Structure::Bool(b),
        ChannelValue::I64(i) => Structure::Number(StructureNumber::NegInt(i)),
        ChannelValue::F64(bits) => Structure::Number(StructureNumber::Float(bits)),
        ChannelValue::String(text) => Structure::String(text),
        ChannelValue::U8List(list) => {
            let ghost numbers = list@.map_values(|v: u8| StructureNumber::PosInt(v as u64));
            let converted = vec_num_convert_unsigned(list);
            assert(numbers_are(converted@, numbers));
            Structure::Array(converted)
        },
        ChannelValue::I32List(list) => {
            let ghost numbers = list@.map_values(|v: i32| StructureNumber::NegInt(v as i64));
            let wide = widen_ints(&list);
            let converted = vec_num_convert_signed(wide);
            assert(numbers_are(converted@, numbers));
            Structure::Array(converted)
        },
        ChannelValue::I64List(list) => {
            let ghost numbers = list@.map_values(|v: i64| StructureNumber::NegInt(v));
            let converted = vec_num_convert_signed(list);
            assert(numbers_are(converted@, numbers));
            Structure::Array(converted)
        },
        ChannelValue::F64List(list) => {
            let ghost numbers = list@.map_values(|bits: u64| StructureNumber::Float(bits));
            let converted = vec_num_convert_float(list);
            assert(numbers_are(converted@, numbers));
            Structure::Array(converted)
        },
        ChannelValue::List(items) => {
            let ghost whole = items;
            let ghost all = items@;
            let mut rest = items;
            let mut structures: Vec<Structure> = Vec::new();
            let mut taken: usize = 0;
            let total = rest.len();
            proof {
                assert(all.take(0) =~= Seq::<ChannelValue>::empty());
            }
            while taken < total
                invariant
                    writes_floats(*floats),
                    value == ChannelValue::List(whole),
                    all == whole@,
                    total == all.len(),
                    taken <= total,
                    rest@ == all.skip(taken as int),
                    all_converted(all.take(taken as int), structures@, *floats),
                decreases total - taken,
            {
                let item = rest.remove(0);
                proof {
                    assert(item == all[taken as int]);
                    assert(decreases_to!(value => value->List_0));
                    assert(decreases_to!(whole => whole@));
                    assert(decreases_to!(whole@ => whole@[taken as int]));
                    assert(decreases_to!(value => item));
                }
                let structure = value_to_structure(item, floats);
                let ghost before = structures@;
                structures.push(structure);
                proof {
                    let done = all.take(taken + 1);
                    assert(done.drop_last() =~= all.take(taken as int));
                    assert(structures@.drop_last() =~= before);
                }
                taken = taken + 1;
                proof {
                    assert(rest@ =~= all.skip(taken as int));
                }
            }
            assert(all.take(total as int) =~= all);
            Structure::Array(structures)
        },
        ChannelValue::Mapping(pairs) => {
            let ghost whole = pairs;
            let ghost all = pairs@;
            let mut rest = pairs;
            let mut entries: Vec<(String, Structure)> = Vec::new();
            let mut taken: usize = 0;
            let total = rest.len();
            proof {
                assert(all.take(0) =~= Seq::<(ChannelValue, ChannelValue)>::empty());
            }
            while taken < total
                invariant
                    writes_floats(*floats),
                    value == ChannelValue::Mapping(whole),
                    all == whole@,
                    total == all.len(),
                    taken <= total,
                    rest@ == all.skip(taken as int),
                    entries_converted(all.take(taken as int), entries@, *floats),
                decreases total - taken,
            {
                let (key, entry) = rest.remove(0);
                proof {
                    assert((key, entry) == all[taken as int]);
                    assert(decreases_to!(value => value->Mapping_0));
                    assert(decreases_to!(whole => whole@));
                    assert(decreases_to!(whole@ => whole@[taken as int]));
                    assert(decreases_to!(whole@[taken as int] => whole@[taken as int].1));
                    assert(decreases_to!(value => entry));
                }
                let key_text = value_to_key(key, floats);
                let structure = value_to_structure(entry, floats);
                let ghost before = entries@;
                entries.push((key_text, structure));
                proof {
                    let done = all.take(taken + 1);
                    assert(done.drop_last() =~= all.take(taken as int));
                    assert(entries@.drop_last() =~= before);
                }
                taken = taken + 1;
                proof {
                    assert(rest@ =~= all.skip(taken as int));
                }
            }
            assert(all.take(total as int) =~= all);
            Structure::Object(entries)
        },
    }
}

/// Integer lists become arrays of numbers, element by element and in order: each
/// 64-bit or 32-bit integer as the signed number of the same value, and each byte as the
/// non-negative number of the same value.
pub proof fn lemma_integer_lists_keep_their_values<F: Fn(u64) -> String>(
    value: ChannelValue,
    structure: Structure,
    floats: F,
)
    requires
        converted(value, structure, floats),
    ensures
        value matches ChannelValue::I64List(list) ==> structure matches Structure::Array(a) && a@.len()
            == list@.len() && forall|i: int|
            0 <= i < list@.len() ==> #[trigger] a@[i] == Structure::Number(
                StructureNumber::NegInt(list@[i]),
            ),
        value matches ChannelValue::I32List(list) ==> structure matches Structure::Array(a) && a@.len()
            == list@.len() && forall|i: int|
            0 <= i < list@.len() ==> #[trigger] a@[i] == Structure::Number(
                StructureNumber::NegInt(list@[i] as i64),
            ),
        value matches ChannelValue::U8List(list) ==> structure matches Structure::Array(a) && a@.len()
            == list@.len() && forall|i: int|
            0 <= i < list@.len() ==> #[trigger] a@[i] == Structure::Number(
                StructureNumber::PosInt(list@[i] as u64),
            ),
{
}

/// `copy` is `structure` with every non-negative number held as a signed one (wrapping
/// around above `i64::MAX`), and otherwise the same.
pub open spec fn signed_copy(structure: Structure, copy: Structure) -> bool
    decreases structure,
{
    match structure {
        Structure::Null => copy is Null,
        Structure::Bool(b) => copy == Structure::Bool(b),
        Structure::Number(n) => copy == Structure::Number(
            match n {
                StructureNumber::PosInt(u) => StructureNumber::NegInt(u as i64),
                _ => n,
            },
        ),
        Structure::String(text) => copy matches Structure::String(t) && t@ == text@,
        Structure::Array(elements) => copy matches Structure::Array(copies) && all_signed_copies(
            elements@,
            copies@,
        ),
        Structure::Object(entries) => copy matches Structure::Object(copies)
            && entries_signed_copies(entries@, copies@),
    }
}

/// Each copy is the signed copy of the structure at the same place.
pub open spec fn all_signed_copies(structures: Seq<Structure>, copies: Seq<Structure>) -> bool
    decreases structures,
{
    &&& structures.len() == copies.len()
    &&& structures.len() > 0 ==> {
        &&& signed_copy(structures.last(), copies.last())
        &&& all_signed_copies(structures.drop_last(), copies.drop_last())
    }
}

/// Each copied entry has the key of the entry at the same place and the signed copy of
/// its structure.
pub open spec fn entries_signed_copies(
    entries: Seq<(String, Structure)>,
    copies: Seq<(String, Structure)>,
) -> bool
    decreases entries,
{
    &&& entries.len() == copies.len()
    &&& entries.len() > 0 ==> {
        &&& copies.last().0@ == entries.last().0@
        &&& signed_copy(entries.last().1, copies.last().1)
        &&& entries_signed_copies(entries.drop_last(), copies.drop_last())
    }
}

/// Converting a structure to a channel value and back gives the structure again, except
/// that non-negative numbers come back as signed ones.
pub proof fn lemma_structure_round_trip<F: Fn(u64) -> String>(
    structure: Structure,
    value: ChannelValue,
    back: Structure,
    floats: F,
)
    requires
        represents(structure, value),
        converted(value, back, floats),
    ensures
        signed_copy(structure, back),
    decreases structure,
{
    match structure {
        Structure::Array(elements) => {
            assert(decreases_to!(structure => structure->Array_0));
            assert(decreases_to!(elements => elements@));
            let items = value->List_0;
            let copies = back->Array_0;
            lemma_all_round_trip(elements@, items@, copies@, floats);
        },
        Structure::Object(entries) => {
            assert(decreases_to!(structure => structure->Object_0));
            assert(decreases_to!(entries => entries@));
            let pairs = value->Mapping_0;
            let copies = back->Object_0;
            lemma_entries_round_trip(entries@, pairs@, copies@, floats);
        },
        _ => {},
    }
}

/// The round trip of a sequence of structures, element by element.
proof fn lemma_all_round_trip<F: Fn(u64) -> String>(
    structures: Seq<Structure>,
    items: Seq<ChannelValue>,
    copies: Seq<Structure>,
    floats: F,
)
    requires
        all_represent(structures, items),
        all_converted(items, copies, floats),
    ensures
        all_signed_copies(structures, copies),
    decreases structures,
{
    if structures.len() > 0 {
        assert(decreases_to!(structures => structures[structures.len() - 1]));
        lemma_structure_round_trip(structures.last(), items.last(), copies.last(), floats);
        lemma_all_round_trip(structures.drop_last(), items.drop_last(), copies.drop_last(), floats);
    }
}

/// The round trip of the entries of an object, entry by entry.
proof fn lemma_entries_round_trip<F: Fn(u64) -> String>(
    entries: Seq<(String, Structure)>,
    pairs: Seq<(ChannelValue, ChannelValue)>,
    copies: Seq<(String, Structure)>,
    floats: F,
)
    requires
        entries_represent(entries, pairs),
        entries_converted(pairs, copies, floats),
    ensures
        entries_signed_copies(entries, copies),
    decreases entries,
{
    if entries.len() > 0 {
        let last = entries.len() - 1;
        assert(decreases_to!(entries => entries[last]));
        assert(decreases_to!(entries[last] => entries[last].1));
        lemma_structure_round_trip(entries.last().1, pairs.last().1, copies.last().1, floats);
        lemma_entries_round_trip(entries.drop_last(), pairs.drop_last(), copies.drop_last(), floats);
    }
}

/// What a method call is answered with.
#[derive(Debug, PartialEq)]
pub enum Reply {
    /// The call succeeded with this value.
    Success(ChannelValue),
    /// The call failed.
    Failure { code: String, message: Option<String>, details: ChannelValue },
}

/// The texts of an optional message.
pub open spec fn message_view(message: Option<String>) -> Option<Seq<char>> {
    match message {
        Some(text) => Some(text@),
        None => None,
    }
}

/// `reply` is a failure with the given code, message and details.
pub open spec fn is_failure(
    reply: Reply,
    code: Seq<char>,
    message: Option<Seq<char>>,
    details: ChannelValue,
) -> bool {
    match reply {
        Reply::Failure { code: c, message: m, details: d } => c@ == code && message_view(m)
            == message && d == details,
        _ => false,
    }
}

/// `reply` tells that the return value of `method` could not be converted, with the
/// conversion error `error`, and names the method as details.
pub open spec fn is_conversion_failure(reply: Reply, method: Seq<char>, error: Seq<char>) -> bool {
    match reply {
        Reply::Failure { code, message, details } => {
            &&& code@ == "INVALID_RETURN_VALUE"@
            &&& message_view(message) == Some(
                "Failed to convert the return value of method "@ + method + ": "@ + error,
            )
            &&& (details matches ChannelValue::String(name) && name@ == method)
        },
        _ => false,
    }
}

/// Answers one method call, named by its method.
pub struct Responder {
    method: String,
}

impl Responder {
    /// The method the call is for.
    pub closed spec fn method_name(&self) -> Seq<char> {
        self.method@
    }

    /// A responder for a call of `method`.
    pub fn new(method: String) -> (responder: Self)
        ensures
            responder.method_name() == method@,
    {
        Responder { method }
    }

    /// Answers with a return value, given as what converting it to a channel value
    /// came to: the value, or the text of the conversion error, which is answered as
    /// `INVALID_RETURN_VALUE` with the method's name as details.
    pub fn ok(self, converted: Result<ChannelValue, String>) -> (reply: Reply)
        ensures
            match converted {
                Ok(value) => reply == Reply::Success(value),
                Err(error) => is_conversion_failure(reply, self.method_name(), error@),
            },
    {
        match converted {
            Ok(value) => Reply::Success(value),
            Err(error) => {
                let mut message = "Failed to convert the return value of method ".to_owned();
                message.append(self.method.as_str());
                message.append(": ");
                message.append(error.as_str());
                Reply::Failure {
                    code: "INVALID_RETURN_VALUE".to_owned(),
                    message: Some(message),
                    details: ChannelValue::String(self.method),
                }
            },
        }
    }

    /// Answers with a failure; missing details are answered as null.
    pub fn failed(self, code: &str, message: Option<&str>, details: Option<ChannelValue>) -> (reply:
        Reply)
        ensures
            is_failure(
                reply,
                code@,
                match message {
                    Some(text) => Some(text@),
                    None => None,
                },
                match details {
                    Some(value) => value,
                    None => ChannelValue::Null,
                },
            ),
    {
        let message = match message {
            Some(text) => Some(text.to_owned()),
            None => None,
        };
        let details = match details {
            Some(value) => value,
            None => ChannelValue::Null,
        };
        Reply::Failure { code: code.to_owned(), message, details }
    }

    /// Answers with what the method returned: its value, converted as for [`Self::ok`],
    /// or the text of its error, answered as `EXECUTION_FAILED` with null details.
    pub fn result(self, outcome: Result<Result<ChannelValue, String>, String>) -> (reply: Reply)
        ensures
            match outcome {
                Ok(Ok(value)) => reply == Reply::Success(value),
                Ok(Err(error)) => is_conversion_failure(reply, self.method_name(), error@),
                Err(error) => is_failure(
                    reply,
                    "EXECUTION_FAILED"@,
                    Some(error@),
                    ChannelValue::Null,
                ),
            },
    {
        match outcome {
            Ok(converted) => self.ok(converted),
            Err(error) => self.failed("EXECUTION_FAILED", Some(error.as_str()), None),
        }
    }
}

} // verus!
