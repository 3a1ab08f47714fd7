//! The naming policy: the name under which a record of a stream is written.

use crate::bridge::{pointer_target, push_char};
use crate::document::lookup;
use crate::path::{dots_to_slashes, pointer_of};
use crate::value::{text_views, JsonValue, JsonView};
use vstd::prelude::*;

verus! {

/// The decimal digit for a number below ten.
pub open spec fn digit(d: nat) -> char {
    if d == 0 {
        '0'
    } else if d == 1 {
        '1'
    } else if d == 2 {
        '2'
    } else if d == 3 {
        '3'
    } else if d == 4 {
        '4'
    } else if d == 5 {
        '5'
    } else if d == 6 {
        '6'
    } else if d == 7 {
        '7'
    } else if d == 8 {
        '8'
    } else {
        '9'
    }
}

/// A number in decimal, without leading zeros.
pub open spec fn decimal(n: nat) -> Seq<char>
    decreases n,
{
    if n < 10 {
        seq![digit(n)]
    } else {
        decimal(n / 10).push(digit(n % 10))
    }
}

/// A number in decimal, with zeros in front up to a width.
pub open spec fn zero_padded(n: nat, width: nat) -> Seq<char> {
    let digits = decimal(n);
    if digits.len() >= width {
        digits
    } else {
        Seq::new((width - digits.len()) as nat, |i: int| '0') + digits
    }
}

/// The name of a record that names itself by no field: `object-` and the
/// record's index in six digits, or more where the index needs more.
pub open spec fn default_name(index: nat) -> Seq<char> {
    seq!['o', 'b', 'j', 'e', 'c', 't', '-'] + zero_padded(index, 6)
}

/// The text by which a value names a record: a string gives its
/// characters, a number its JSON text, a boolean `true` or `false`. Null, an
/// array and an object give none.
pub open spec fn string_form(value: JsonView) -> Option<Seq<char>> {
    match value {
        JsonView::String(text) => Some(text),
        JsonView::Number(text) => Some(text),
        JsonView::Bool(b) => Some(
            if b {
                seq!['t', 'r', 'u', 'e']
            } else {
                seq!['f', 'a', 'l', 's', 'e']
            },
        ),
        _ => None,
    }
}

/// The name that the candidate fields give. The first candidate that leads
/// to a value other than null decides, and no later one is tried: it gives
/// its text, or the fallback where it has no text.
pub open spec fn chosen_name(
    record: JsonView,
    candidates: Seq<Seq<char>>,
    fallback: Seq<char>,
) -> Seq<char>
    decreases candidates.len(),
{
    if candidates.len() == 0 {
        fallback
    } else {
        match pointer_target(record, pointer_of(candidates.first())) {
            Some(found) if !(found is Null) => match string_form(found) {
                Some(text) => text,
                None => fallback,
            },
            _ => chosen_name(record, candidates.drop_first(), fallback),
        }
    }
}

/// A name with the type suffix: a dot and the text of the value that the
/// type field leads to. Without a type field, or where it leads to no value
/// or to one without text, the name stays as it is.
pub open spec fn typed_name(
    name: Seq<char>,
    record: JsonView,
    type_field: Option<Seq<char>>,
) -> Seq<char> {
    match type_field {
        Some(field) => match pointer_target(record, pointer_of(field)) {
            Some(found) => match string_form(found) {
                Some(text) => name + seq!['.'] + text,
                None => name,
            },
            None => name,
        },
        None => name,
    }
}

/// The name of the record with a given index.
pub open spec fn name_of(
    index: nat,
    record: JsonView,
    candidates: Seq<Seq<char>>,
    type_field: Option<Seq<char>>,
) -> Seq<char> {
    typed_name(chosen_name(record, candidates, default_name(index)), record, type_field)
}

/// The characters of an optional field path.
pub open spec fn field_view(field: Option<&String>) -> Option<Seq<char>> {
    match field {
        Some(text) => Some(text@),
        None => None,
    }
}

fn digit_char(d: usize) -> (c: char)
    requires
        d < 10,
    ensures
        c == digit(d as nat),
{
    if d == 0 {
        '0'
    } else if d == 1 {
        '1'
    } else if d == 2 {
        '2'
    } else if d == 3 {
        '3'
    } else if d == 4 {
        '4'
    } else if d == 5 {
        '5'
    } else if d == 6 {
        '6'
    } else if d == 7 {
        '7'
    } else if d == 8 {
        '8'
    } else {
        '9'
    }
}

fn decimal_digits(n: usize) -> (digits: Vec<char>)
    ensures
        digits@ == decimal(n as nat),
    decreases n,
{
    if n < 10 {
        let mut digits: Vec<char> = Vec::new();
        digits.push(digit_char(n));
        digits
    } else {
        let mut digits = decimal_digits(n / 10);
        digits.push(digit_char(n % 10));
        digits
    }
}

/// The default name of the record with a given index.
pub fn default_name_for(index: usize) -> (name: String)
    ensures
        name@ == default_name(index as nat),
{
    let digits = decimal_digits(index);
    let mut name = String::from_str("object-");
    proof {
        reveal_strlit("object-");
    }
    let ghost head = name@;
    let mut width: usize = digits.len();
    while width < 6
        invariant
            digits.len() <= width,
            width <= 6 || width == digits.len(),
            name@ == head + Seq::new((width - digits.len()) as nat, |i: int| '0'),
        decreases 6 - width,
    {
        push_char(&mut name, '0');
        width += 1;
    }
    let ghost padded = name@;
    let mut i: usize = 0;
    while i < digits.len()
        invariant
            i <= digits.len(),
            name@ == padded + digits@.take(i as int),
        decreases digits.len() - i,
    {
        push_char(&mut name, digits[i]);
        i += 1;
    }
    name
}

/// The text by which a value names a record, if it has one.
pub fn string_form_of(value: &JsonValue) -> (form: Option<String>)
    ensures
        match form {
            Some(text) => string_form(value@) == Some(text@),
            None => string_form(value@) is None,
        },
{
    match value {
        JsonValue::String(text) => Some(text.clone()),
        JsonValue::Number(number) => Some(number.text()),
        JsonValue::Bool(b) => {
            if *b {
                let text = String::from_str("true");
                proof {
                    reveal_strlit("true");
                }
                Some(text)
            } else {
                let text = String::from_str("false");
                proof {
                    reveal_strlit("false");
                }
                Some(text)
            }
        },
        _ => None,
    }
}

/// Computes the name under which a record is written: the text of the
/// first candidate field that leads to a value other than null, else
/// `object-` and the index in six digits; then, where a type field is given
/// and leads to a value with text, a dot and that text.
pub fn name_for(
    index: usize,
    record: &JsonValue,
    candidates: &Vec<String>,
    type_field: Option<&String>,
) -> (name: String)
    ensures
        name@ == name_of(index as nat, record@, text_views(candidates@), field_view(type_field)),
{
    let ghost fields = text_views(candidates@);
    let ghost fallback = default_name(index as nat);
    let mut name = default_name_for(index);
    let mut i: usize = 0;
    assert(fields.skip(0) =~= fields);
    while i < candidates.len()
        invariant_except_break
            i <= candidates.len(),
            fields == text_views(candidates@),
            fallback == default_name(index as nat),
            name@ == fallback,
            chosen_name(record@, fields, fallback) == chosen_name(
                record@,
                fields.skip(i as int),
                fallback,
            ),
        ensures
            name@ == chosen_name(record@, fields, fallback),
        decreases candidates.len() - i,
    {
        let pointer = dots_to_slashes(candidates[i].as_str());
        assert(fields.skip(i as int).drop_first() =~= fields.skip(i + 1));
        match lookup(record, pointer.as_str()) {
            Some(found) => {
                if !is_null(&found) {
                    match string_form_of(&found) {
                        Some(text) => {
                            name = text;
                        },
                        None => {},
                    }
                    break ;
                }
            },
            None => {},
        }
        i += 1;
    }
    match type_field {
        Some(field) => {
            let pointer = dots_to_slashes(field.as_str());
            match lookup(record, pointer.as_str()) {
                Some(found) => match string_form_of(&found) {
                    Some(text) => {
                        push_char(&mut name, '.');
                        name.append(text.as_str());
                    },
                    None => {},
                },
                None => {},
            }
        },
        None => {},
    }
    name
}

fn is_null(value: &JsonValue) -> (null: bool)
    ensures
        null == (value@ is Null),
{
    match value {
        JsonValue::Null => true,
        _ => false,
    }
}

} // verus!
