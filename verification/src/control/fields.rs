//! The fields of a request or a row: a JSON object whose values are scalars.

use crate::domain::StoreError;
use crate::text::{long_number_in, parse_long_number, same_text};
use vstd::prelude::*;

verus! {

/// A value of a field. `Raw` is any other JSON value, by its text.
#[derive(Debug)]
pub enum Field {
    Null,
    Bool(bool),
    Int(i64),
    Text(String),
    Raw(String),
}

impl Clone for Field {
    fn clone(&self) -> (copy: Self)
        ensures
            copy == self,
    {
        match self {
            Field::Null => Field::Null,
            Field::Bool(b) => Field::Bool(*b),
            Field::Int(n) => Field::Int(*n),
            Field::Text(s) => Field::Text(s.clone()),
            Field::Raw(s) => Field::Raw(s.clone()),
        }
    }
}

/// Named values.
pub type Fields = Vec<(&'static str, Field)>;

/// The value of a field, if there is one of that name.
pub open spec fn field_of(fields: Seq<(&'static str, Field)>, key: Seq<char>) -> Option<Field>
    decreases fields.len(),
{
    if fields.len() == 0 {
        None
    } else if fields[0].0@ == key {
        Some(fields[0].1)
    } else {
        field_of(fields.skip(1), key)
    }
}

/// The text of a field, if it is one.
pub open spec fn text_of(fields: Seq<(&'static str, Field)>, key: Seq<char>) -> Option<String> {
    match field_of(fields, key) {
        Some(Field::Text(s)) => Some(s),
        _ => None,
    }
}

/// Finds the value of a field.
pub fn get<'a>(fields: &'a Vec<(&'static str, Field)>, key: &str) -> (value: Option<&'a Field>)
    ensures
        match value {
            Some(v) => field_of(fields@, key@) == Some(*v),
            None => field_of(fields@, key@) is None,
        },
{
    let mut i: usize = 0;
    assert(fields@.skip(0) =~= fields@);
    while i < fields.len()
        invariant
            i <= fields@.len(),
            field_of(fields@, key@) == field_of(fields@.skip(i as int), key@),
        decreases fields@.len() - i,
    {
        assert(fields@.skip(i as int).skip(1) =~= fields@.skip(i + 1));
        if same_text(fields[i].0, key) {
            return Some(&fields[i].1);
        }
        i = i + 1;
    }
    None
}

/// A text that a request has to carry.
pub open spec fn required_text(fields: Seq<(&'static str, Field)>, key: Seq<char>) -> Result<
    String,
    StoreError,
> {
    match text_of(fields, key) {
        Some(s) => Ok(s),
        None => Err(StoreError::ConstraintViolation),
    }
}

/// An id that a request has to carry, as a decimal number in text.
pub open spec fn required_id(fields: Seq<(&'static str, Field)>, key: Seq<char>) -> Result<
    u64,
    StoreError,
> {
    match text_of(fields, key) {
        Some(s) => match long_number_in(s@) {
            Some(id) => Ok(id),
            None => Err(StoreError::ConstraintViolation),
        },
        None => Err(StoreError::ConstraintViolation),
    }
}

/// A text that a request may carry. Anything but a text or null is an error.
pub open spec fn optional_text(fields: Seq<(&'static str, Field)>, key: Seq<char>) -> Result<
    Option<String>,
    StoreError,
> {
    match field_of(fields, key) {
        None => Ok(None),
        Some(Field::Null) => Ok(None),
        Some(Field::Text(s)) => Ok(Some(s)),
        Some(_) => Err(StoreError::ConstraintViolation),
    }
}

/// An id that a request may carry.
pub open spec fn optional_id(fields: Seq<(&'static str, Field)>, key: Seq<char>) -> Result<
    Option<u64>,
    StoreError,
> {
    match optional_text(fields, key) {
        Err(e) => Err(e),
        Ok(None) => Ok(None),
        Ok(Some(s)) => match long_number_in(s@) {
            Some(id) => Ok(Some(id)),
            None => Err(StoreError::ConstraintViolation),
        },
    }
}

/// Reads a text that a request has to carry.
pub fn field_str(fields: &Vec<(&'static str, Field)>, key: &str) -> (text: Result<
    String,
    StoreError,
>)
    ensures
        text == required_text(fields@, key@),
{
    match get(fields, key) {
        Some(Field::Text(s)) => Ok(s.clone()),
        _ => Err(StoreError::ConstraintViolation),
    }
}

/// Reads an id that a request has to carry.
pub fn field_id(fields: &Vec<(&'static str, Field)>, key: &str) -> (id: Result<u64, StoreError>)
    ensures
        id == required_id(fields@, key@),
{
    match get(fields, key) {
        Some(Field::Text(s)) => match parse_long_number(s.as_str()) {
            Some(id) => Ok(id),
            None => Err(StoreError::ConstraintViolation),
        },
        _ => Err(StoreError::ConstraintViolation),
    }
}

/// Reads a text that a request may carry.
pub fn field_str_opt(fields: &Vec<(&'static str, Field)>, key: &str) -> (text: Result<
    Option<String>,
    StoreError,
>)
    ensures
        text == optional_text(fields@, key@),
{
    match get(fields, key) {
        None => Ok(None),
        Some(Field::Null) => Ok(None),
        Some(Field::Text(s)) => Ok(Some(s.clone())),
        Some(_) => Err(StoreError::ConstraintViolation),
    }
}

/// Reads an id that a request may carry.
pub fn field_id_opt(fields: &Vec<(&'static str, Field)>, key: &str) -> (id: Result<
    Option<u64>,
    StoreError,
>)
    ensures
        id == optional_id(fields@, key@),
{
    match field_str_opt(fields, key) {
        Err(e) => Err(e),
        Ok(None) => Ok(None),
        Ok(Some(s)) => match parse_long_number(s.as_str()) {
            Some(id) => Ok(Some(id)),
            None => Err(StoreError::ConstraintViolation),
        },
    }
}

/// A text that may be missing, as a field.
pub open spec fn text_or_null(text: Option<String>) -> Field {
    match text {
        Some(s) => Field::Text(s),
        None => Field::Null,
    }
}

/// Makes a field of a text that may be missing.
pub fn text_field(text: Option<String>) -> (field: Field)
    ensures
        field == text_or_null(text),
{
    match text {
        Some(s) => Field::Text(s),
        None => Field::Null,
    }
}

/// The value of a field is that of the first entry of its name, and there is none where no
/// entry has it.
pub proof fn first_entry_of_a_name_is_the_field(
    fields: Seq<(&'static str, Field)>,
    key: Seq<char>,
    i: int,
)
    requires
        0 <= i <= fields.len(),
        forall|j: int| 0 <= j < i ==> (#[trigger] fields[j]).0@ != key,
        i < fields.len() ==> fields[i].0@ == key,
    ensures
        i < fields.len() ==> field_of(fields, key) == Some(fields[i].1),
        i == fields.len() ==> field_of(fields, key) is None,
    decreases i,
{
    if i > 0 {
        assert(fields[0].0@ != key);
        assert forall|j: int| 0 <= j < i - 1 implies (#[trigger] fields.skip(1)[j]).0@ != key by {
            assert(fields[j + 1].0@ != key);
        }
        first_entry_of_a_name_is_the_field(fields.skip(1), key, i - 1);
    }
}

/// A text has to be a text, and an id a text that spells a number; what may be missing may
/// be missing or null, and is refused where it is anything else.
pub proof fn fields_are_read_by_their_kind(fields: Seq<(&'static str, Field)>, key: Seq<char>)
    ensures
        field_of(fields, key) matches Some(Field::Text(s)) ==> {
            &&& text_of(fields, key) == Some(s)
            &&& required_text(fields, key) == Ok::<_, StoreError>(s)
            &&& optional_text(fields, key) == Ok::<_, StoreError>(Some(s))
            &&& long_number_in(s@) matches Some(n) ==> required_id(fields, key) == Ok::<
                _,
                StoreError,
            >(n) && optional_id(fields, key) == Ok::<_, StoreError>(Some(n))
            &&& long_number_in(s@) is None ==> required_id(fields, key) is Err && optional_id(
                fields,
                key,
            ) is Err
        },
        !(field_of(fields, key) matches Some(Field::Text(_))) ==> {
            &&& text_of(fields, key) is None
            &&& required_text(fields, key) == Err::<String, _>(StoreError::ConstraintViolation)
            &&& required_id(fields, key) == Err::<u64, _>(StoreError::ConstraintViolation)
        },
        field_of(fields, key) is None || field_of(fields, key) == Some(Field::Null) ==> {
            &&& optional_text(fields, key) == Ok::<Option<String>, StoreError>(None)
            &&& optional_id(fields, key) == Ok::<Option<u64>, StoreError>(None)
        },
        field_of(fields, key) matches Some(f) && !(f is Text) && !(f is Null) ==> {
            &&& optional_text(fields, key) == Err::<Option<String>, _>(
                StoreError::ConstraintViolation,
            )
            &&& optional_id(fields, key) == Err::<Option<u64>, _>(StoreError::ConstraintViolation)
        },
{
}

/// A text that is there is a field of that text, and one that is not is null.
pub proof fn missing_text_is_null(text: String)
    ensures
        text_or_null(Some(text)) == Field::Text(text),
        text_or_null(None) == Field::Null,
{
}

} // verus!
