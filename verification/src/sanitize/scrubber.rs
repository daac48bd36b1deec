//! The exit filter.
//!
//! What leaves the daemon first loses everything that the vault's scrub set erases;
//! then the string values of the declared fields are masked. Payloads are bytes and
//! need not be JSON: what does not match stays as it is.

use crate::domain::{texts, text_view};
use crate::text::same_text;
use vstd::prelude::*;
use vstd::string::StringSliceAdditionalSpecFns;
use vstd::utf8::encode_utf8;

verus! {

/// White space in ASCII: space, tab, line feed, form feed and carriage return.
pub open spec fn is_blank(b: u8) -> bool {
    b == 0x20 || b == 0x09 || b == 0x0a || b == 0x0c || b == 0x0d
}

/// The first position from `pos` on that is not blank, or the end.
pub open spec fn past_blanks(input: Seq<u8>, pos: int) -> int
    decreases input.len() - pos,
{
    if 0 <= pos < input.len() && is_blank(input[pos]) {
        past_blanks(input, pos + 1)
    } else {
        pos
    }
}

/// Where the value behind a key begins: past blanks, a colon and blanks again.
pub open spec fn value_start(input: Seq<u8>, pos: int) -> Option<int> {
    let colon = past_blanks(input, pos);
    if 0 <= colon < input.len() && input[colon] == 0x3a {
        Some(past_blanks(input, colon + 1))
    } else {
        None
    }
}

/// Where a string ends whose inside goes on at `pos`: behind the next quote that is
/// not escaped.
pub open spec fn closing(input: Seq<u8>, pos: int) -> Option<int>
    decreases input.len() - pos,
{
    if pos < 0 || pos >= input.len() {
        None
    } else if input[pos] == 0x5c {
        if pos + 1 < input.len() {
            closing(input, pos + 2)
        } else {
            None
        }
    } else if input[pos] == 0x22 {
        Some(pos + 1)
    } else {
        closing(input, pos + 1)
    }
}

/// Where the string that begins at `pos` ends, if one does.
pub open spec fn string_end(input: Seq<u8>, pos: int) -> Option<int> {
    if 0 <= pos < input.len() && input[pos] == 0x22 {
        closing(input, pos + 1)
    } else {
        None
    }
}

/// Whether the key stands at `pos`.
pub open spec fn key_at(input: Seq<u8>, pos: int, key: Seq<u8>) -> bool {
    0 <= pos && pos + key.len() <= input.len() && input.subrange(pos, pos + key.len()) == key
}

/// The string value behind the key at `pos`, from its opening quote to behind its
/// closing one.
pub open spec fn value_at(input: Seq<u8>, pos: int, key: Seq<u8>) -> Option<(int, int)> {
    if key_at(input, pos, key) {
        match value_start(input, pos + key.len()) {
            Some(start) => match string_end(input, start) {
                Some(end) => Some((start, end)),
                None => None,
            },
            None => None,
        }
    } else {
        None
    }
}

/// The rest of a payload from `pos` on, with the string values behind the key
/// replaced by the mask.
pub open spec fn masked_from(input: Seq<u8>, key: Seq<u8>, mask: Seq<u8>, pos: int) -> Seq<u8>
    decreases input.len() - pos,
{
    if pos < 0 || pos >= input.len() {
        Seq::empty()
    } else {
        match value_at(input, pos, key) {
            Some((start, end)) => if pos < end <= input.len() {
                key + input.subrange(pos + key.len(), start) + mask + masked_from(
                    input,
                    key,
                    mask,
                    end,
                )
            } else {
                Seq::empty()
            },
            None => seq![input[pos]] + masked_from(input, key, mask, pos + 1),
        }
    }
}

/// A field name as a key: between quotes.
pub open spec fn key_of(field: Seq<u8>) -> Seq<u8> {
    seq![0x22u8] + field + seq![0x22u8]
}

/// A payload with the string values of a field masked.
pub open spec fn masked_field(input: Seq<u8>, field: Seq<u8>, mask: Seq<u8>) -> Seq<u8> {
    masked_from(input, key_of(field), mask, 0)
}

/// A payload with the string values of some fields masked, one field after the
/// other.
pub open spec fn masked_fields(input: Seq<u8>, fields: Seq<Seq<char>>, mask: Seq<u8>) -> Seq<u8>
    decreases fields.len(),
{
    if fields.len() == 0 {
        input
    } else {
        masked_field(
            masked_fields(input, fields.drop_last(), mask),
            encode_utf8(fields.last()),
            mask,
        )
    }
}

/// Where the key ends that stands at `pos`, if it does.
pub fn match_key_at(input: &[u8], pos: usize, key: &[u8]) -> (end: Option<usize>)
    ensures
        match end {
            Some(e) => key_at(input@, pos as int, key@) && e == pos + key@.len(),
            None => !key_at(input@, pos as int, key@),
        },
{
    if pos > input.len() || key.len() > input.len() - pos {
        return None;
    }
    let n: usize = input.len();
    let mut i: usize = 0;
    while i < key.len()
        invariant
            i <= key@.len(),
            pos + key@.len() <= n == input@.len(),
            forall|j: int| 0 <= j < i ==> input@[pos + j] == key@[j],
        decreases key@.len() - i,
    {
        if input[pos + i] != key[i] {
            assert(input@.subrange(pos as int, pos + key@.len())[i as int] != key@[i as int]);
            return None;
        }
        i = i + 1;
    }
    assert(input@.subrange(pos as int, pos + key@.len()) =~= key@);
    Some(pos + key.len())
}

fn skip_blanks(input: &[u8], pos: usize) -> (end: usize)
    requires
        pos <= input@.len(),
    ensures
        end == past_blanks(input@, pos as int),
        pos <= end <= input@.len(),
{
    let mut i: usize = pos;
    while i < input.len() && (input[i] == 0x20 || input[i] == 0x09 || input[i] == 0x0a || input[i]
        == 0x0c || input[i] == 0x0d)
        invariant
            pos <= i <= input@.len(),
            past_blanks(input@, pos as int) == past_blanks(input@, i as int),
        decreases input@.len() - i,
    {
        i = i + 1;
    }
    i
}

/// Where the value behind a key begins, if there is a colon.
pub fn skip_to_value(input: &[u8], pos: usize) -> (start: Option<usize>)
    requires
        pos <= input@.len(),
    ensures
        match start {
            Some(s) => value_start(input@, pos as int) == Some(s as int) && pos < s
                <= input@.len(),
            None => value_start(input@, pos as int) is None,
        },
{
    let colon: usize = skip_blanks(input, pos);
    if colon >= input.len() || input[colon] != 0x3a {
        return None;
    }
    Some(skip_blanks(input, colon + 1))
}

/// Where the string that begins at `value_start` ends, if one does.
pub fn json_string_end(input: &[u8], value_start: usize) -> (end: Option<usize>)
    ensures
        match end {
            Some(e) => string_end(input@, value_start as int) == Some(e as int) && value_start < e
                <= input@.len(),
            None => string_end(input@, value_start as int) is None,
        },
        forall|q: int|
            value_start < q < input@.len() && input@[value_start as int] == 0x22
                && #[trigger] input@[q] == 0x22 && (forall|i: int|
                value_start < i < q ==> #[trigger] input@[i] != 0x22 && input@[i] != 0x5c)
                ==> end == Some((q + 1) as usize),
        value_start < input@.len() && input@[value_start as int] != 0x22 ==> end is None,
        value_start >= input@.len() ==> end is None,
        end matches Some(e) ==> input@[value_start as int] == 0x22 && input@[e - 1] == 0x22,
{
    proof {
        assert forall|q: int|
            value_start < q < input@.len() && input@[value_start as int] == 0x22
                && #[trigger] input@[q] == 0x22 && (forall|i: int|
                value_start < i < q ==> #[trigger] input@[i] != 0x22 && input@[i] != 0x5c)
            implies string_end(
            input@,
            value_start as int,
        ) == Some(q + 1) by {
            string_ends_at_the_next_quote(input@, value_start as int, q + 1);
        }
    }
    if value_start >= input.len() || input[value_start] != 0x22 {
        return None;
    }
    let mut pos: usize = value_start + 1;
    while pos < input.len()
        invariant
            value_start < pos,
            value_start < input@.len(),
            input@[value_start as int] == 0x22,
            string_end(input@, value_start as int) == closing(input@, pos as int),
            forall|q: int|
                value_start < q < input@.len() && input@[value_start as int] == 0x22
                    && #[trigger] input@[q] == 0x22 && (forall|i: int|
                    value_start < i < q ==> #[trigger] input@[i] != 0x22 && input@[i] != 0x5c)
                    ==> string_end(
                input@,
                value_start as int,
            ) == Some(q + 1),
        decreases input@.len() - pos,
    {
        if input[pos] == 0x5c {
            if input.len() - pos < 2 {
                return None;
            }
            pos = pos + 2;
        } else if input[pos] == 0x22 {
            return Some(pos + 1);
        } else {
            pos = pos + 1;
        }
    }
    None
}

/// Masks the string values of a field.
pub fn mask_json_string_field(input: Vec<u8>, field: &[u8], mask: &[u8]) -> (out: Vec<u8>)
    ensures
        out@ == masked_field(input@, field@, mask@),
{
    let mut key: Vec<u8> = Vec::new();
    key.push(0x22);
    key.extend_from_slice(field);
    key.push(0x22);
    assert(key@ =~= key_of(field@));
    let mut out: Vec<u8> = Vec::new();
    let mut pos: usize = 0;
    while pos < input.len()
        invariant
            pos <= input@.len(),
            key@ == key_of(field@),
            masked_field(input@, field@, mask@) == out@ + masked_from(
                input@,
                key@,
                mask@,
                pos as int,
            ),
        decreases input@.len() - pos,
    {
        let ghost before = out@;
        let mut hit: bool = false;
        let mut start: usize = 0;
        let mut end: usize = 0;
        let mut behind: usize = 0;
        if let Some(after_key) = match_key_at(input.as_slice(), pos, key.as_slice()) {
            if let Some(value_start) = skip_to_value(input.as_slice(), after_key) {
                if let Some(value_end) = json_string_end(input.as_slice(), value_start) {
                    hit = true;
                    behind = after_key;
                    start = value_start;
                    end = value_end;
                }
            }
        }
        if hit {
            assert(value_at(input@, pos as int, key@) == Some((start as int, end as int)));
            out.extend_from_slice(key.as_slice());
            append_part(&mut out, input.as_slice(), behind, start);
            out.extend_from_slice(mask);
            assert(out@ + masked_from(input@, key@, mask@, end as int) =~= before + (key@
                + input@.subrange(pos + key@.len(), start as int) + mask@ + masked_from(
                input@,
                key@,
                mask@,
                end as int,
            )));
            pos = end;
        } else {
            assert(value_at(input@, pos as int, key@) is None);
            out.push(input[pos]);
            assert(out@ + masked_from(input@, key@, mask@, pos + 1) =~= before + (seq![
                input@[pos as int],
            ] + masked_from(input@, key@, mask@, pos + 1)));
            pos = pos + 1;
        }
    }
    assert(out@ + Seq::<u8>::empty() =~= out@);
    out
}

fn append_part(out: &mut Vec<u8>, input: &[u8], from: usize, to: usize)
    requires
        from <= to <= input@.len(),
    ensures
        final(out)@ == old(out)@ + input@.subrange(from as int, to as int),
{
    let mut i: usize = from;
    assert(out@ =~= old(out)@ + input@.subrange(from as int, from as int));
    while i < to
        invariant
            from <= i <= to <= input@.len(),
            out@ == old(out)@ + input@.subrange(from as int, i as int),
        decreases to - i,
    {
        let ghost before = out@;
        out.push(input[i]);
        assert(out@ =~= old(out)@ + input@.subrange(from as int, i + 1));
        i = i + 1;
    }
}

/// Masks the string values of some fields, one field after the other.
pub fn mask_named_fields(payload: Vec<u8>, fields: &Vec<String>, mask: &[u8]) -> (out: Vec<u8>)
    ensures
        out@ == masked_fields(payload@, texts(fields@), mask@),
{
    let ghost start = payload@;
    let ghost all = texts(fields@);
    let mut out: Vec<u8> = payload;
    let mut i: usize = 0;
    assert(all.take(0) =~= Seq::<Seq<char>>::empty());
    while i < fields.len()
        invariant
            i <= fields@.len(),
            all == texts(fields@),
            out@ == masked_fields(start, all.take(i as int), mask@),
        decreases fields@.len() - i,
    {
        proof {
            assert(all.take(i + 1).drop_last() =~= all.take(i as int));
            assert(all.take(i + 1).last() == fields@[i as int]@);
        }
        out = mask_json_string_field(out, fields[i].as_str().as_bytes(), mask);
        i = i + 1;
    }
    assert(all.take(all.len() as int) =~= all);
    out
}

/// A payload in which the key does not stand is left as it is.
pub proof fn payload_without_the_key_is_unchanged(
    input: Seq<u8>,
    field: Seq<u8>,
    mask: Seq<u8>,
)
    requires
        forall|pos: int| !#[trigger] key_at(input, pos, key_of(field)),
    ensures
        masked_field(input, field, mask) == input,
{
    assert forall|pos: int| 0 <= pos < input.len() implies #[trigger] value_at(
        input,
        pos,
        key_of(field),
    ) is None by {
        assert(!key_at(input, pos, key_of(field)));
    }
    payload_without_a_value_is_unchanged(input, field, mask);
}

/// A payload in which no string value stands behind the key is left as it is.
pub proof fn payload_without_a_value_is_unchanged(
    input: Seq<u8>,
    field: Seq<u8>,
    mask: Seq<u8>,
)
    requires
        forall|pos: int|
            0 <= pos < input.len() ==> #[trigger] value_at(input, pos, key_of(field)) is None,
    ensures
        masked_field(input, field, mask) == input,
{
    lemma_copied(input, key_of(field), mask, 0, input.len() as int);
    assert(input.subrange(0, input.len() as int) + Seq::<u8>::empty() =~= input);
}

/// To mask the fields of two lists in a row is to mask those of the first, and then
/// those of the second.
pub proof fn lists_are_masked_one_after_the_other(
    input: Seq<u8>,
    one: Seq<Seq<char>>,
    other: Seq<Seq<char>>,
    mask: Seq<u8>,
)
    ensures
        masked_fields(input, one + other, mask) == masked_fields(
            masked_fields(input, one, mask),
            other,
            mask,
        ),
    decreases other.len(),
{
    if other.len() == 0 {
        assert(one + other =~= one);
    } else {
        lists_are_masked_one_after_the_other(input, one, other.drop_last(), mask);
        assert((one + other).drop_last() =~= one + other.drop_last());
        assert((one + other).last() == other.last());
    }
}

/// The first string value behind the key is replaced by the mask: what stands before
/// it stays, the key and what separates it from the value stay, and the rest is
/// masked in turn.
pub proof fn first_value_is_masked(
    input: Seq<u8>,
    field: Seq<u8>,
    mask: Seq<u8>,
    at: int,
    start: int,
    end: int,
)
    requires
        0 <= at < input.len(),
        forall|pos: int| 0 <= pos < at ==> #[trigger] value_at(input, pos, key_of(field)) is None,
        value_at(input, at, key_of(field)) == Some((start, end)),
    ensures
        masked_field(input, field, mask) == input.take(at) + (key_of(field) + input.subrange(
            at + key_of(field).len(),
            start,
        ) + mask + masked_from(input, key_of(field), mask, end)),
{
    let key = key_of(field);
    lemma_value_bounds(input, at, key, start, end);
    lemma_copied(input, key, mask, 0, at);
    assert(input.subrange(0, at) =~= input.take(at));
}

/// Bytes at which no value is found are copied.
proof fn lemma_copied(input: Seq<u8>, key: Seq<u8>, mask: Seq<u8>, from: int, to: int)
    requires
        0 <= from <= to <= input.len(),
        forall|pos: int| from <= pos < to ==> #[trigger] value_at(input, pos, key) is None,
    ensures
        masked_from(input, key, mask, from) == input.subrange(from, to) + masked_from(
            input,
            key,
            mask,
            to,
        ),
    decreases to - from,
{
    if from < to {
        lemma_copied(input, key, mask, from + 1, to);
        assert(value_at(input, from, key) is None);
        assert(input.subrange(from, to) =~= seq![input[from]] + input.subrange(from + 1, to));
        assert(seq![input[from]] + (input.subrange(from + 1, to) + masked_from(
            input,
            key,
            mask,
            to,
        )) =~= input.subrange(from, to) + masked_from(input, key, mask, to));
    } else {
        assert(input.subrange(from, to) + masked_from(input, key, mask, to) =~= masked_from(
            input,
            key,
            mask,
            to,
        ));
    }
}

proof fn lemma_value_bounds(input: Seq<u8>, at: int, key: Seq<u8>, start: int, end: int)
    requires
        0 <= at < input.len(),
        value_at(input, at, key) == Some((start, end)),
    ensures
        at + key.len() < start < end <= input.len(),
{
    lemma_past_blanks(input, at + key.len());
    let colon = past_blanks(input, at + key.len());
    lemma_past_blanks(input, colon + 1);
    lemma_closing(input, start + 1);
}

proof fn lemma_past_blanks(input: Seq<u8>, pos: int)
    requires
        0 <= pos <= input.len(),
    ensures
        pos <= past_blanks(input, pos) <= input.len(),
    decreases input.len() - pos,
{
    if pos < input.len() && is_blank(input[pos]) {
        lemma_past_blanks(input, pos + 1);
    }
}

proof fn lemma_closing(input: Seq<u8>, pos: int)
    requires
        0 <= pos,
    ensures
        closing(input, pos) matches Some(end) ==> pos < end <= input.len(),
    decreases input.len() - pos,
{
    if pos < input.len() {
        if input[pos] == 0x5c {
            if pos + 1 < input.len() {
                lemma_closing(input, pos + 2);
            }
        } else if input[pos] != 0x22 {
            lemma_closing(input, pos + 1);
        }
    }
}

/// A string ends behind the next quote, whatever stands before that, as long as it is
/// neither a quote nor a backslash.
pub proof fn string_ends_at_the_next_quote(input: Seq<u8>, start: int, end: int)
    requires
        0 <= start,
        start + 1 < end <= input.len(),
        input[start] == 0x22,
        input[end - 1] == 0x22,
        forall|i: int| start < i < end - 1 ==> input[i] != 0x22 && input[i] != 0x5c,
    ensures
        string_end(input, start) == Some(end),
{
    lemma_plain(input, start + 1, end);
}

proof fn lemma_plain(input: Seq<u8>, pos: int, end: int)
    requires
        0 <= pos < end <= input.len(),
        input[end - 1] == 0x22,
        forall|i: int| pos <= i < end - 1 ==> input[i] != 0x22 && input[i] != 0x5c,
    ensures
        closing(input, pos) == Some(end),
    decreases end - pos,
{
    if pos < end - 1 {
        lemma_plain(input, pos + 1, end);
    }
}

/// How many backslashes stand in a row right before a position, down to `from`.
pub open spec fn backslashes_before(input: Seq<u8>, from: int, pos: int) -> nat
    decreases pos - from,
{
    if from < pos <= input.len() && input[pos - 1] == 0x5c {
        1 + backslashes_before(input, from, pos - 1)
    } else {
        0
    }
}

/// A string ends behind its first quote that an even number of backslashes precedes.
pub proof fn string_ends_at_the_first_bare_quote(input: Seq<u8>, start: int, end: int)
    requires
        0 <= start,
        start + 1 < end <= input.len(),
        input[start] == 0x22,
        input[end - 1] == 0x22,
        backslashes_before(input, start + 1, end - 1) % 2 == 0,
        forall|i: int|
            start < i < end - 1 && #[trigger] input[i] == 0x22 ==> backslashes_before(
                input,
                start + 1,
                i,
            ) % 2 == 1,
    ensures
        string_end(input, start) == Some(end),
{
    lemma_bare_quote(input, start + 1, start + 1, end);
}

/// A string without a quote that an even number of backslashes precedes has no end.
pub proof fn string_without_a_bare_quote_is_open(input: Seq<u8>, start: int)
    requires
        0 <= start < input.len(),
        input[start] == 0x22,
        forall|i: int|
            start < i < input.len() && #[trigger] input[i] == 0x22 ==> backslashes_before(
                input,
                start + 1,
                i,
            ) % 2 == 1,
    ensures
        string_end(input, start) is None,
{
    lemma_no_bare_quote(input, start + 1, start + 1);
}

proof fn lemma_bare_quote(input: Seq<u8>, from: int, pos: int, end: int)
    requires
        0 <= from <= pos < end <= input.len(),
        backslashes_before(input, from, pos) % 2 == 0,
        input[end - 1] == 0x22,
        backslashes_before(input, from, end - 1) % 2 == 0,
        forall|i: int|
            from <= i < end - 1 && #[trigger] input[i] == 0x22 ==> backslashes_before(
                input,
                from,
                i,
            ) % 2 == 1,
    ensures
        closing(input, pos) == Some(end),
    decreases end - pos,
{
    reveal_with_fuel(backslashes_before, 3);
    if pos < end - 1 {
        if input[pos] == 0x5c {
            assert(backslashes_before(input, from, pos + 1) == 1 + backslashes_before(
                input,
                from,
                pos,
            ));
            if input[pos + 1] == 0x5c {
                assert(backslashes_before(input, from, pos + 2) == 1 + backslashes_before(
                    input,
                    from,
                    pos + 1,
                ));
            }
            assert(pos + 1 < end - 1);
            lemma_bare_quote(input, from, pos + 2, end);
        } else {
            assert(input[pos] != 0x22);
            lemma_bare_quote(input, from, pos + 1, end);
        }
    }
}

proof fn lemma_no_bare_quote(input: Seq<u8>, from: int, pos: int)
    requires
        0 <= from <= pos,
        pos <= input.len() ==> backslashes_before(input, from, pos) % 2 == 0,
        forall|i: int|
            from <= i < input.len() && #[trigger] input[i] == 0x22 ==> backslashes_before(
                input,
                from,
                i,
            ) % 2 == 1,
    ensures
        closing(input, pos) is None,
    decreases input.len() - pos,
{
    reveal_with_fuel(backslashes_before, 3);
    if pos < input.len() {
        if input[pos] == 0x5c {
            if pos + 1 < input.len() {
                assert(backslashes_before(input, from, pos + 1) == 1 + backslashes_before(
                    input,
                    from,
                    pos,
                ));
                if input[pos + 1] == 0x5c {
                    assert(backslashes_before(input, from, pos + 2) == 1 + backslashes_before(
                        input,
                        from,
                        pos + 1,
                    ));
                }
                lemma_no_bare_quote(input, from, pos + 2);
            }
        } else {
            assert(input[pos] != 0x22);
            lemma_no_bare_quote(input, from, pos + 1);
        }
    }
}

/// Blanks are the space, the tab, the line feed, the form feed and the carriage
/// return. What stands behind a run of them is where they end.
pub proof fn blanks_end_at_the_first_other_byte(input: Seq<u8>, pos: int, end: int)
    requires
        0 <= pos <= end <= input.len(),
        forall|i: int|
            pos <= i < end ==> input[i] == 0x20 || input[i] == 0x09 || input[i] == 0x0a || input[i]
                == 0x0c || input[i] == 0x0d,
        end < input.len() ==> input[end] != 0x20 && input[end] != 0x09 && input[end] != 0x0a
            && input[end] != 0x0c && input[end] != 0x0d,
    ensures
        past_blanks(input, pos) == end,
    decreases end - pos,
{
    if pos < end {
        blanks_end_at_the_first_other_byte(input, pos + 1, end);
    }
}

/// The value behind a key begins behind one colon, with any blanks before and behind
/// it. Without a colon there is none.
pub proof fn value_begins_behind_the_colon(input: Seq<u8>, pos: int, colon: int, start: int)
    requires
        0 <= pos <= colon < input.len(),
        colon < start <= input.len(),
        forall|i: int|
            pos <= i < colon || colon < i < start ==> input[i] == 0x20 || input[i] == 0x09
                || input[i] == 0x0a || input[i] == 0x0c || input[i] == 0x0d,
        input[colon] != 0x20 && input[colon] != 0x09 && input[colon] != 0x0a && input[colon] != 0x0c
            && input[colon] != 0x0d,
        start < input.len() ==> input[start] != 0x20 && input[start] != 0x09 && input[start] != 0x0a
            && input[start] != 0x0c && input[start] != 0x0d,
    ensures
        input[colon] == 0x3a ==> value_start(input, pos) == Some(start),
        input[colon] != 0x3a ==> value_start(input, pos) is None,
{
    blanks_end_at_the_first_other_byte(input, pos, colon);
    blanks_end_at_the_first_other_byte(input, colon + 1, start);
}

/// In `"field":"v"`, behind any bytes without quotes, every value `v` without quotes and
/// backslashes is replaced by the mask, quotes and all. What stands before it stays, and
/// what stands behind it is masked in turn.
pub proof fn plain_value_is_replaced(
    before: Seq<u8>,
    field: Seq<u8>,
    value: Seq<u8>,
    after: Seq<u8>,
    mask: Seq<u8>,
)
    requires
        forall|i: int| 0 <= i < value.len() ==> #[trigger] value[i] != 0x22 && value[i] != 0x5c,
        forall|i: int| 0 <= i < before.len() ==> #[trigger] before[i] != 0x22,
    ensures
        masked_field(
            before + (seq![0x22u8] + field + seq![0x22u8]) + seq![0x3au8, 0x22u8] + value + seq![
                0x22u8,
            ] + after,
            field,
            mask,
        ) == before + (seq![0x22u8] + field + seq![0x22u8]) + seq![0x3au8] + mask + masked_field(
            after,
            field,
            mask,
        ),
{
    let key = key_of(field);
    let input = before + (seq![0x22u8] + field + seq![0x22u8]) + seq![0x3au8, 0x22u8] + value
        + seq![0x22u8] + after;
    let at = before.len() as int;
    let colon = at + key.len();
    let start = colon + 1;
    let end = start + 1 + value.len() + 1;
    assert(key =~= seq![0x22u8] + field + seq![0x22u8]);
    assert(input.subrange(at, at + key.len()) =~= key);
    assert(key_at(input, at, key));
    assert(input[colon] == 0x3a && input[start] == 0x22);
    value_begins_behind_the_colon(input, colon, colon, start);
    assert forall|i: int| start < i < end - 1 implies input[i] != 0x22 && input[i] != 0x5c by {
        assert(input[i] == value[i - start - 1]);
    }
    assert(input[end - 1] == 0x22);
    string_ends_at_the_next_quote(input, start, end);
    assert forall|pos: int| 0 <= pos < at implies #[trigger] value_at(input, pos, key) is None by {
        assert(input[pos] == before[pos]);
        if key_at(input, pos, key) {
            assert(input.subrange(pos, pos + key.len())[0] == key[0]);
        }
    }
    first_value_is_masked(input, field, mask, at, start, end);
    assert(input.take(at) =~= before);
    assert(input.subrange(colon, start) =~= seq![0x3au8]);
    assert(input.skip(end) =~= after);
    lemma_masked_rest(input, key, mask, end, end);
    assert(before + (key + seq![0x3au8] + mask + masked_field(after, field, mask)) =~= before + (
    seq![0x22u8] + field + seq![0x22u8]) + seq![0x3au8] + mask + masked_field(after, field, mask));
}

/// An empty payload stays empty. Where the key does not stand at the beginning of a
/// payload, because some byte of it differs or the payload is too short, the first byte
/// stays and the rest is masked in turn.
pub proof fn bytes_outside_of_the_key_stay(
    input: Seq<u8>,
    field: Seq<u8>,
    mask: Seq<u8>,
    i: int,
)
    ensures
        input.len() == 0 ==> masked_field(input, field, mask) == input,
        input.len() > 0 && input.len() < field.len() + 2 ==> masked_field(input, field, mask)
            == seq![input[0]] + masked_field(input.skip(1), field, mask),
        0 <= i < field.len() + 2 <= input.len() && input[i] != (seq![0x22u8] + field + seq![
            0x22u8,
        ])[i] ==> masked_field(input, field, mask) == seq![input[0]] + masked_field(
            input.skip(1),
            field,
            mask,
        ),
{
    let key = key_of(field);
    if input.len() > 0 {
        lemma_masked_rest(input, key, mask, 1, 1);
        if key_at(input, 0, key) {
            assert(0 <= i < key.len() ==> input.subrange(0, key.len() as int)[i] == key[i]);
        }
    }
}

/// Where the key stands at the beginning of a payload, with blanks, a colon and blanks
/// behind it, and then a string, that string is replaced by the mask, whatever it holds:
/// up to its first quote that an even number of backslashes precedes. The key and the
/// blanks stay, and the rest is masked in turn.
pub proof fn value_behind_the_key_is_replaced(
    input: Seq<u8>,
    field: Seq<u8>,
    mask: Seq<u8>,
    colon: int,
    start: int,
    end: int,
)
    requires
        field.len() + 2 <= colon < start,
        start + 1 < end <= input.len(),
        input.take((field.len() + 2) as int) == seq![0x22u8] + field + seq![0x22u8],
        forall|i: int|
            field.len() + 2 <= i < colon || colon < i < start ==> input[i] == 0x20 || input[i]
                == 0x09 || input[i] == 0x0a || input[i] == 0x0c || input[i] == 0x0d,
        input[colon] == 0x3a,
        input[start] == 0x22,
        input[end - 1] == 0x22,
        backslashes_before(input, start + 1, end - 1) % 2 == 0,
        forall|i: int|
            start < i < end - 1 && #[trigger] input[i] == 0x22 ==> backslashes_before(
                input,
                start + 1,
                i,
            ) % 2 == 1,
    ensures
        masked_field(input, field, mask) == input.take(start) + mask + masked_field(
            input.skip(end),
            field,
            mask,
        ),
{
    let key = key_of(field);
    assert(key =~= input.take((field.len() + 2) as int));
    assert(input.subrange(0, key.len() as int) =~= key);
    assert(key_at(input, 0, key));
    value_begins_behind_the_colon(input, key.len() as int, colon, start);
    string_ends_at_the_first_bare_quote(input, start, end);
    assert(value_at(input, 0, key) == Some((start, end)));
    lemma_masked_rest(input, key, mask, end, end);
    assert(key + input.subrange(key.len() as int, start) =~= input.take(start));
}

/// Where the key stands at the beginning of a payload but no string behind it, because
/// no colon follows, or something that is no quote, or a string without an end, the first
/// byte stays and the rest is masked in turn.
pub proof fn key_without_a_string_stays(
    input: Seq<u8>,
    field: Seq<u8>,
    mask: Seq<u8>,
    colon: int,
    start: int,
)
    requires
        field.len() + 2 <= colon < input.len(),
        input.take((field.len() + 2) as int) == seq![0x22u8] + field + seq![0x22u8],
        colon < start <= input.len(),
        forall|i: int|
            field.len() + 2 <= i < colon || colon < i < start ==> input[i] == 0x20 || input[i]
                == 0x09 || input[i] == 0x0a || input[i] == 0x0c || input[i] == 0x0d,
        input[colon] != 0x20 && input[colon] != 0x09 && input[colon] != 0x0a && input[colon] != 0x0c
            && input[colon] != 0x0d,
        start < input.len() ==> input[start] != 0x20 && input[start] != 0x09 && input[start] != 0x0a
            && input[start] != 0x0c && input[start] != 0x0d,
        input[colon] != 0x3a || start == input.len() || input[start] != 0x22 || (forall|i: int|
            start < i < input.len() && #[trigger] input[i] == 0x22 ==> backslashes_before(
                input,
                start + 1,
                i,
            ) % 2 == 1),
    ensures
        masked_field(input, field, mask) == seq![input[0]] + masked_field(
            input.skip(1),
            field,
            mask,
        ),
{
    let key = key_of(field);
    assert(key.len() == field.len() + 2);
    value_begins_behind_the_colon(input, key.len() as int, colon, start);
    if input[colon] == 0x3a && start < input.len() && input[start] == 0x22 {
        string_without_a_bare_quote_is_open(input, start);
    }
    assert(value_at(input, 0, key) is None);
    lemma_masked_rest(input, key, mask, 1, 1);
}

/// To mask no field changes nothing, and to mask one field is to mask the string values
/// behind its name.
pub proof fn one_field_is_masked_by_its_name(input: Seq<u8>, field: Seq<char>, mask: Seq<u8>)
    ensures
        masked_fields(input, Seq::empty(), mask) == input,
        masked_fields(input, seq![field], mask) == masked_field(input, encode_utf8(field), mask),
{
    let one = seq![field];
    assert(one.drop_last() =~= Seq::<Seq<char>>::empty());
    assert(one.last() == field);
    assert(masked_fields(input, one.drop_last(), mask) == input);
}

/// What is masked from a position on depends on the bytes from there on alone.
proof fn lemma_masked_rest(input: Seq<u8>, key: Seq<u8>, mask: Seq<u8>, cut: int, pos: int)
    requires
        0 <= cut <= pos <= input.len(),
        key.len() > 0,
    ensures
        masked_from(input, key, mask, pos) == masked_from(input.skip(cut), key, mask, pos - cut),
    decreases input.len() - pos,
{
    let rest = input.skip(cut);
    if pos < input.len() {
        lemma_value_rest(input, key, cut, pos);
        match value_at(input, pos, key) {
            Some((start, end)) => {
                lemma_value_bounds(input, pos, key, start, end);
                lemma_masked_rest(input, key, mask, cut, end);
                assert(input.subrange(pos + key.len(), start) =~= rest.subrange(
                    pos - cut + key.len(),
                    start - cut,
                ));
            },
            None => {
                lemma_masked_rest(input, key, mask, cut, pos + 1);
            },
        }
    }
}

proof fn lemma_value_rest(input: Seq<u8>, key: Seq<u8>, cut: int, pos: int)
    requires
        0 <= cut <= pos < input.len(),
    ensures
        value_at(input.skip(cut), pos - cut, key) == (match value_at(input, pos, key) {
            Some((start, end)) => Some((start - cut, end - cut)),
            None => None,
        }),
{
    let rest = input.skip(cut);
    if pos + key.len() <= input.len() {
        assert(input.subrange(pos, pos + key.len()) =~= rest.subrange(
            pos - cut,
            pos - cut + key.len(),
        ));
        if key_at(input, pos, key) {
            lemma_blanks_rest(input, cut, pos + key.len());
            lemma_past_blanks(input, pos + key.len());
            let colon = past_blanks(input, pos + key.len());
            if colon < input.len() && input[colon] == 0x3a {
                lemma_blanks_rest(input, cut, colon + 1);
                lemma_past_blanks(input, colon + 1);
                let start = past_blanks(input, colon + 1);
                lemma_closing_rest(input, cut, start + 1);
            }
        }
    }
}

proof fn lemma_blanks_rest(input: Seq<u8>, cut: int, pos: int)
    requires
        0 <= cut <= pos <= input.len(),
    ensures
        past_blanks(input.skip(cut), pos - cut) == past_blanks(input, pos) - cut,
    decreases input.len() - pos,
{
    if pos < input.len() && is_blank(input[pos]) {
        lemma_blanks_rest(input, cut, pos + 1);
    }
}

proof fn lemma_closing_rest(input: Seq<u8>, cut: int, pos: int)
    requires
        0 <= cut <= pos,
        cut <= input.len(),
    ensures
        closing(input.skip(cut), pos - cut) == (match closing(input, pos) {
            Some(end) => Some(end - cut),
            None => None,
        }),
    decreases input.len() - pos,
{
    if pos < input.len() {
        if input[pos] == 0x5c {
            if pos + 1 < input.len() {
                lemma_closing_rest(input, cut, pos + 2);
            }
        } else if input[pos] != 0x22 {
            lemma_closing_rest(input, cut, pos + 1);
        }
    }
}

/// A field that is declared to be masked: its name, and a text that may
/// list fields of its own.
#[derive(Debug)]
pub struct MaskRule {
    pub field: String,
    pub spec: String,
}

/// The list under a key of a JSON object: the text of each element, none for an
/// element that is no string. None where the text is no JSON or has no such list.
pub uninterp spec fn json_list(text: Seq<char>, key: Seq<char>) -> Option<
    Seq<Option<Seq<char>>>,
>;

/// A list of optional texts, each by its characters.
pub open spec fn listed(list: Option<Vec<Option<String>>>) -> Option<Seq<Option<Seq<char>>>> {
    match list {
        Some(items) => Some(items@.map_values(|item: Option<String>| text_view(item))),
        None => None,
    }
}

/// `serde_json::from_str` into a `Value`, then the array under `key`, with the
/// string of each element or none where the element is no string. The result depends
/// on the text and the key alone; what it is on a given text is not stated here.
#[verifier::external_body]
fn read_list(text: &str, key: &str) -> (list: Option<Vec<Option<String>>>)
    ensures
        listed(list) == json_list(text@, key@),
{
    match serde_json::from_str::<serde_json::Value>(text) {
        Ok(value) => value.get(key).and_then(|list| list.as_array()).map(
            |items| items.iter().map(|item| item.as_str().map(str::to_string)).collect(),
        ),
        Err(_) => None,
    }
}

/// The strings of a list, in order.
pub open spec fn strings_of(list: Seq<Option<Seq<char>>>) -> Seq<Seq<char>>
    decreases list.len(),
{
    if list.len() == 0 {
        Seq::empty()
    } else {
        match list.last() {
            Some(text) => strings_of(list.drop_last()).push(text),
            None => strings_of(list.drop_last()),
        }
    }
}

/// The fields of a rule: the strings that its text lists, or its own field
/// where there are none.
pub open spec fn rule_fields(list: Option<Seq<Option<Seq<char>>>>, field: Seq<char>) -> Seq<
    Seq<char>,
> {
    match list {
        Some(items) => if strings_of(items).len() > 0 {
            strings_of(items)
        } else {
            seq![field]
        },
        None => seq![field],
    }
}

/// Some fields and some more, without those that were there.
pub open spec fn merged(fields: Seq<Seq<char>>, more: Seq<Seq<char>>) -> Seq<Seq<char>>
    decreases more.len(),
{
    if more.len() == 0 {
        fields
    } else {
        let before = merged(fields, more.drop_last());
        if before.contains(more.last()) {
            before
        } else {
            before.push(more.last())
        }
    }
}

/// The fields of some rules, each once, in order.
pub open spec fn declared_fields(rules: Seq<MaskRule>) -> Seq<Seq<char>>
    decreases rules.len(),
{
    if rules.len() == 0 {
        Seq::empty()
    } else {
        let rule = rules.last();
        merged(
            declared_fields(rules.drop_last()),
            rule_fields(json_list(rule.spec@, "fields"@), rule.field@),
        )
    }
}

/// The fields of a rule whose text lists some elements.
pub fn fields_or(list: Option<Vec<Option<String>>>, field: &str) -> (fields: Vec<String>)
    ensures
        texts(fields@) == rule_fields(listed(list), field@),
{
    let mut fields: Vec<String> = Vec::new();
    if let Some(items) = list {
        let ghost all = items@.map_values(|item: Option<String>| text_view(item));
        let mut i: usize = 0;
        assert(texts(fields@) =~= Seq::<Seq<char>>::empty());
        while i < items.len()
            invariant
                i <= items@.len(),
                all == items@.map_values(|item: Option<String>| text_view(item)),
                texts(fields@) == strings_of(all.take(i as int)),
            decreases items@.len() - i,
        {
            proof {
                assert(all.take(i + 1).drop_last() =~= all.take(i as int));
                assert(all.take(i + 1).last() == text_view(items@[i as int]));
            }
            if let Some(text) = &items[i] {
                let ghost before = texts(fields@);
                fields.push(text.clone());
                assert(texts(fields@) =~= before.push(text@));
            }
            i = i + 1;
        }
        assert(all.take(all.len() as int) =~= all);
    }
    if fields.len() == 0 {
        fields.push(field.to_owned());
        assert(texts(fields@) =~= seq![field@]);
    }
    fields
}

fn holds_text(fields: &Vec<String>, text: &str) -> (yes: bool)
    ensures
        yes == texts(fields@).contains(text@),
{
    let ghost all = texts(fields@);
    let mut i: usize = 0;
    while i < fields.len()
        invariant
            i <= fields@.len(),
            all == texts(fields@),
            forall|j: int| 0 <= j < i ==> all[j] != text@,
        decreases fields@.len() - i,
    {
        if same_text(fields[i].as_str(), text) {
            assert(all[i as int] == text@);
            return true;
        }
        assert(all[i as int] != text@);
        i = i + 1;
    }
    false
}

/// Adds fields to those that are there, each once.
pub fn merge_fields(fields: &mut Vec<String>, more: &Vec<String>)
    ensures
        texts(final(fields)@) == merged(texts(old(fields)@), texts(more@)),
{
    let ghost all = texts(more@);
    let mut i: usize = 0;
    assert(all.take(0) =~= Seq::<Seq<char>>::empty());
    while i < more.len()
        invariant
            i <= more@.len(),
            all == texts(more@),
            texts(fields@) == merged(texts(old(fields)@), all.take(i as int)),
        decreases more@.len() - i,
    {
        proof {
            assert(all.take(i + 1).drop_last() =~= all.take(i as int));
            assert(all.take(i + 1).last() == more@[i as int]@);
        }
        if !holds_text(fields, more[i].as_str()) {
            let ghost before = texts(fields@);
            fields.push(more[i].clone());
            assert(texts(fields@) =~= before.push(more@[i as int]@));
        }
        i = i + 1;
    }
    assert(all.take(all.len() as int) =~= all);
}

/// The fields that a rule masks.
pub fn spec_fields(rule: &MaskRule) -> (fields: Vec<String>)
    ensures
        texts(fields@) == rule_fields(json_list(rule.spec@, "fields"@), rule.field@),
{
    fields_or(read_list(rule.spec.as_str(), "fields"), rule.field.as_str())
}

/// The fields that some rules mask, each once, in order.
pub fn resolve_mask_fields(declared: &Vec<MaskRule>) -> (fields: Vec<String>)
    ensures
        texts(fields@) == declared_fields(declared@),
{
    let mut fields: Vec<String> = Vec::new();
    let mut i: usize = 0;
    assert(texts(fields@) =~= Seq::<Seq<char>>::empty());
    while i < declared.len()
        invariant
            i <= declared@.len(),
            texts(fields@) == declared_fields(declared@.take(i as int)),
        decreases declared@.len() - i,
    {
        proof {
            assert(declared@.take(i + 1).drop_last() =~= declared@.take(i as int));
            assert(declared@.take(i + 1).last() == declared@[i as int]);
        }
        let more = spec_fields(&declared[i]);
        merge_fields(&mut fields, &more);
        i = i + 1;
    }
    assert(declared@.take(declared@.len() as int) =~= declared@);
    fields
}

/// No field is masked twice, and every rule masks at least one of the fields that
/// come out.
pub proof fn declared_fields_are_distinct(rules: Seq<MaskRule>)
    ensures
        declared_fields(rules).no_duplicates(),
        rules.len() > 0 ==> declared_fields(rules).len() > 0,
    decreases rules.len(),
{
    if rules.len() > 0 {
        declared_fields_are_distinct(rules.drop_last());
        let rule = rules.last();
        lemma_merged(
            declared_fields(rules.drop_last()),
            rule_fields(json_list(rule.spec@, "fields"@), rule.field@),
        );
    }
}

/// A rule masks each string that its text lists under `fields`; where it lists none, be it
/// for want of such a list or of a string in it, it masks its own field. Nothing else is
/// masked.
pub proof fn declared_fields_are_those_of_the_rules(rules: Seq<MaskRule>)
    ensures
        forall|r: int, k: int|
            0 <= r < rules.len() && (json_list(rules[r].spec@, "fields"@) matches Some(items) && 0
                <= k < items.len() && items[k] is Some) ==> declared_fields(rules).contains(
                (#[trigger] json_list(rules[r].spec@, "fields"@)->0[k])->0,
            ),
        forall|r: int|
            0 <= r < rules.len() && (json_list(rules[r].spec@, "fields"@) matches Some(items) ==> (
            forall|k: int| 0 <= k < items.len() ==> #[trigger] items[k] is None))
                ==> declared_fields(rules).contains((#[trigger] rules[r]).field@),
        forall|f: Seq<char>| #[trigger]
            declared_fields(rules).contains(f) ==> exists|r: int|
                0 <= r < rules.len() && (#[trigger] rules[r].field@ == f || json_list(
                    rules[r].spec@,
                    "fields"@,
                )->0.contains(Some(f))),
    decreases rules.len(),
{
    if rules.len() > 0 {
        let fewer = rules.drop_last();
        let rule = rules.last();
        let list = json_list(rule.spec@, "fields"@);
        let before = declared_fields(fewer);
        let more = rule_fields(list, rule.field@);
        declared_fields_are_those_of_the_rules(fewer);
        lemma_merged_holds(before, more);
        if list is Some {
            lemma_strings(list->0);
        }
        assert forall|r: int, k: int|
            0 <= r < rules.len() && (json_list(rules[r].spec@, "fields"@) matches Some(items) && 0
                <= k < items.len() && items[k] is Some) implies declared_fields(rules).contains(
            (#[trigger] json_list(rules[r].spec@, "fields"@)->0[k])->0,
        ) by {
            if r < fewer.len() {
                assert(fewer[r] == rules[r]);
            } else {
                assert(strings_of(list->0).contains(list->0[k]->0));
            }
        }
        assert forall|r: int|
            0 <= r < rules.len() && (json_list(rules[r].spec@, "fields"@) matches Some(items) ==> (
            forall|k: int| 0 <= k < items.len() ==> #[trigger] items[k] is None)) implies declared_fields(
            rules,
        ).contains((#[trigger] rules[r]).field@) by {
            if r < fewer.len() {
                assert(fewer[r] == rules[r]);
            } else {
                if list is Some {
                    if strings_of(list->0).len() > 0 {
                        assert(strings_of(list->0).contains(strings_of(list->0)[0]));
                    }
                }
                assert(more =~= seq![rule.field@]);
                assert(more[0] == rule.field@);
                assert(more.contains(rule.field@));
            }
        }
        assert forall|f: Seq<char>| #[trigger] declared_fields(rules).contains(f) implies exists|
            r: int,
        |
            0 <= r < rules.len() && (#[trigger] rules[r].field@ == f || json_list(
                rules[r].spec@,
                "fields"@,
            )->0.contains(Some(f))) by {
            if before.contains(f) {
                let r = choose|r: int|
                    0 <= r < fewer.len() && (#[trigger] fewer[r].field@ == f || json_list(
                        fewer[r].spec@,
                        "fields"@,
                    )->0.contains(Some(f)));
                assert(rules[r] == fewer[r]);
                assert(rules[r].field@ == f || json_list(rules[r].spec@, "fields"@)->0.contains(
                    Some(f),
                ));
            } else {
                assert(more.contains(f));
                let last = rules.len() - 1;
                assert(rules[last].field@ == f || json_list(
                    rules[last].spec@,
                    "fields"@,
                )->0.contains(Some(f)));
            }
        }
    }
}

/// The strings of a list are its elements that are strings.
proof fn lemma_strings(list: Seq<Option<Seq<char>>>)
    ensures
        forall|f: Seq<char>| #[trigger] strings_of(list).contains(f) <==> list.contains(Some(f)),
        forall|k: int|
            0 <= k < list.len() && (#[trigger] list[k]) is Some ==> strings_of(list).contains(
                list[k]->0,
            ),
    decreases list.len(),
{
    if list.len() > 0 {
        let fewer = list.drop_last();
        lemma_strings(fewer);
        let strings = strings_of(fewer);
        assert forall|f: Seq<char>| list.contains(Some(f)) implies #[trigger] strings_of(
            list,
        ).contains(f) by {
            let k = choose|k: int| 0 <= k < list.len() && list[k] == Some(f);
            if k < fewer.len() {
                assert(fewer[k] == Some(f));
                assert(strings.contains(f));
                let j = choose|j: int| 0 <= j < strings.len() && strings[j] == f;
                assert(strings_of(list)[j] == f);
            } else {
                assert(strings_of(list)[strings.len() as int] == f);
            }
        }
        assert forall|f: Seq<char>| #[trigger] strings_of(list).contains(f) implies list.contains(
            Some(f),
        ) by {
            let j = choose|j: int| 0 <= j < strings_of(list).len() && strings_of(list)[j] == f;
            if j < strings.len() {
                assert(strings[j] == f);
                assert(strings.contains(f));
                assert(fewer.contains(Some(f)));
                let k = choose|k: int| 0 <= k < fewer.len() && fewer[k] == Some(f);
                assert(list[k] == Some(f));
            } else {
                assert(list[list.len() - 1] == Some(f));
            }
        }
        assert forall|k: int| 0 <= k < list.len() && (#[trigger] list[k]) is Some implies strings_of(
            list,
        ).contains(list[k]->0) by {
            assert(list.contains(Some(list[k]->0)));
        }
    }
}

/// What is merged holds what either list holds, and keeps the order of the first.
proof fn lemma_merged_holds(fields: Seq<Seq<char>>, more: Seq<Seq<char>>)
    ensures
        forall|f: Seq<char>| #[trigger]
            merged(fields, more).contains(f) <==> fields.contains(f) || more.contains(f),
        fields.len() <= merged(fields, more).len(),
        merged(fields, more).take(fields.len() as int) == fields,
    decreases more.len(),
{
    if more.len() == 0 {
        assert(fields.take(fields.len() as int) =~= fields);
    } else {
        let fewer = more.drop_last();
        let before = merged(fields, fewer);
        lemma_merged_holds(fields, fewer);
        let all = merged(fields, more);
        assert forall|f: Seq<char>| #[trigger] all.contains(f) <==> fields.contains(f)
            || more.contains(f) by {
            if all.contains(f) {
                let i = choose|i: int| 0 <= i < all.len() && all[i] == f;
                if i < before.len() {
                    assert(before[i] == f);
                    assert(before.contains(f));
                    if fewer.contains(f) {
                        let k = choose|k: int| 0 <= k < fewer.len() && fewer[k] == f;
                        assert(more[k] == f);
                    }
                } else {
                    assert(more[more.len() - 1] == f);
                }
            }
            if more.contains(f) {
                let k = choose|k: int| 0 <= k < more.len() && more[k] == f;
                if k < fewer.len() {
                    assert(fewer[k] == f);
                    assert(before.contains(f));
                    let i = choose|i: int| 0 <= i < before.len() && before[i] == f;
                    assert(all[i] == f);
                } else {
                    if !before.contains(f) {
                        assert(all[all.len() - 1] == f);
                    }
                }
            }
            if fields.contains(f) {
                assert(before.contains(f));
                let i = choose|i: int| 0 <= i < before.len() && before[i] == f;
                assert(all[i] == f);
            }
        }
        assert(all.take(fields.len() as int) =~= before.take(fields.len() as int));
    }
}

proof fn lemma_merged(fields: Seq<Seq<char>>, more: Seq<Seq<char>>)
    requires
        fields.no_duplicates(),
    ensures
        merged(fields, more).no_duplicates(),
        more.len() > 0 ==> merged(fields, more).len() > 0,
    decreases more.len(),
{
    if more.len() > 0 {
        lemma_merged(fields, more.drop_last());
        let before = merged(fields, more.drop_last());
        if before.contains(more.last()) {
            let i = choose|i: int| 0 <= i < before.len() && before[i] == more.last();
            assert(before.len() > 0);
        }
    }
}

/// The exit filter. The vault's scrub set, which only matches and erases, is handed in
/// as `erase` where it is applied.
pub struct DaemonSanitizer {
    mask: Vec<u8>,
}

impl DaemonSanitizer {
    /// What takes the place of a masked value.
    pub closed spec fn mask(&self) -> Seq<u8> {
        self.mask@
    }

    /// An exit filter with a mask.
    pub fn new(mask: Vec<u8>) -> (filter: Self)
        ensures
            filter.mask() == mask@,
    {
        Self { mask }
    }

    /// Filters a payload: the scrub set goes over the whole of it first, and then the
    /// declared fields of what it left are masked.
    pub fn scrub<F: Fn(Vec<u8>) -> Vec<u8>>(
        &self,
        payload: Vec<u8>,
        declared: &Vec<MaskRule>,
        erase: F,
    ) -> (filtered: Vec<u8>)
        requires
            call_requires(erase, (payload,)),
        ensures
            exists|erased: Vec<u8>|
                #![trigger call_ensures(erase, (payload,), erased)]
                call_ensures(erase, (payload,), erased) && filtered@ == masked_fields(
                    erased@,
                    declared_fields(declared@),
                    self.mask(),
                ),
    {
        let erased = erase(payload);
        let ghost left = erased;
        let fields = resolve_mask_fields(declared);
        let filtered = mask_named_fields(erased, &fields, self.mask.as_slice());
        assert(call_ensures(erase, (payload,), left));
        filtered
    }

    /// An exit filter for a stream with some declared fields.
    pub fn scrub_stream(&self, declared: &Vec<MaskRule>) -> (stream: DaemonStreamScrubber)
        ensures
            stream.mask() == self.mask(),
            stream.fields() == declared_fields(declared@),
            stream.carry() == Seq::<u8>::empty(),
    {
        DaemonStreamScrubber {
            mask: crate::domain::copy_bytes(self.mask.as_slice()),
            mask_fields: resolve_mask_fields(declared),
            carry: Vec::new(),
        }
    }
}

/// The exit filter of a stream. Between chunks it keeps the bytes that the scrub set
/// holds back because a secret may go on in the next chunk.
pub struct DaemonStreamScrubber {
    mask: Vec<u8>,
    mask_fields: Vec<String>,
    carry: Vec<u8>,
}

impl DaemonStreamScrubber {
    /// What takes the place of a masked value.
    pub closed spec fn mask(&self) -> Seq<u8> {
        self.mask@
    }

    /// The fields to be masked.
    pub closed spec fn fields(&self) -> Seq<Seq<char>> {
        texts(self.mask_fields@)
    }

    /// The bytes held back.
    pub closed spec fn carry(&self) -> Seq<u8> {
        self.carry@
    }

    /// Filters a chunk. The scrub set takes the chunk and the bytes held back, and
    /// gives the bytes that may leave and those to be held back now; the declared
    /// fields of what may leave are masked after it.
    pub fn push<F: Fn(Vec<u8>, Vec<u8>) -> (Vec<u8>, Vec<u8>)>(
        &mut self,
        chunk: Vec<u8>,
        erase: F,
    ) -> (out: Vec<u8>)
        requires
            forall|carry: Vec<u8>|
                carry@ == old(self).carry() ==> #[trigger] call_requires(erase, (chunk, carry)),
        ensures
            exists|carry: Vec<u8>, erased: (Vec<u8>, Vec<u8>)|
                #![trigger call_ensures(erase, (chunk, carry), erased)]
                {
                    &&& carry@ == old(self).carry()
                    &&& call_ensures(erase, (chunk, carry), erased)
                    &&& out@ == masked_fields(erased.0@, old(self).fields(), old(self).mask())
                    &&& final(self).carry() == erased.1@
                },
            final(self).fields() == old(self).fields(),
            final(self).mask() == old(self).mask(),
    {
        let carry = crate::domain::copy_bytes(self.carry.as_slice());
        let ghost before = carry;
        let (erased, held) = erase(chunk, carry);
        let ghost both = (erased, held);
        self.carry = held;
        let out = mask_named_fields(erased, &self.mask_fields, self.mask.as_slice());
        assert(call_ensures(erase, (chunk, before), both));
        out
    }

    /// Ends the stream: gives what was held back, with the declared fields masked.
    pub fn finish(&mut self) -> (out: Vec<u8>)
        ensures
            out@ == masked_fields(old(self).carry(), old(self).fields(), old(self).mask()),
            final(self).carry() == Seq::<u8>::empty(),
            final(self).fields() == old(self).fields(),
            final(self).mask() == old(self).mask(),
    {
        let tail = crate::domain::copy_bytes(self.carry.as_slice());
        self.carry = Vec::new();
        mask_named_fields(tail, &self.mask_fields, self.mask.as_slice())
    }
}

/// A list that was read is seen element by element, a string by its characters and anything
/// else as none.
pub proof fn lists_are_seen_element_by_element(items: Vec<Option<String>>, i: int)
    ensures
        listed(None) is None,
        listed(Some(items)) is Some,
        listed(Some(items))->0.len() == items@.len(),
        0 <= i < items@.len() ==> (items@[i] is Some <==> listed(Some(items))->0[i] is Some),
        0 <= i < items@.len() && items@[i] is Some ==> listed(Some(items))->0[i]->0
            == items@[i]->0@,
{
}

/// The fields of a rule keep the order of its list: what is listed behind the rest comes
/// behind the fields of the rest.
pub proof fn fields_keep_the_order_of_the_list(
    items: Seq<Option<Seq<char>>>,
    text: Seq<char>,
    field: Seq<char>,
)
    ensures
        strings_of(items.push(Some(text))) == strings_of(items) + seq![text],
        strings_of(items.push(None)) == strings_of(items),
        strings_of(Seq::empty()).len() == 0,
        rule_fields(Some(items.push(Some(text))), field) == strings_of(items) + seq![text],
        rule_fields(None, field) == seq![field],
        strings_of(items).len() == 0 ==> rule_fields(Some(items), field) == seq![field],
{
    assert(items.push(Some(text)).drop_last() =~= items);
    assert(items.push(None).drop_last() =~= items);
    assert(strings_of(items).push(text) =~= strings_of(items) + seq![text]);
}

/// Fields that are there stay in front, in their order; of the others each is appended once,
/// where it is not there yet.
pub proof fn new_fields_come_behind_the_old(
    fields: Seq<Seq<char>>,
    more: Seq<Seq<char>>,
    field: Seq<char>,
)
    ensures
        merged(fields, Seq::empty()) == fields,
        merged(fields, more).contains(field) ==> merged(fields, more.push(field)) == merged(
            fields,
            more,
        ),
        !merged(fields, more).contains(field) ==> merged(fields, more.push(field)) == merged(
            fields,
            more,
        ) + seq![field],
        fields.len() <= merged(fields, more).len(),
        merged(fields, more).take(fields.len() as int) == fields,
{
    assert(more.push(field).drop_last() =~= more);
    assert(merged(fields, more).push(field) =~= merged(fields, more) + seq![field]);
    lemma_merged_holds(fields, more);
}

/// The fields of some rules come in the order of the rules.
pub proof fn rules_come_in_their_order(rules: Seq<MaskRule>, rule: MaskRule)
    ensures
        declared_fields(Seq::empty()).len() == 0,
        declared_fields(rules.push(rule)) == merged(
            declared_fields(rules),
            rule_fields(json_list(rule.spec@, "fields"@), rule.field@),
        ),
{
    assert(rules.push(rule).drop_last() =~= rules);
}

} // verus!
