//! Text helpers over the characters of a string: comparison, order, search,
//! trimming, splitting and decimal numbers.

use vstd::prelude::*;
use vstd::string::StringSliceAdditionalSpecFns;

verus! {

/// `String::push` appends one character.
pub assume_specification[ String::push ](s: &mut String, ch: char)
    ensures
        final(s)@ == old(s)@.push(ch),
;

/// Whether two strings hold the same characters.
pub fn same_text(a: &str, b: &str) -> (same: bool)
    ensures
        same == (a@ == b@),
{
    let x = a.as_bytes();
    let y = b.as_bytes();
    proof {
        vstd::utf8::encode_utf8_decode_utf8(a@);
        vstd::utf8::encode_utf8_decode_utf8(b@);
    }
    if x.len() != y.len() {
        return false;
    }
    let mut i: usize = 0;
    while i < x.len()
        invariant
            x@.len() == y@.len(),
            i <= x@.len(),
            forall|j: int| 0 <= j < i ==> x@[j] == y@[j],
            x@ == a.spec_bytes(),
            y@ == b.spec_bytes(),
        decreases x@.len() - i,
    {
        if x[i] != y[i] {
            return false;
        }
        i = i + 1;
    }
    assert(x@ =~= y@);
    true
}

/// The characters of a string.
pub fn chars_of(s: &str) -> (chars: Vec<char>)
    ensures
        chars@ == s@,
{
    let mut out: Vec<char> = Vec::new();
    for c in it: s.chars()
        invariant
            out@ == it.seq().take(it.index() as int),
            it.seq() == s@,
    {
        out.push(c);
    }
    out
}

/// Lexicographic order on characters, the order of `str` in the standard library.
pub open spec fn text_precedes(a: Seq<char>, b: Seq<char>) -> bool
    decreases a.len(),
{
    if b.len() == 0 {
        false
    } else if a.len() == 0 {
        true
    } else if a[0] != b[0] {
        a[0] < b[0]
    } else {
        text_precedes(a.skip(1), b.skip(1))
    }
}

/// No text precedes itself.
pub proof fn text_precedes_irreflexive(a: Seq<char>)
    ensures
        !text_precedes(a, a),
    decreases a.len(),
{
    if a.len() > 0 {
        text_precedes_irreflexive(a.skip(1));
    }
}

/// Any two texts are equal or one precedes the other.
pub proof fn text_precedes_total(a: Seq<char>, b: Seq<char>)
    ensures
        text_precedes(a, b) || a == b || text_precedes(b, a),
    decreases a.len(),
{
    if a.len() == 0 && b.len() == 0 {
        assert(a =~= b);
    } else if a.len() > 0 && b.len() > 0 && a[0] == b[0] {
        text_precedes_total(a.skip(1), b.skip(1));
        if a.skip(1) == b.skip(1) {
            assert(a =~= seq![a[0]] + a.skip(1));
            assert(b =~= seq![b[0]] + b.skip(1));
        }
    }
}

/// The order on texts is transitive.
pub proof fn text_precedes_transitive(a: Seq<char>, b: Seq<char>, c: Seq<char>)
    requires
        text_precedes(a, b),
        text_precedes(b, c),
    ensures
        text_precedes(a, c),
    decreases a.len(),
{
    if a.len() > 0 && a[0] == b[0] && b[0] == c[0] {
        text_precedes_transitive(a.skip(1), b.skip(1), c.skip(1));
    }
}

/// Whether `a` precedes `b` in the order on texts.
pub fn precedes(a: &str, b: &str) -> (before: bool)
    ensures
        before == text_precedes(a@, b@),
{
    let x = chars_of(a);
    let y = chars_of(b);
    let mut i: usize = 0;
    proof {
        assert(x@.skip(0) =~= a@);
        assert(y@.skip(0) =~= b@);
    }
    while i < x.len() && i < y.len()
        invariant
            i <= x@.len(),
            i <= y@.len(),
            text_precedes(a@, b@) == text_precedes(x@.skip(i as int), y@.skip(i as int)),
        decreases x@.len() - i,
    {
        if x[i] != y[i] {
            return x[i] < y[i];
        }
        proof {
            assert(x@.skip(i as int).skip(1) =~= x@.skip(i + 1));
            assert(y@.skip(i as int).skip(1) =~= y@.skip(i + 1));
        }
        i = i + 1;
    }
    i < y.len()
}

/// The text of two strings, one after the other.
pub fn joined(a: &str, b: &str) -> (s: String)
    ensures
        s@ == a@ + b@,
{
    let mut out: String = a.to_owned();
    out.append(b);
    out
}

/// The text of three strings, one after the other.
pub fn joined3(a: &str, b: &str, c: &str) -> (s: String)
    ensures
        s@ == a@ + b@ + c@,
{
    let mut out: String = joined(a, b);
    out.append(c);
    out
}

/// Whether `part` stands in `whole` at `at`.
pub open spec fn stands_at(whole: Seq<char>, part: Seq<char>, at: int) -> bool {
    0 <= at && at + part.len() <= whole.len() && whole.subrange(at, at + part.len()) == part
}

/// Whether `part` stands anywhere in `whole`.
pub open spec fn occurs_in(whole: Seq<char>, part: Seq<char>) -> bool {
    exists|at: int| stands_at(whole, part, at)
}

fn found_at(whole: &Vec<char>, part: &Vec<char>, at: usize) -> (found: bool)
    requires
        at <= whole@.len(),
    ensures
        found == stands_at(whole@, part@, at as int),
{
    let n: usize = whole.len();
    if part.len() > n - at {
        return false;
    }
    let mut i: usize = 0;
    while i < part.len()
        invariant
            i <= part@.len(),
            at + part@.len() <= n == whole@.len(),
            forall|j: int| 0 <= j < i ==> whole@[at + j] == part@[j],
        decreases part@.len() - i,
    {
        if whole[at + i] != part[i] {
            assert(whole@.subrange(at as int, at + part@.len())[i as int] != part@[i as int]);
            return false;
        }
        i = i + 1;
    }
    assert(whole@.subrange(at as int, at + part@.len()) =~= part@);
    true
}

/// Whether a string begins with `prefix`.
pub fn starts_with(s: &str, prefix: &str) -> (starts: bool)
    ensures
        starts == stands_at(s@, prefix@, 0),
{
    let whole = chars_of(s);
    let part = chars_of(prefix);
    found_at(&whole, &part, 0)
}

/// Whether `part` stands anywhere in a string.
pub fn contains_text(s: &str, part: &str) -> (found: bool)
    ensures
        found == occurs_in(s@, part@),
{
    let whole = chars_of(s);
    let needle = chars_of(part);
    let mut at: usize = 0;
    loop
        invariant
            at <= whole@.len(),
            whole@ == s@,
            needle@ == part@,
            forall|j: int| 0 <= j < at ==> !stands_at(whole@, needle@, j),
        decreases whole@.len() - at,
    {
        if found_at(&whole, &needle, at) {
            return true;
        }
        if at == whole.len() {
            return false;
        }
        at = at + 1;
    }
}

/// Where the next `c` stands from `from` on, or the end of the text.
pub open spec fn next_at(s: Seq<char>, c: char, from: int) -> int
    decreases s.len() - from,
{
    if from < 0 || from >= s.len() {
        s.len() as int
    } else if s[from] == c {
        from
    } else {
        next_at(s, c, from + 1)
    }
}

/// Finds where the next `c` stands from `from` on.
pub fn find_next(s: &Vec<char>, c: char, from: usize) -> (at: usize)
    requires
        from <= s@.len(),
    ensures
        at == next_at(s@, c, from as int),
        from <= at <= s@.len(),
{
    let mut i: usize = from;
    while i < s.len()
        invariant
            from <= i <= s@.len(),
            next_at(s@, c, from as int) == next_at(s@, c, i as int),
        decreases s@.len() - i,
    {
        if s[i] == c {
            return i;
        }
        i = i + 1;
    }
    i
}

/// The characters from `from` up to `to`.
pub fn copy_chars(s: &Vec<char>, from: usize, to: usize) -> (part: Vec<char>)
    requires
        from <= to <= s@.len(),
    ensures
        part@ == s@.subrange(from as int, to as int),
{
    let mut out: Vec<char> = Vec::new();
    let mut i: usize = from;
    while i < to
        invariant
            from <= i <= to <= s@.len(),
            out@ == s@.subrange(from as int, i as int),
        decreases to - i,
    {
        out.push(s[i]);
        i = i + 1;
    }
    out
}

/// Whether two lists hold the same characters.
pub fn same_chars(a: &Vec<char>, b: &Vec<char>) -> (same: bool)
    ensures
        same == (a@ == b@),
{
    if a.len() != b.len() {
        return false;
    }
    let mut i: usize = 0;
    while i < a.len()
        invariant
            i <= a@.len() == b@.len(),
            forall|j: int| 0 <= j < i ==> a@[j] == b@[j],
        decreases a@.len() - i,
    {
        if a[i] != b[i] {
            return false;
        }
        i = i + 1;
    }
    assert(a@ =~= b@);
    true
}

/// Whether a character is white space in the sense of Unicode.
pub open spec fn is_space(c: char) -> bool {
    ||| 0x9 <= c as u32 <= 0xd
    ||| c as u32 == 0x20
    ||| c as u32 == 0x85
    ||| c as u32 == 0xa0
    ||| c as u32 == 0x1680
    ||| 0x2000 <= c as u32 <= 0x200a
    ||| c as u32 == 0x2028
    ||| c as u32 == 0x2029
    ||| c as u32 == 0x202f
    ||| c as u32 == 0x205f
    ||| c as u32 == 0x3000
}

fn space(c: char) -> (yes: bool)
    ensures
        yes == is_space(c),
{
    let n: u32 = c as u32;
    (0x9 <= n && n <= 0xd) || n == 0x20 || n == 0x85 || n == 0xa0 || n == 0x1680 || (0x2000 <= n
        && n <= 0x200a) || n == 0x2028 || n == 0x2029 || n == 0x202f || n == 0x205f || n == 0x3000
}

/// A text without the white space before and after it.
pub open spec fn trimmed(s: Seq<char>) -> Seq<char>
    decreases s.len(),
{
    if s.len() > 0 && is_space(s[0]) {
        trimmed(s.skip(1))
    } else if s.len() > 0 && is_space(s.last()) {
        trimmed(s.drop_last())
    } else {
        s
    }
}

/// Removes the white space before and after a text.
pub fn trim(s: &Vec<char>) -> (out: Vec<char>)
    ensures
        out@ == trimmed(s@),
{
    let mut from: usize = 0;
    let mut to: usize = s.len();
    assert(s@.subrange(0, to as int) =~= s@);
    while from < to && space(s[from])
        invariant
            from <= to <= s@.len(),
            trimmed(s@) == trimmed(s@.subrange(from as int, to as int)),
        decreases to - from,
    {
        assert(s@.subrange(from as int, to as int).skip(1) =~= s@.subrange(from + 1, to as int));
        from = from + 1;
    }
    while from < to && space(s[to - 1])
        invariant
            from <= to <= s@.len(),
            from < to ==> !is_space(s@[from as int]),
            trimmed(s@) == trimmed(s@.subrange(from as int, to as int)),
        decreases to - from,
    {
        assert(s@.subrange(from as int, to as int).drop_last() =~= s@.subrange(
            from as int,
            to - 1,
        ));
        to = to - 1;
    }
    copy_chars(s, from, to)
}

/// The decimal digit of a number below ten.
pub open spec fn digit(n: nat) -> char {
    (48 + n) as char
}

/// A natural number in decimal, without leading zeros.
pub open spec fn decimal(n: nat) -> Seq<char>
    decreases n,
{
    if n < 10 {
        seq![digit(n)]
    } else {
        decimal(n / 10).push(digit(n % 10))
    }
}

/// Writes a number in decimal.
pub fn decimal_of(n: u64) -> (s: String)
    ensures
        s@ == decimal(n as nat),
    decreases n,
{
    let last: u8 = (n % 10) as u8;
    let mut out: String = if n < 10 {
        String::new()
    } else {
        decimal_of(n / 10)
    };
    out.push((48 + last) as char);
    out
}

/// The value of a run of decimal digits; `None` where a character is no digit.
pub open spec fn digits_value(s: Seq<char>) -> Option<nat>
    decreases s.len(),
{
    if s.len() == 0 {
        Some(0)
    } else if '0' <= s.last() <= '9' {
        match digits_value(s.drop_last()) {
            Some(v) => Some(10 * v + (s.last() as nat - 48) as nat),
            None => None,
        }
    } else {
        None
    }
}

/// The number up to `max` that a text spells: digits, at least one, behind at most
/// one leading plus sign.
pub open spec fn number_up_to(s: Seq<char>, max: nat) -> Option<nat> {
    let body = if s.len() > 0 && s[0] == '+' {
        s.skip(1)
    } else {
        s
    };
    match digits_value(body) {
        Some(v) => if body.len() > 0 && v <= max {
            Some(v)
        } else {
            None
        },
        None => None,
    }
}

/// The number below `2^32` that a text spells.
pub open spec fn number_in(s: Seq<char>) -> Option<u32> {
    match number_up_to(s, u32::MAX as nat) {
        Some(v) => Some(v as u32),
        None => None,
    }
}

/// The number below `2^64` that a text spells.
pub open spec fn long_number_in(s: Seq<char>) -> Option<u64> {
    match number_up_to(s, u64::MAX as nat) {
        Some(v) => Some(v as u64),
        None => None,
    }
}

/// A longer run of digits spells no smaller number.
proof fn digits_value_grows(s: Seq<char>, i: int)
    requires
        0 <= i <= s.len(),
    ensures
        digits_value(s) is Some ==> digits_value(s.take(i)) is Some && digits_value(s.take(i))->0
            <= digits_value(s)->0,
    decreases s.len() - i,
{
    if i < s.len() {
        digits_value_grows(s, i + 1);
        assert(s.take(i + 1).drop_last() =~= s.take(i));
    } else {
        assert(s.take(i) =~= s);
    }
}

fn parse_up_to(s: &[char], max: u64) -> (n: Option<u64>)
    ensures
        match n {
            Some(v) => number_up_to(s@, max as nat) == Some(v as nat),
            None => number_up_to(s@, max as nat) is None,
        },
{
    let start: usize = if s.len() > 0 && s[0] == '+' {
        1
    } else {
        0
    };
    let ghost body = if s@.len() > 0 && s@[0] == '+' {
        s@.skip(1)
    } else {
        s@
    };
    assert(body =~= s@.skip(start as int));
    if start >= s.len() {
        return None;
    }
    let mut value: u64 = 0;
    let mut i: usize = start;
    assert(body.take(0) =~= Seq::<char>::empty());
    while i < s.len()
        invariant
            start <= i <= s@.len(),
            start <= 1,
            body == s@.skip(start as int),
            body.len() > 0,
            body == (if s@.len() > 0 && s@[0] == '+' {
                s@.skip(1)
            } else {
                s@
            }),
            value <= max,
            digits_value(body.take(i - start)) == Some(value as nat),
        decreases s@.len() - i,
    {
        let c: char = s[i];
        proof {
            assert(body.take(i - start + 1).drop_last() =~= body.take(i - start));
            assert(body.take(i - start + 1).last() == c);
            digits_value_grows(body, i - start + 1);
        }
        if !('0' <= c && c <= '9') {
            return None;
        }
        let next: u128 = value as u128 * 10 + (c as u128 - 48);
        if next > max as u128 {
            return None;
        }
        value = next as u64;
        i = i + 1;
    }
    assert(body.take(body.len() as int) =~= body);
    Some(value)
}

/// Reads a number below `2^32`.
pub fn parse_number(s: &[char]) -> (n: Option<u32>)
    ensures
        n == number_in(s@),
{
    match parse_up_to(s, u32::MAX as u64) {
        Some(v) => Some(v as u32),
        None => None,
    }
}

/// Reads a number below `2^64`.
pub fn parse_long_number(s: &str) -> (n: Option<u64>)
    ensures
        n == long_number_in(s@),
{
    let chars = chars_of(s);
    parse_up_to(chars.as_slice(), u64::MAX)
}

/// What is written in decimal is read back.
pub proof fn decimal_reads_back(n: u64)
    ensures
        long_number_in(decimal(n as nat)) == Some(n),
{
    lemma_decimal(n as nat);
}

proof fn lemma_decimal(n: nat)
    ensures
        decimal(n).len() > 0,
        '0' <= decimal(n)[0] <= '9',
        digits_value(decimal(n)) == Some(n),
    decreases n,
{
    if n < 10 {
        assert(decimal(n).drop_last() =~= Seq::<char>::empty());
        assert(digits_value(Seq::<char>::empty()) == Some(0nat));
        assert(decimal(n).last() == digit(n));
    } else {
        lemma_decimal(n / 10);
        assert(decimal(n).drop_last() =~= decimal(n / 10));
        assert(decimal(n)[0] == decimal(n / 10)[0]);
        assert(decimal(n).last() == digit(n % 10));
        assert(10 * (n / 10) + n % 10 == n);
    }
}

/// A text stands at a position exactly where each of its characters does.
pub proof fn text_stands_where_its_characters_do(whole: Seq<char>, part: Seq<char>, at: int)
    ensures
        stands_at(whole, part, at) <==> 0 <= at && at + part.len() <= whole.len() && (forall|j: int|
            0 <= j < part.len() ==> whole[at + j] == #[trigger] part[j]),
{
    if stands_at(whole, part, at) {
        assert forall|j: int| 0 <= j < part.len() implies whole[at + j] == #[trigger] part[j] by {
            assert(whole.subrange(at, at + part.len())[j] == part[j]);
        }
    } else if 0 <= at && at + part.len() <= whole.len() && (forall|j: int|
        0 <= j < part.len() ==> whole[at + j] == #[trigger] part[j]) {
        assert(whole.subrange(at, at + part.len()) =~= part);
    }
}

/// The first character in which two texts differ decides their order; where there is
/// none, the shorter one comes first.
pub proof fn first_difference_decides_the_order(a: Seq<char>, b: Seq<char>, i: int)
    requires
        0 <= i <= a.len(),
        i <= b.len(),
        forall|j: int| 0 <= j < i ==> a[j] == b[j],
    ensures
        i < a.len() && i < b.len() && a[i] < b[i] ==> text_precedes(a, b) && !text_precedes(b, a),
        i == a.len() && i < b.len() ==> text_precedes(a, b) && !text_precedes(b, a),
        i == a.len() && i == b.len() ==> !text_precedes(a, b),
    decreases i,
{
    if i > 0 {
        assert forall|j: int| 0 <= j < i - 1 implies a.skip(1)[j] == b.skip(1)[j] by {
            assert(a[j + 1] == b[j + 1]);
        }
        first_difference_decides_the_order(a.skip(1), b.skip(1), i - 1);
    }
}

/// What is searched for stands where it is found and nowhere before; where it is not
/// found, it stands nowhere.
pub proof fn next_is_the_first(s: Seq<char>, c: char, from: int)
    requires
        0 <= from <= s.len(),
    ensures
        from <= next_at(s, c, from) <= s.len(),
        next_at(s, c, from) < s.len() ==> s[next_at(s, c, from)] == c,
        forall|j: int| from <= j < next_at(s, c, from) ==> s[j] != c,
    decreases s.len() - from,
{
    if from < s.len() && s[from] != c {
        next_is_the_first(s, c, from + 1);
    }
}

/// The first place from `from` on at which a character stands is where it is found.
pub proof fn first_is_found(s: Seq<char>, c: char, from: int, at: int)
    requires
        0 <= from <= at <= s.len(),
        forall|j: int| from <= j < at ==> s[j] != c,
        at < s.len() ==> s[at] == c,
    ensures
        next_at(s, c, from) == at,
    decreases at - from,
{
    if from < at {
        first_is_found(s, c, from + 1, at);
    }
}

/// White space is what Unicode calls so: in ASCII the space and the five controls from
/// the tab to the carriage return, and beyond it two in Latin-1 and the spaces and
/// separators of general punctuation. No letter and no digit is white space.
pub proof fn white_space_is_that_of_unicode(c: char)
    ensures
        (c as u32) < 0x80 ==> (is_space(c) <==> c == ' ' || c == '\t' || c == '\n' || c as u32
            == 0x0b || c as u32 == 0x0c || c == '\r'),
        0x80 <= (c as u32) < 0x100 ==> (is_space(c) <==> c as u32 == 0x85 || c as u32 == 0xa0),
        0x100 <= (c as u32) < 0x2000 ==> (is_space(c) <==> c as u32 == 0x1680),
        0x2000 <= (c as u32) <= 0x200a ==> is_space(c),
        (c as u32) > 0x200a ==> (is_space(c) <==> c as u32 == 0x2028 || c as u32 == 0x2029
            || c as u32 == 0x202f || c as u32 == 0x205f || c as u32 == 0x3000),
{
}

/// A trimmed text is the text without what stands before and after it: what is cut
/// off is white space, and what is left neither begins nor ends with any.
pub proof fn trimming_cuts_white_space_only(s: Seq<char>) -> (ends: (int, int))
    ensures
        0 <= ends.0 <= ends.1 <= s.len(),
        trimmed(s) == s.subrange(ends.0, ends.1),
        forall|i: int| 0 <= i < ends.0 || ends.1 <= i < s.len() ==> is_space(#[trigger] s[i]),
        ends.0 < ends.1 ==> !is_space(s[ends.0]) && !is_space(s[ends.1 - 1]),
    decreases s.len(),
{
    if s.len() > 0 && is_space(s[0]) {
        let rest = s.skip(1);
        let (from, to) = trimming_cuts_white_space_only(rest);
        assert(rest.subrange(from, to) =~= s.subrange(from + 1, to + 1));
        assert forall|i: int| 0 <= i < from + 1 || to + 1 <= i < s.len() implies is_space(
            #[trigger] s[i],
        ) by {
            if i > 0 {
                assert(rest[i - 1] == s[i]);
            }
        }
        (from + 1, to + 1)
    } else if s.len() > 0 && is_space(s.last()) {
        let rest = s.drop_last();
        let (from, to) = trimming_cuts_white_space_only(rest);
        assert(rest.subrange(from, to) =~= s.subrange(from, to));
        assert forall|i: int| 0 <= i < from || to <= i < s.len() implies is_space(
            #[trigger] s[i],
        ) by {
            if i < s.len() - 1 {
                assert(rest[i] == s[i]);
            }
        }
        (from, to)
    } else {
        assert(s.subrange(0, s.len() as int) =~= s);
        (0, s.len() as int)
    }
}

/// A text without white space is not changed by trimming.
pub proof fn text_without_white_space_is_kept(s: Seq<char>)
    requires
        forall|i: int| 0 <= i < s.len() ==> !is_space(#[trigger] s[i]),
    ensures
        trimmed(s) == s,
{
}

/// The decimal form of a number is that of its tens, and behind it the character of
/// its last digit.
pub proof fn decimal_ends_in_the_last_digit(n: nat, d: nat)
    requires
        d < 10,
    ensures
        decimal(d).len() == 1,
        decimal(d)[0] as nat == '0' as nat + d,
        n > 0 ==> decimal(10 * n + d) == decimal(n) + decimal(d),
{
    if n > 0 {
        assert((10 * n + d) / 10 == n && (10 * n + d) % 10 == d);
        assert(decimal(n).push(digit(d)) =~= decimal(n) + decimal(d));
    }
}

/// A decimal form is made of digits.
pub proof fn decimal_is_made_of_digits(n: nat)
    ensures
        decimal(n).len() > 0,
        forall|i: int| 0 <= i < decimal(n).len() ==> '0' <= #[trigger] decimal(n)[i] <= '9',
    decreases n,
{
    if n >= 10 {
        decimal_is_made_of_digits(n / 10);
    }
}

/// A text with a character that is no digit spells no number, but for one plus sign
/// at its beginning; neither does a text without a digit.
pub proof fn only_digits_are_numbers(s: Seq<char>, i: int)
    ensures
        0 <= i < s.len() && !('0' <= s[i] <= '9') && (i > 0 || s[0] != '+') ==> number_in(s) is None
            && long_number_in(s) is None,
        s.len() == 0 ==> number_in(s) is None && long_number_in(s) is None,
        s.len() == 1 && s[0] == '+' ==> number_in(s) is None && long_number_in(s) is None,
{
    if 0 <= i < s.len() && !('0' <= s[i] <= '9') {
        if s[0] == '+' {
            if i > 0 {
                lemma_no_digit(s.skip(1), i - 1);
            }
        } else {
            lemma_no_digit(s, i);
        }
    }
}

proof fn lemma_no_digit(s: Seq<char>, i: int)
    requires
        0 <= i < s.len(),
        !('0' <= s[i] <= '9'),
    ensures
        digits_value(s) is None,
    decreases s.len(),
{
    if i < s.len() - 1 {
        lemma_no_digit(s.drop_last(), i);
    }
}

/// The decimal form of a number is read as that number where it fits, with or without
/// a plus sign, and as none where it does not fit.
pub proof fn decimal_is_read_where_it_fits(n: nat)
    ensures
        number_in(decimal(n)) == (if n < 0x1_0000_0000 {
            Some(n as u32)
        } else {
            None
        }),
        number_in(seq!['+'] + decimal(n)) == number_in(decimal(n)),
        long_number_in(decimal(n)) == (if n < 0x1_0000_0000_0000_0000 {
            Some(n as u64)
        } else {
            None
        }),
        long_number_in(seq!['+'] + decimal(n)) == long_number_in(decimal(n)),
{
    lemma_decimal(n);
    assert((seq!['+'] + decimal(n)).skip(1) =~= decimal(n));
}

/// A zero in front does not change the number that a run of digits spells.
pub proof fn leading_zero_does_not_count(s: Seq<char>)
    requires
        s.len() > 0,
        '0' <= s[0] <= '9',
    ensures
        number_in(seq!['0'] + s) == number_in(s),
        long_number_in(seq!['0'] + s) == long_number_in(s),
{
    lemma_leading_zero(s);
}

proof fn lemma_leading_zero(s: Seq<char>)
    ensures
        digits_value(seq!['0'] + s) == digits_value(s),
    decreases s.len(),
{
    let longer = seq!['0'] + s;
    if s.len() == 0 {
        assert(longer.drop_last() =~= Seq::<char>::empty());
        assert(digits_value(Seq::<char>::empty()) == Some(0nat));
    } else {
        lemma_leading_zero(s.drop_last());
        assert(longer.drop_last() =~= seq!['0'] + s.drop_last());
        assert(longer.last() == s.last());
    }
}

/// White space around a text is removed, however much it is, where the text itself neither
/// begins nor ends with any; white space alone leaves nothing.
pub proof fn surrounding_white_space_is_removed(before: Seq<char>, s: Seq<char>, after: Seq<char>)
    requires
        forall|i: int| 0 <= i < before.len() ==> is_space(#[trigger] before[i]),
        forall|i: int| 0 <= i < after.len() ==> is_space(#[trigger] after[i]),
        s.len() > 0 ==> !is_space(s[0]) && !is_space(s[s.len() - 1]),
    ensures
        trimmed(before + s + after) == s,
    decreases before.len() + after.len(),
{
    let whole = before + s + after;
    if before.len() > 0 {
        assert(whole[0] == before[0]);
        assert(whole.skip(1) =~= before.skip(1) + s + after);
        surrounding_white_space_is_removed(before.skip(1), s, after);
    } else if s.len() == 0 {
        if after.len() > 0 {
            assert(whole[0] == after[0]);
            assert(whole.skip(1) =~= before + s + after.skip(1));
            surrounding_white_space_is_removed(before, s, after.skip(1));
        } else {
            assert(whole =~= s);
        }
    } else {
        assert(whole[0] == s[0]);
        if after.len() > 0 {
            assert(whole.last() == after.last());
            assert(whole.drop_last() =~= before + s + after.drop_last());
            surrounding_white_space_is_removed(before, s, after.drop_last());
        } else {
            assert(whole =~= s);
        }
    }
}

/// A text occurs in another wherever it stands between what is before and what is behind
/// it, and only where each of its characters stands in turn.
pub proof fn text_occurs_where_it_stands(
    before: Seq<char>,
    part: Seq<char>,
    after: Seq<char>,
    whole: Seq<char>,
)
    ensures
        occurs_in(before + part + after, part),
        occurs_in(whole, part) ==> exists|at: int|
            0 <= at <= whole.len() - part.len() && #[trigger] whole.subrange(at, at + part.len())
                == part,
        whole.len() < part.len() ==> !occurs_in(whole, part),
{
    let joined = before + part + after;
    let at = before.len() as int;
    assert(joined.subrange(at, at + part.len()) =~= part);
    assert(stands_at(joined, part, at));
    if occurs_in(whole, part) {
        let found = choose|at: int| stands_at(whole, part, at);
        assert(whole.subrange(found, found + part.len()) == part);
    }
}

} // verus!
