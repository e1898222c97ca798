//! Reading the answers of the interactive configuration: a password length and
//! yes/no choices. Each parser returns `None` for an answer to be asked again.

use vstd::prelude::*;

verus! {

/// The shortest password length accepted.
pub const MIN_LENGTH: usize = 8;

/// The longest password length accepted.
pub const MAX_LENGTH: usize = 128;

/// `s` with leading and trailing Unicode white space removed.
pub uninterp spec fn trimmed_of(s: Seq<char>) -> Seq<char>;

/// `s` mapped to lowercase by the Unicode case mapping.
pub uninterp spec fn lowercased_of(s: Seq<char>) -> Seq<char>;

/// Relies on `str::trim`: the result depends on the characters alone.
#[verifier::external_body]
fn trim(s: &str) -> (r: &str)
    ensures
        r@ == trimmed_of(s@),
{
    s.trim()
}

/// Relies on `str::to_lowercase`: the result depends on the characters alone.
#[verifier::external_body]
fn to_lower(s: &str) -> (r: String)
    ensures
        r@ == lowercased_of(s@),
{
    s.to_lowercase()
}

pub open spec fn is_digit(c: char) -> bool {
    '0' <= c <= '9'
}

pub open spec fn digit_value(c: char) -> nat {
    (c as u32 - '0' as u32) as nat
}

/// The number that a string of decimal digits writes.
pub open spec fn digits_value(s: Seq<char>) -> nat
    decreases s.len(),
{
    if s.len() == 0 {
        0
    } else {
        digits_value(s.drop_last()) * 10 + digit_value(s.last())
    }
}

/// The digits of an unsigned number as written: an optional leading `+`.
pub open spec fn unsigned_digits(t: Seq<char>) -> Seq<char> {
    if t.len() > 0 && t[0] == '+' {
        t.drop_first()
    } else {
        t
    }
}

/// `t` writes an unsigned decimal number: an optional `+` and at least one digit.
pub open spec fn is_unsigned_number(t: Seq<char>) -> bool {
    let d = unsigned_digits(t);
    d.len() > 0 && forall|i: int| 0 <= i < d.len() ==> is_digit(#[trigger] d[i])
}

/// The length that an answer `t`, already trimmed, gives: its number when it
/// writes one in the accepted range, else nothing.
pub open spec fn length_of_token(t: Seq<char>) -> Option<nat> {
    if is_unsigned_number(t) && MIN_LENGTH <= digits_value(unsigned_digits(t)) <= MAX_LENGTH {
        Some(digits_value(unsigned_digits(t)))
    } else {
        None
    }
}

/// Reads a trimmed answer as a password length: `Some` of the number exactly
/// when `t` writes an unsigned decimal number from 8 to 128.
pub fn parse_length_token(t: &str) -> (r: Option<usize>)
    ensures
        r matches Some(n) ==> length_of_token(t@) == Some(n as nat),
        r is None ==> length_of_token(t@) is None,
{
    let n = t.unicode_len();
    let ghost s = t@;
    let mut start: usize = 0;
    if n > 0 && t.get_char(0) == '+' {
        start = 1;
    }
    assert(unsigned_digits(s) =~= s.subrange(start as int, n as int));
    let ghost d = unsigned_digits(s);
    if start >= n {
        return None;
    }
    // `value` is the number read so far, held at 129 once it exceeds the range.
    let mut value: usize = 0;
    let mut i: usize = start;
    while i < n
        invariant
            n == s.len(),
            s == t@,
            start <= i <= n,
            d == s.subrange(start as int, n as int),
            d == unsigned_digits(s),
            forall|j: int| 0 <= j < i - start ==> is_digit(#[trigger] d[j]),
            value <= MAX_LENGTH + 1,
            value <= MAX_LENGTH ==> value == digits_value(d.subrange(0, i - start)),
            value > MAX_LENGTH ==> digits_value(d.subrange(0, i - start)) > MAX_LENGTH,
        decreases n - i,
    {
        let c = t.get_char(i);
        if !('0' <= c && c <= '9') {
            assert(!is_digit(d[i - start]));
            return None;
        }
        let ghost prev = d.subrange(0, i - start);
        let ghost next = d.subrange(0, i + 1 - start);
        assert(next.drop_last() =~= prev);
        assert(next.last() == c);
        let v = (c as u32 - '0' as u32) as usize;
        if value <= MAX_LENGTH {
            value = value * 10 + v;
            if value > MAX_LENGTH {
                value = MAX_LENGTH + 1;
            }
        }
        i = i + 1;
    }
    assert(d.subrange(0, n - start) =~= d);
    if value >= MIN_LENGTH && value <= MAX_LENGTH {
        Some(value)
    } else {
        None
    }
}

/// Reads an answer line as a password length: the line is trimmed, then read
/// as by `parse_length_token`.
pub fn parse_length(line: &str) -> (r: Option<usize>)
    ensures
        r matches Some(n) ==> length_of_token(trimmed_of(line@)) == Some(n as nat),
        r is None ==> length_of_token(trimmed_of(line@)) is None,
{
    parse_length_token(trim(line))
}

/// The choice that a trimmed, lowercased answer gives: `y` or `yes` is yes,
/// `n` or `no` is no, anything else is none.
pub open spec fn answer_of(t: Seq<char>) -> Option<bool> {
    if t == "y"@ || t == "yes"@ {
        Some(true)
    } else if t == "n"@ || t == "no"@ {
        Some(false)
    } else {
        None
    }
}

/// Whether two strings hold the same characters.
fn same_chars(a: &str, b: &str) -> (r: bool)
    ensures
        r == (a@ == b@),
{
    let n = a.unicode_len();
    if n != b.unicode_len() {
        return false;
    }
    let mut i: usize = 0;
    while i < n
        invariant
            n == a@.len(),
            n == b@.len(),
            i <= n,
            forall|j: int| 0 <= j < i ==> a@[j] == b@[j],
        decreases n - i,
    {
        if a.get_char(i) != b.get_char(i) {
            return false;
        }
        i = i + 1;
    }
    assert(a@ =~= b@);
    true
}

/// Reads a trimmed, lowercased answer as a yes/no choice.
pub fn yes_no_token(t: &str) -> (r: Option<bool>)
    ensures
        r == answer_of(t@),
{
    if same_chars(t, "y") || same_chars(t, "yes") {
        Some(true)
    } else if same_chars(t, "n") || same_chars(t, "no") {
        Some(false)
    } else {
        None
    }
}

/// Reads an answer line as a yes/no choice: the line is trimmed and
/// lowercased, then read as by `yes_no_token`.
pub fn parse_yes_no(line: &str) -> (r: Option<bool>)
    ensures
        r == answer_of(lowercased_of(trimmed_of(line@))),
{
    let lowered = to_lower(trim(line));
    yes_no_token(lowered.as_str())
}

} // verus!
