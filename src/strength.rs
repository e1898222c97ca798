//! A coarse strength estimate from a password's length and the number of
//! character classes it uses.

use vstd::prelude::*;

verus! {

/// How strong a password is judged to be, from weakest to strongest.
#[derive(Clone, Copy, Debug, PartialEq, Eq, Structural)]
pub enum Strength {
    Weak,
    Medium,
    Strong,
    VeryStrong,
}

/// The position of a strength in the order weakest to strongest.
pub open spec fn rank(s: Strength) -> nat {
    match s {
        Strength::Weak => 0,
        Strength::Medium => 1,
        Strength::Strong => 2,
        Strength::VeryStrong => 3,
    }
}

/// The decision table, first match wins: length at least 16 with all four
/// classes is very strong; at least 12 with three or more is strong; at least
/// 10 with two or more is medium; anything else is weak.
pub open spec fn strength_of(length: nat, variety: nat) -> Strength {
    if length >= 16 && variety == 4 {
        Strength::VeryStrong
    } else if length >= 12 && variety >= 3 {
        Strength::Strong
    } else if length >= 10 && variety >= 2 {
        Strength::Medium
    } else {
        Strength::Weak
    }
}

pub open spec fn label_of(s: Strength) -> Seq<char> {
    match s {
        Strength::Weak => "Weak"@,
        Strength::Medium => "Medium"@,
        Strength::Strong => "Strong"@,
        Strength::VeryStrong => "Very Strong"@,
    }
}

impl Strength {
    /// The label shown for this strength.
    pub fn label(&self) -> (r: &'static str)
        ensures
            r@ == label_of(*self),
    {
        match self {
            Strength::Weak => "Weak",
            Strength::Medium => "Medium",
            Strength::Strong => "Strong",
            Strength::VeryStrong => "Very Strong",
        }
    }
}

/// Whether `c` has the Unicode Uppercase property.
pub uninterp spec fn uppercase_of(c: char) -> bool;

/// Whether `c` has the Unicode Lowercase property.
pub uninterp spec fn lowercase_of(c: char) -> bool;

/// Whether `c` has the Unicode Alphabetic property.
pub uninterp spec fn alphabetic_of(c: char) -> bool;

/// Relies on `char::is_uppercase`, which depends on the character alone.
#[verifier::external_body]
fn is_upper(c: char) -> (r: bool)
    ensures
        r == uppercase_of(c),
{
    c.is_uppercase()
}

/// Relies on `char::is_lowercase`, which depends on the character alone.
#[verifier::external_body]
fn is_lower(c: char) -> (r: bool)
    ensures
        r == lowercase_of(c),
{
    c.is_lowercase()
}

/// Relies on `char::is_alphabetic`, which depends on the character alone.
#[verifier::external_body]
fn is_letter(c: char) -> (r: bool)
    ensures
        r == alphabetic_of(c),
{
    c.is_alphabetic()
}

/// A decimal digit, `0` to `9`.
pub open spec fn is_decimal_digit(c: char) -> bool {
    '0' <= c <= '9'
}

/// Neither a letter nor a decimal digit.
pub open spec fn is_symbol_char(c: char) -> bool {
    !alphabetic_of(c) && !is_decimal_digit(c)
}

pub open spec fn has_upper(s: Seq<char>) -> bool {
    exists|i: int| 0 <= i < s.len() && uppercase_of(#[trigger] s[i])
}

pub open spec fn has_lower(s: Seq<char>) -> bool {
    exists|i: int| 0 <= i < s.len() && lowercase_of(#[trigger] s[i])
}

pub open spec fn has_digit(s: Seq<char>) -> bool {
    exists|i: int| 0 <= i < s.len() && is_decimal_digit(#[trigger] s[i])
}

pub open spec fn has_symbol(s: Seq<char>) -> bool {
    exists|i: int| 0 <= i < s.len() && is_symbol_char(#[trigger] s[i])
}

/// How many of four flags hold.
pub open spec fn count_true(a: bool, b: bool, c: bool, d: bool) -> nat {
    (if a { 1nat } else { 0nat }) + (if b { 1nat } else { 0nat }) + (if c { 1nat } else { 0nat })
        + (if d { 1nat } else { 0nat })
}

/// How many of the four classes (uppercase, lowercase, digit, symbol) occur in `s`.
pub open spec fn variety_of(s: Seq<char>) -> nat {
    count_true(has_upper(s), has_lower(s), has_digit(s), has_symbol(s))
}

/// Counts the classes present, from the four presence flags.
pub fn class_variety(has_upper: bool, has_lower: bool, has_digit: bool, has_symbol: bool) -> (r:
    usize)
    ensures
        r == count_true(has_upper, has_lower, has_digit, has_symbol),
        r <= 4,
{
    let mut n: usize = 0;
    if has_upper {
        n = n + 1;
    }
    if has_lower {
        n = n + 1;
    }
    if has_digit {
        n = n + 1;
    }
    if has_symbol {
        n = n + 1;
    }
    n
}

/// Classifies a password of `length` characters using `variety` classes by the
/// decision table.
pub fn strength_for(length: usize, variety: usize) -> (r: Strength)
    ensures
        r == strength_of(length as nat, variety as nat),
{
    if length >= 16 && variety == 4 {
        Strength::VeryStrong
    } else if length >= 12 && variety >= 3 {
        Strength::Strong
    } else if length >= 10 && variety >= 2 {
        Strength::Medium
    } else {
        Strength::Weak
    }
}

/// Estimates the strength of `password` from its length in characters and the
/// number of character classes it uses. The result depends on the password
/// alone.
pub fn calculate_strength(password: &str) -> (r: Strength)
    ensures
        r == strength_of(password@.len(), variety_of(password@)),
{
    let n = password.unicode_len();
    let ghost s = password@;
    let mut upper = false;
    let mut lower = false;
    let mut digit = false;
    let mut symbol = false;
    let mut i: usize = 0;
    while i < n
        invariant
            n == s.len(),
            s == password@,
            i <= n,
            upper == exists|j: int| 0 <= j < i && uppercase_of(#[trigger] s[j]),
            lower == exists|j: int| 0 <= j < i && lowercase_of(#[trigger] s[j]),
            digit == exists|j: int| 0 <= j < i && is_decimal_digit(#[trigger] s[j]),
            symbol == exists|j: int| 0 <= j < i && is_symbol_char(#[trigger] s[j]),
        decreases n - i,
    {
        let c = password.get_char(i);
        let u = is_upper(c);
        let l = is_lower(c);
        let a = is_letter(c);
        let d = '0' <= c && c <= '9';
        upper = upper || u;
        lower = lower || l;
        digit = digit || d;
        symbol = symbol || (!a && !d);
        i = i + 1;
    }
    let variety = class_variety(upper, lower, digit, symbol);
    strength_for(n, variety)
}

/// Strength never falls as the length or the number of classes grows, for any
/// variety a password can have (at most four).
pub proof fn lemma_strength_monotone(l1: nat, v1: nat, l2: nat, v2: nat)
    requires
        l1 <= l2,
        v1 <= v2 <= 4,
    ensures
        rank(strength_of(l1, v1)) <= rank(strength_of(l2, v2)),
{
}

/// A password uses at most four classes.
pub proof fn lemma_variety_bounded(s: Seq<char>)
    ensures
        variety_of(s) <= 4,
{
}

} // verus!
