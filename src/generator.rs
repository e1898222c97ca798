//! Password synthesis: a linear-congruential sequence of seeds, each selecting
//! one character of the alphabet.
//!
//! The generator is predictable and must not be used where secrecy matters.

use std::time::{Duration, SystemTime, UNIX_EPOCH};

use vstd::prelude::*;
use vstd::arithmetic::div_mod::{
    lemma_add_mod_noop, lemma_mod_mod, lemma_mod_sub_multiples_vanish, lemma_small_mod,
};
use crate::alphabet::{
    alphabet_of, build_alphabet, lemma_alphabet_nonempty, lower_chars, PasswordOptions,
};

verus! {

/// Modulus of the seed sequence, 2^31.
pub const SEED_MODULUS: u128 = 0x8000_0000;

/// Multiplier of the seed sequence.
pub const MULTIPLIER: u128 = 1103515245;

/// Increment of the seed sequence.
pub const INCREMENT: u128 = 12345;

/// One step of the sequence: `(seed * 1103515245 + 12345) mod 2^31`.
pub open spec fn lcg_next(seed: int) -> int {
    (seed * 1103515245 + 12345) % 0x8000_0000
}

/// The seed after `n` steps from `seed`.
pub open spec fn seed_after(seed: int, n: nat) -> int
    decreases n,
{
    if n == 0 {
        seed
    } else {
        lcg_next(seed_after(seed, (n - 1) as nat))
    }
}

/// The password of `length` characters drawn from `alphabet` starting from
/// `seed`: position `i` takes the character at the `(i + 1)`-th seed modulo the
/// alphabet's length.
pub open spec fn draw(alphabet: Seq<char>, length: nat, seed: int) -> Seq<char> {
    Seq::new(length, |i: int| alphabet[seed_after(seed, (i + 1) as nat) % alphabet.len() as int])
}

/// The password that `options` and `seed` give.
pub open spec fn password_of(length: nat, options: PasswordOptions, seed: int) -> Seq<char> {
    draw(alphabet_of(options), length, seed)
}

proof fn lemma_wrapping_step(seed: u128)
    ensures
        seed.wrapping_mul(MULTIPLIER).wrapping_add(INCREMENT) % SEED_MODULUS == lcg_next(
            seed as int,
        ),
{
    let w: int = u128::MAX as int + 1;
    let m: int = 0x8000_0000;
    let x: int = seed as int * 1103515245;
    let w1: int = x % w;
    assert(seed.wrapping_mul(MULTIPLIER) as int == w1);
    let w2: int = seed.wrapping_mul(MULTIPLIER).wrapping_add(INCREMENT) as int;
    assert(w2 == (w1 + 12345) % w) by {
        if w1 + 12345 >= w {
            lemma_small_mod((w1 + 12345 - w) as nat, w as nat);
            assert((w1 + 12345) % w == (w1 + 12345 - w) % w) by {
                lemma_mod_sub_multiples_vanish(w1 + 12345, w);
            }
        } else {
            lemma_small_mod((w1 + 12345) as nat, w as nat);
        }
    }
    assert(w == m * 0x2_0000_0000_0000_0000_0000_0000);
    lemma_mod_mod(w1 + 12345, m, 0x2_0000_0000_0000_0000_0000_0000);
    lemma_mod_mod(x, m, 0x2_0000_0000_0000_0000_0000_0000);
    lemma_add_mod_noop(w1, 12345, m);
    lemma_add_mod_noop(x, 12345, m);
}

/// Advances the seed by one step of the sequence.
pub fn next_seed(seed: u128) -> (r: u128)
    ensures
        r as int == lcg_next(seed as int),
        r < SEED_MODULUS,
{
    proof {
        lemma_wrapping_step(seed);
    }
    seed.wrapping_mul(MULTIPLIER).wrapping_add(INCREMENT) % SEED_MODULUS
}

/// Relies on `String::push`: appends one character to the end of the string.
#[verifier::external_body]
fn push_char(s: &mut String, c: char)
    ensures
        final(s)@ == old(s)@.push(c),
{
    s.push(c)
}

/// Draws a password of `length` characters from the alphabet of `options`,
/// with the seed sequence starting at `seed`. The same arguments always give
/// the same password.
pub fn generate_password_with_seed(length: usize, options: PasswordOptions, seed: u128) -> (r:
    String)
    ensures
        r@ == password_of(length as nat, options, seed as int),
{
    let chars = build_alphabet(&options);
    let mut password = String::new();
    let mut s: u128 = seed;
    let mut k: usize = 0;
    while k < length
        invariant
            k <= length,
            chars@ == alphabet_of(options),
            chars@.len() > 0,
            s as int == seed_after(seed as int, k as nat),
            password@ == draw(chars@, k as nat, seed as int),
        decreases length - k,
    {
        s = next_seed(s);
        let index = (s as usize) % chars.len();
        let c = chars[index];
        push_char(&mut password, c);
        assert(password@ =~= draw(chars@, (k + 1) as nat, seed as int));
        k = k + 1;
    }
    password
}

#[verifier::external_type_specification]
#[verifier::external_body]
pub struct ExSystemTime(SystemTime);

/// Relies on `SystemTime::now`: the current wall-clock time. Nothing is
/// promised of the value.
#[verifier::external_body]
fn clock_now() -> SystemTime {
    SystemTime::now()
}

/// Relies on `SystemTime::duration_since`: the time elapsed since the Unix
/// epoch, `None` when `t` is earlier. Nothing is promised of the value.
#[verifier::external_body]
fn since_epoch(t: &SystemTime) -> Option<Duration> {
    t.duration_since(UNIX_EPOCH).ok()
}

/// Relies on `Duration::as_nanos`: the whole nanoseconds of `d`. Nothing is
/// promised of the value.
#[verifier::external_body]
fn duration_nanos(d: &Duration) -> u128 {
    d.as_nanos()
}

/// Draws a password of `length` characters from the alphabet of `options`,
/// seeded from the wall clock. A clock that reads before the Unix epoch seeds
/// the sequence with zero.
pub fn generate_password(length: usize, options: PasswordOptions) -> (r: String)
    ensures
        exists|seed: u128| r@ == #[trigger] password_of(length as nat, options, seed as int),
        r@.len() == length,
        forall|i: int| 0 <= i < r@.len() ==> alphabet_of(options).contains(#[trigger] r@[i]),
{
    let now = clock_now();
    let seed: u128 = match since_epoch(&now) {
        Some(d) => duration_nanos(&d),
        None => 0,
    };
    let r = generate_password_with_seed(length, options, seed);
    proof {
        lemma_password_in_alphabet(length as nat, options, seed as int);
    }
    r
}

/// A password has exactly the requested length, and every character of it
/// belongs to the alphabet of the options.
pub proof fn lemma_password_in_alphabet(length: nat, options: PasswordOptions, seed: int)
    ensures
        password_of(length, options, seed).len() == length,
        forall|i: int|
            0 <= i < length ==> alphabet_of(options).contains(
                #[trigger] password_of(length, options, seed)[i],
            ),
{
    lemma_alphabet_nonempty(options);
    let a = alphabet_of(options);
    assert forall|i: int| 0 <= i < length implies a.contains(
        #[trigger] password_of(length, options, seed)[i],
    ) by {
        let j = seed_after(seed, (i + 1) as nat) % a.len() as int;
        assert(0 <= j < a.len());
        assert(password_of(length, options, seed)[i] == a[j]);
    }
}

/// Two passwords drawn with the same length, options and seed are equal: the
/// clock enters only through the seed.
pub proof fn lemma_same_seed_same_password(
    length: nat,
    options: PasswordOptions,
    seed: int,
    first: Seq<char>,
    second: Seq<char>,
)
    requires
        first == password_of(length, options, seed),
        second == password_of(length, options, seed),
    ensures
        first == second,
{
}

/// With no class chosen, every character of a password is a lowercase letter.
pub proof fn lemma_fallback_lowercase(length: nat, options: PasswordOptions, seed: int)
    requires
        options.none_selected(),
    ensures
        forall|i: int|
            0 <= i < length ==> lower_chars().contains(
                #[trigger] password_of(length, options, seed)[i],
            ),
{
    lemma_password_in_alphabet(length, options, seed);
}

} // verus!
