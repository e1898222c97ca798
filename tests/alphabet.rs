use std::collections::BTreeSet;

use password_generator::{build_alphabet, PasswordOptions, LOWERCASE, NUMBERS, SYMBOLS, UPPERCASE};

fn options(upper: bool, lower: bool, numbers: bool, symbols: bool) -> PasswordOptions {
    PasswordOptions {
        include_uppercase: upper,
        include_lowercase: lower,
        include_numbers: numbers,
        include_symbols: symbols,
    }
}

#[test]
fn literal_sets_have_expected_sizes() {
    assert_eq!(UPPERCASE.chars().count(), 26);
    assert_eq!(LOWERCASE.chars().count(), 26);
    assert_eq!(NUMBERS.chars().count(), 10);
    assert_eq!(SYMBOLS.chars().count(), 26);
    assert_eq!(SYMBOLS, "!@#$%^&*()_+-=[]{}|;:,.<>?");
}

#[test]
fn alphabet_keeps_class_order() {
    let a = build_alphabet(&options(true, true, true, true));
    let text: String = a.iter().collect();
    assert_eq!(text, format!("{}{}{}{}", UPPERCASE, LOWERCASE, NUMBERS, SYMBOLS));
    assert_eq!(a.len(), 88);
}

#[test]
fn alphabet_of_numbers_and_symbols() {
    let a: String = build_alphabet(&options(false, false, true, true)).iter().collect();
    assert_eq!(a, "0123456789!@#$%^&*()_+-=[]{}|;:,.<>?");
}

#[test]
fn empty_selection_falls_back_to_lowercase() {
    let a: String = build_alphabet(&options(false, false, false, false)).iter().collect();
    assert_eq!(a, LOWERCASE);
}

#[test]
fn alphabet_set_is_union_without_duplicates() {
    let classes = [UPPERCASE, LOWERCASE, NUMBERS, SYMBOLS];
    for bits in 0u8..16 {
        let o = options(bits & 1 != 0, bits & 2 != 0, bits & 4 != 0, bits & 8 != 0);
        let a = build_alphabet(&o);
        let mut expected: BTreeSet<char> = BTreeSet::new();
        for (k, class) in classes.iter().enumerate() {
            if bits & (1 << k) != 0 {
                expected.extend(class.chars());
            }
        }
        if bits == 0 {
            expected.extend(LOWERCASE.chars());
        }
        let got: BTreeSet<char> = a.iter().copied().collect();
        assert_eq!(got, expected);
        assert_eq!(got.len(), a.len());
    }
}
