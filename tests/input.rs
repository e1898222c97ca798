use password_generator::{parse_length, parse_length_token, parse_yes_no, yes_no_token};

#[test]
fn length_rejects_out_of_range_and_garbage() {
    assert_eq!(parse_length("7"), None);
    assert_eq!(parse_length("129"), None);
    assert_eq!(parse_length("abc"), None);
    assert_eq!(parse_length(""), None);
    assert_eq!(parse_length("-8"), None);
    assert_eq!(parse_length("1 2"), None);
    assert_eq!(parse_length("+"), None);
    assert_eq!(parse_length("99999999999999999999999999"), None);
}

#[test]
fn length_accepts_whole_range() {
    for n in 8usize..=128 {
        assert_eq!(parse_length(&n.to_string()), Some(n));
    }
    assert_eq!(parse_length("8"), Some(8));
    assert_eq!(parse_length("128"), Some(128));
}

#[test]
fn length_trims_and_reads_like_std() {
    assert_eq!(parse_length("  16\n"), Some(16));
    assert_eq!(parse_length("12\r\n"), Some(12));
    assert_eq!(parse_length("+20"), Some(20));
    assert_eq!(parse_length("0008"), Some(8));
    assert_eq!(parse_length("0129"), None);
}

#[test]
fn length_token_is_not_trimmed() {
    assert_eq!(parse_length_token(" 16"), None);
    assert_eq!(parse_length_token("16"), Some(16));
}

#[test]
fn yes_no_accepts_exact_words() {
    for s in ["y", "Y", "yes", "YES", " yes\n", "Yes"] {
        assert_eq!(parse_yes_no(s), Some(true), "{:?}", s);
    }
    for s in ["n", "N", "no", "NO", "\tno \n"] {
        assert_eq!(parse_yes_no(s), Some(false), "{:?}", s);
    }
}

#[test]
fn yes_no_rejects_other_answers() {
    for s in ["yep", "1", "true", "", "ye", "nope", "y e s", "0"] {
        assert_eq!(parse_yes_no(s), None, "{:?}", s);
    }
}

#[test]
fn yes_no_token_needs_lowercase() {
    assert_eq!(yes_no_token("yes"), Some(true));
    assert_eq!(yes_no_token("YES"), None);
    assert_eq!(yes_no_token("no"), Some(false));
}
