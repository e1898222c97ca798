use password_generator::{calculate_strength, class_variety, strength_for, Strength};

#[test]
fn very_strong_example() {
    assert_eq!(calculate_strength("aB3!aB3!aB3!aB3!"), Strength::VeryStrong);
    assert_eq!(calculate_strength("aB3!aB3!aB3!aB3!").label(), "Very Strong");
}

#[test]
fn short_single_class_is_weak() {
    assert_eq!(calculate_strength("abcdefgh"), Strength::Weak);
    assert_eq!(calculate_strength("abcdefghij"), Strength::Weak);
}

#[test]
fn two_classes_at_ten_is_medium() {
    assert_eq!(calculate_strength("abcdefghiJ"), Strength::Medium);
    assert_eq!(calculate_strength("abcdefghiJ").label(), "Medium");
}

#[test]
fn three_classes_at_twelve_is_strong() {
    assert_eq!(calculate_strength("abcdefghiJ1x"), Strength::Strong);
    assert_eq!(calculate_strength("abcdefghiJ1"), Strength::Medium);
    assert_eq!(calculate_strength("Strong").label(), "Weak");
}

#[test]
fn four_classes_below_sixteen_is_strong() {
    assert_eq!(calculate_strength("aB3!aB3!aB3!aB3"), Strength::Strong);
}

#[test]
fn empty_password_is_weak() {
    assert_eq!(calculate_strength(""), Strength::Weak);
}

#[test]
fn symbols_count_as_a_class() {
    // length 10, lowercase and symbol
    assert_eq!(calculate_strength("abcdefghi!"), Strength::Medium);
    // space is neither letter nor digit
    assert_eq!(calculate_strength("abcdefghi "), Strength::Medium);
}

#[test]
fn unicode_letters_are_classified_by_case() {
    // 'É' is uppercase and 'é' lowercase: two classes over ten characters
    assert_eq!(calculate_strength("ééééééééééÉ"), Strength::Medium);
    assert_eq!(calculate_strength("éééééééééé"), Strength::Weak);
}

#[test]
fn table_rows() {
    assert_eq!(strength_for(16, 4), Strength::VeryStrong);
    assert_eq!(strength_for(15, 4), Strength::Strong);
    assert_eq!(strength_for(12, 3), Strength::Strong);
    assert_eq!(strength_for(11, 3), Strength::Medium);
    assert_eq!(strength_for(10, 2), Strength::Medium);
    assert_eq!(strength_for(9, 4), Strength::Weak);
    assert_eq!(strength_for(128, 1), Strength::Weak);
    assert_eq!(strength_for(100, 0), Strength::Weak);
}

#[test]
fn strength_never_falls_with_length_or_variety() {
    let rank = |s: Strength| match s {
        Strength::Weak => 0,
        Strength::Medium => 1,
        Strength::Strong => 2,
        Strength::VeryStrong => 3,
    };
    for l in 0usize..40 {
        for v in 0usize..=4 {
            assert!(rank(strength_for(l, v)) <= rank(strength_for(l + 1, v)));
            if v < 4 {
                assert!(rank(strength_for(l, v)) <= rank(strength_for(l, v + 1)));
            }
        }
    }
}

#[test]
fn variety_counts_flags() {
    assert_eq!(class_variety(false, false, false, false), 0);
    assert_eq!(class_variety(true, false, true, false), 2);
    assert_eq!(class_variety(true, true, true, true), 4);
}

#[test]
fn labels() {
    assert_eq!(Strength::Weak.label(), "Weak");
    assert_eq!(Strength::Strong.label(), "Strong");
}
