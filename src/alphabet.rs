//! Character classes and the alphabet they combine into.

use vstd::prelude::*;

verus! {

/// The 26 Latin capitals.
pub const UPPERCASE: &'static str = "ABCDEFGHIJKLMNOPQRSTUVWXYZ";

/// The 26 Latin lowercase letters; also the alphabet when no class is chosen.
pub const LOWERCASE: &'static str = "abcdefghijklmnopqrstuvwxyz";

/// The ten decimal digits.
pub const NUMBERS: &'static str = "0123456789";

/// The fixed punctuation set.
pub const SYMBOLS: &'static str = "!@#$%^&*()_+-=[]{}|;:,.<>?";

pub open spec fn upper_chars() -> Seq<char> {
    "ABCDEFGHIJKLMNOPQRSTUVWXYZ"@
}

pub open spec fn lower_chars() -> Seq<char> {
    "abcdefghijklmnopqrstuvwxyz"@
}

pub open spec fn number_chars() -> Seq<char> {
    "0123456789"@
}

pub open spec fn symbol_chars() -> Seq<char> {
    "!@#$%^&*()_+-=[]{}|;:,.<>?"@
}

/// Which character classes a password may draw from.
#[derive(Clone, Copy, Debug)]
pub struct PasswordOptions {
    pub include_uppercase: bool,
    pub include_lowercase: bool,
    pub include_numbers: bool,
    pub include_symbols: bool,
}

impl PasswordOptions {
    /// No class chosen: the alphabet falls back to the lowercase letters.
    pub open spec fn none_selected(self) -> bool {
        !self.include_uppercase && !self.include_lowercase && !self.include_numbers
            && !self.include_symbols
    }
}

pub open spec fn class_if(selected: bool, chars: Seq<char>) -> Seq<char> {
    if selected {
        chars
    } else {
        Seq::empty()
    }
}

/// The chosen classes in the fixed order uppercase, lowercase, numbers, symbols.
pub open spec fn selected_chars(o: PasswordOptions) -> Seq<char> {
    class_if(o.include_uppercase, upper_chars()) + class_if(o.include_lowercase, lower_chars())
        + class_if(o.include_numbers, number_chars()) + class_if(o.include_symbols, symbol_chars())
}

/// The alphabet of a password: the chosen classes, or the lowercase letters when
/// none is chosen.
pub open spec fn alphabet_of(o: PasswordOptions) -> Seq<char> {
    if o.none_selected() {
        lower_chars()
    } else {
        selected_chars(o)
    }
}

/// The alphabet is never empty.
pub proof fn lemma_alphabet_nonempty(o: PasswordOptions)
    ensures
        alphabet_of(o).len() > 0,
{
    reveal_strlit("ABCDEFGHIJKLMNOPQRSTUVWXYZ");
    reveal_strlit("abcdefghijklmnopqrstuvwxyz");
    reveal_strlit("0123456789");
    reveal_strlit("!@#$%^&*()_+-=[]{}|;:,.<>?");
}

pub open spec fn class_set(selected: bool, chars: Seq<char>) -> Set<char> {
    if selected {
        chars.to_set()
    } else {
        Set::empty()
    }
}

/// The union of the character sets of the chosen classes.
pub open spec fn selected_set(o: PasswordOptions) -> Set<char> {
    class_set(o.include_uppercase, upper_chars()).union(
        class_set(o.include_lowercase, lower_chars()),
    ).union(class_set(o.include_numbers, number_chars())).union(
        class_set(o.include_symbols, symbol_chars()),
    )
}

/// The alphabet's characters are exactly the union of the chosen classes' sets
/// (the lowercase letters when none is chosen), and no character occurs in it
/// twice.
pub proof fn lemma_alphabet_composition(o: PasswordOptions)
    ensures
        o.none_selected() ==> alphabet_of(o).to_set() == lower_chars().to_set(),
        !o.none_selected() ==> alphabet_of(o).to_set() == selected_set(o),
        alphabet_of(o).no_duplicates(),
{
    reveal_strlit("ABCDEFGHIJKLMNOPQRSTUVWXYZ");
    reveal_strlit("abcdefghijklmnopqrstuvwxyz");
    reveal_strlit("0123456789");
    reveal_strlit("!@#$%^&*()_+-=[]{}|;:,.<>?");
    let a = alphabet_of(o);
    if !o.none_selected() {
        let u = class_if(o.include_uppercase, upper_chars());
        let l = class_if(o.include_lowercase, lower_chars());
        let n = class_if(o.include_numbers, number_chars());
        let y = class_if(o.include_symbols, symbol_chars());
        assert forall|c: char| a.to_set().contains(c) <==> selected_set(o).contains(c) by {
            lemma_concat_contains(u, l, c);
            lemma_concat_contains(u + l, n, c);
            lemma_concat_contains(u + l + n, y, c);
        }
        assert(a.to_set() =~= selected_set(o));
    }
}

proof fn lemma_concat_contains(x: Seq<char>, y: Seq<char>, c: char)
    ensures
        (x + y).contains(c) <==> x.contains(c) || y.contains(c),
{
    if x.contains(c) {
        let i = choose|i: int| 0 <= i < x.len() && x[i] == c;
        assert((x + y)[i] == c);
    }
    if y.contains(c) {
        let j = choose|j: int| 0 <= j < y.len() && y[j] == c;
        assert((x + y)[x.len() + j] == c);
    }
    if (x + y).contains(c) {
        let k = choose|k: int| 0 <= k < (x + y).len() && (x + y)[k] == c;
        if k < x.len() {
            assert(x[k] == c);
        } else {
            assert(y[k - x.len()] == c);
        }
    }
}

/// Appends the characters of `s` to `v`, in order.
fn append_chars(v: &mut Vec<char>, s: &str)
    requires
        old(v)@.len() + s@.len() <= usize::MAX,
    ensures
        final(v)@ == old(v)@ + s@,
{
    let n = s.unicode_len();
    let mut i: usize = 0;
    while i < n
        invariant
            n == s@.len(),
            i <= n,
            v@ == old(v)@ + s@.subrange(0, i as int),
        decreases n - i,
    {
        let c = s.get_char(i);
        v.push(c);
        assert(s@.subrange(0, i + 1) == s@.subrange(0, i as int).push(c));
        i = i + 1;
    }
    assert(s@.subrange(0, n as int) == s@);
}

/// Builds the alphabet for `options`: the literal sets of the chosen classes in
/// the order uppercase, lowercase, numbers, symbols, or the lowercase letters
/// when no class is chosen.
pub fn build_alphabet(options: &PasswordOptions) -> (r: Vec<char>)
    ensures
        r@ == alphabet_of(*options),
        r@.len() > 0,
{
    proof {
        reveal_strlit("ABCDEFGHIJKLMNOPQRSTUVWXYZ");
        reveal_strlit("abcdefghijklmnopqrstuvwxyz");
        reveal_strlit("0123456789");
        reveal_strlit("!@#$%^&*()_+-=[]{}|;:,.<>?");
    }
    let mut v: Vec<char> = Vec::new();
    if options.include_uppercase {
        append_chars(&mut v, UPPERCASE);
    }
    assert(v@ == class_if(options.include_uppercase, upper_chars()));
    if options.include_lowercase {
        append_chars(&mut v, LOWERCASE);
    }
    if options.include_numbers {
        append_chars(&mut v, NUMBERS);
    }
    if options.include_symbols {
        append_chars(&mut v, SYMBOLS);
    }
    assert(v@ =~= selected_chars(*options));
    if v.len() == 0 {
        append_chars(&mut v, LOWERCASE);
        assert(v@ =~= lower_chars());
    }
    v
}

} // verus!
