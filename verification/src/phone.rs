//! The phone-number rules: cleanup, country-code inference, validation.
//!
//! The specification level works on `Seq<char>`; the executable functions
//! work on `&str` / `String` and are proved to compute exactly the
//! corresponding spec functions.

use vstd::prelude::*;

verus! {

// ---------------------------------------------------------------------------
// Character classes
// ---------------------------------------------------------------------------

/// The punctuation characters (and the space) that are removed from a phone
/// string wherever they occur.
pub open spec fn is_special(c: char) -> bool {
    ||| c == '!'
    ||| c == '@'
    ||| c == '+'
    ||| c == '#'
    ||| c == '$'
    ||| c == '%'
    ||| c == '-'
    ||| c == '^'
    ||| c == '&'
    ||| c == '*'
    ||| c == '('
    ||| c == ')'
    ||| c == ' '
}

/// ASCII whitespace, trimmed from both ends of a phone string.
pub open spec fn is_space(c: char) -> bool {
    ||| c == ' '
    ||| c == '\t'
    ||| c == '\n'
    ||| c == '\r'
    ||| c == '\u{c}'
}

/// A decimal digit.
pub open spec fn is_digit(c: char) -> bool {
    '0' as u32 <= c as u32 && c as u32 <= '9' as u32
}

pub fn is_special_char(c: char) -> (b: bool)
    ensures
        b == is_special(c),
{
    c == '!' || c == '@' || c == '+' || c == '#' || c == '$' || c == '%' || c == '-' || c == '^'
        || c == '&' || c == '*' || c == '(' || c == ')' || c == ' '
}

pub fn is_space_char(c: char) -> (b: bool)
    ensures
        b == is_space(c),
{
    c == ' ' || c == '\t' || c == '\n' || c == '\r' || c == '\u{c}'
}

pub fn is_digit_char(c: char) -> (b: bool)
    ensures
        b == is_digit(c),
{
    let u = c as u32;
    '0' as u32 <= u && u <= '9' as u32
}

// ---------------------------------------------------------------------------
// Trimming
// ---------------------------------------------------------------------------

/// The sequence with its leading whitespace removed.
pub open spec fn trim_front(s: Seq<char>) -> Seq<char>
    decreases s.len(),
{
    if s.len() > 0 && is_space(s[0]) {
        trim_front(s.drop_first())
    } else {
        s
    }
}

/// The sequence with its trailing whitespace removed.
pub open spec fn trim_back(s: Seq<char>) -> Seq<char>
    decreases s.len(),
{
    if s.len() > 0 && is_space(s.last()) {
        trim_back(s.drop_last())
    } else {
        s
    }
}

/// The sequence with whitespace removed from both ends.
pub open spec fn trim(s: Seq<char>) -> Seq<char> {
    trim_back(trim_front(s))
}

proof fn lemma_trim_front_is_skip(s: Seq<char>, i: int)
    requires
        0 <= i <= s.len(),
        forall|k: int| 0 <= k < i ==> is_space(s[k]),
        i < s.len() ==> !is_space(s[i]),
    ensures
        trim_front(s) == s.skip(i),
    decreases i,
{
    if i == 0 {
        assert(s.skip(0) =~= s);
    } else {
        let t = s.drop_first();
        assert(forall|k: int| 0 <= k < i - 1 ==> is_space(#[trigger] t[k]));
        lemma_trim_front_is_skip(t, i - 1);
        assert(t.skip(i - 1) =~= s.skip(i));
    }
}

proof fn lemma_trim_back_is_take(s: Seq<char>, j: int)
    requires
        0 <= j <= s.len(),
        forall|k: int| j <= k < s.len() ==> is_space(s[k]),
        j > 0 ==> !is_space(s[j - 1]),
    ensures
        trim_back(s) == s.take(j),
    decreases s.len(),
{
    if j == s.len() {
        assert(s.take(j) =~= s);
    } else {
        let t = s.drop_last();
        assert(is_space(s.last()));
        assert(forall|k: int| j <= k < t.len() ==> is_space(#[trigger] t[k]));
        lemma_trim_back_is_take(t, j);
        assert(t.take(j) =~= s.take(j));
    }
}

/// Removes leading and trailing whitespace.
pub fn trim_ws(s: &str) -> (r: String)
    ensures
        r@ == trim(s@),
{
    let n = s.unicode_len();
    let mut i: usize = 0;
    while i < n && is_space_char(s.get_char(i))
        invariant
            i <= n,
            n == s@.len(),
            forall|k: int| 0 <= k < i ==> is_space(s@[k]),
        decreases n - i,
    {
        i = i + 1;
    }
    let mut j: usize = n;
    while j > i && is_space_char(s.get_char(j - 1))
        invariant
            i <= j <= n,
            n == s@.len(),
            forall|k: int| j <= k < n ==> is_space(s@[k]),
        decreases j,
    {
        j = j - 1;
    }
    let t = s.substring_char(i, j);
    proof {
        lemma_trim_front_is_skip(s@, i as int);
        let u = s@.skip(i as int);
        assert(forall|k: int| j - i <= k < u.len() ==> is_space(#[trigger] u[k]));
        lemma_trim_back_is_take(u, j - i);
        assert(u.take(j - i) =~= s@.subrange(i as int, j as int));
    }
    t.to_owned()
}

// ---------------------------------------------------------------------------
// The character-class strip
// ---------------------------------------------------------------------------

/// The sequence with every special character removed, wherever it occurs.
pub open spec fn strip_special(s: Seq<char>) -> Seq<char>
    decreases s.len(),
{
    if s.len() == 0 {
        Seq::empty()
    } else if is_special(s[0]) {
        strip_special(s.drop_first())
    } else {
        seq![s[0]] + strip_special(s.drop_first())
    }
}

/// The strip distributes over concatenation.
pub proof fn lemma_strip_special_append(a: Seq<char>, b: Seq<char>)
    ensures
        strip_special(a + b) == strip_special(a) + strip_special(b),
    decreases a.len(),
{
    if a.len() == 0 {
        assert(a + b =~= b);
        assert(strip_special(a) + strip_special(b) =~= strip_special(b));
    } else {
        assert((a + b).drop_first() =~= a.drop_first() + b);
        assert((a + b)[0] == a[0]);
        lemma_strip_special_append(a.drop_first(), b);
        if !is_special(a[0]) {
            assert(seq![a[0]] + (strip_special(a.drop_first()) + strip_special(b)) =~= (seq![a[0]]
                + strip_special(a.drop_first())) + strip_special(b));
        }
    }
}

/// A one-character sequence is kept or dropped whole.
proof fn lemma_strip_special_singleton(c: char)
    ensures
        is_special(c) ==> strip_special(seq![c]) == Seq::<char>::empty(),
        !is_special(c) ==> strip_special(seq![c]) == seq![c],
{
    reveal_with_fuel(strip_special, 2);
    assert(seq![c].drop_first() =~= Seq::<char>::empty());
    if !is_special(c) {
        assert(seq![c] + Seq::<char>::empty() =~= seq![c]);
    }
}

/// Removing the special characters is idempotent: a second pass over an
/// already stripped sequence changes nothing.
pub proof fn lemma_strip_special_idempotent(s: Seq<char>)
    ensures
        strip_special(strip_special(s)) == strip_special(s),
    decreases s.len(),
{
    if s.len() == 0 {
    } else if is_special(s[0]) {
        lemma_strip_special_idempotent(s.drop_first());
    } else {
        lemma_strip_special_idempotent(s.drop_first());
        lemma_strip_special_append(seq![s[0]], strip_special(s.drop_first()));
        lemma_strip_special_singleton(s[0]);
    }
}

/// Removes every special character from the string.
pub fn remove_special_chars(s: &str) -> (r: String)
    ensures
        r@ == strip_special(s@),
{
    let n = s.unicode_len();
    let mut r = String::new();
    let mut i: usize = 0;
    while i < n
        invariant
            i <= n,
            n == s@.len(),
            r@ == strip_special(s@.take(i as int)),
        decreases n - i,
    {
        let c = s.get_char(i);
        if !is_special_char(c) {
            let piece = s.substring_char(i, i + 1);
            proof {
                assert(piece@ =~= seq![s@[i as int]]);
            }
            r.append(piece);
        }
        proof {
            assert(s@.take(i + 1) =~= s@.take(i as int) + seq![s@[i as int]]);
            lemma_strip_special_append(s@.take(i as int), seq![s@[i as int]]);
            lemma_strip_special_singleton(s@[i as int]);
            if is_special(s@[i as int]) {
                assert(r@ + Seq::<char>::empty() =~= r@);
            }
        }
        i = i + 1;
    }
    proof {
        assert(s@.take(n as int) =~= s@);
    }
    r
}

// ---------------------------------------------------------------------------
// Dialing prefix and country-code inference
// ---------------------------------------------------------------------------

/// The sequence with a single leading domestic dialing prefix removed:
/// a leading `"00"` when present, otherwise a leading `"0"`, otherwise
/// nothing.
pub open spec fn drop_dialing_prefix(s: Seq<char>) -> Seq<char> {
    if s.len() >= 2 && s[0] == '0' && s[1] == '0' {
        s.skip(2)
    } else if s.len() >= 1 && s[0] == '0' {
        s.skip(1)
    } else {
        s
    }
}

/// The country code for Egypt.
pub open spec fn egypt_code() -> Seq<char> {
    seq!['2', '0']
}

/// The country code for Saudi Arabia.
pub open spec fn saudi_code() -> Seq<char> {
    seq!['9', '6', '6']
}

/// The country-code inference: a sequence whose first character is `'1'` is
/// read as an Egyptian subscriber number and gets `"20"` prepended; one whose
/// first character is `'5'` is read as a Saudi subscriber number and gets
/// `"966"` prepended; anything else is left unchanged.
pub open spec fn infer_country(s: Seq<char>) -> Seq<char> {
    if s.len() > 0 && s[0] == '1' {
        egypt_code() + s
    } else if s.len() > 0 && s[0] == '5' {
        saudi_code() + s
    } else {
        s
    }
}

/// On a sequence that starts with `'1'`, the inference prepends `"20"` and
/// keeps the whole original sequence: pure concatenation, no character lost.
pub proof fn lemma_infer_country_egypt(s: Seq<char>)
    requires
        s.len() > 0,
        s[0] == '1',
    ensures
        infer_country(s) == egypt_code() + s,
{
}

/// On a sequence that starts with `'5'`, the inference prepends `"966"` and
/// keeps the whole original sequence.
pub proof fn lemma_infer_country_saudi(s: Seq<char>)
    requires
        s.len() > 0,
        s[0] == '5',
    ensures
        infer_country(s) == saudi_code() + s,
{
}

/// Removes a single leading `"00"` or `"0"` dialing prefix.
pub fn remove_dialing_prefix(s: &str) -> (r: String)
    ensures
        r@ == drop_dialing_prefix(s@),
{
    let n = s.unicode_len();
    if n >= 2 && s.get_char(0) == '0' && s.get_char(1) == '0' {
        let t = s.substring_char(2, n);
        proof {
            assert(s@.subrange(2, n as int) =~= s@.skip(2));
        }
        t.to_owned()
    } else if n >= 1 && s.get_char(0) == '0' {
        let t = s.substring_char(1, n);
        proof {
            assert(s@.subrange(1, n as int) =~= s@.skip(1));
        }
        t.to_owned()
    } else {
        s.to_owned()
    }
}

/// Prepends the inferred country code.
pub fn add_country_prefix(s: &str) -> (r: String)
    ensures
        r@ == infer_country(s@),
{
    if s.unicode_len() == 0 {
        return s.to_owned();
    }
    let c = s.get_char(0);
    if c == '1' {
        proof {
            reveal_strlit("20");
            assert("20"@ =~= egypt_code());
        }
        "20".to_owned().concat(s)
    } else if c == '5' {
        proof {
            reveal_strlit("966");
            assert("966"@ =~= saudi_code());
        }
        "966".to_owned().concat(s)
    } else {
        s.to_owned()
    }
}

// ---------------------------------------------------------------------------
// The full normalization
// ---------------------------------------------------------------------------

/// The cleanup part of the normalization: trim, drop the dialing prefix,
/// strip the special characters, trim again.
pub open spec fn clean_phone(s: Seq<char>) -> Seq<char> {
    trim(strip_special(drop_dialing_prefix(trim(s))))
}

/// The full normalization: cleanup, then country-code inference.  The order
/// matters: the inference looks only at the first character left after the
/// cleanup, so a number that already carries a country code (first character
/// `'2'` or `'9'`) is never double-prefixed.
pub open spec fn normalize_phone(s: Seq<char>) -> Seq<char> {
    infer_country(clean_phone(s))
}

/// Normalizes a phone string: trims whitespace, drops a single leading
/// `"00"` or `"0"`, strips the special characters, trims again, and then
/// prepends the inferred country code.
pub fn normalize(s: &str) -> (r: String)
    ensures
        r@ == normalize_phone(s@),
{
    let t1 = trim_ws(s);
    let t2 = remove_dialing_prefix(t1.as_str());
    let t3 = remove_special_chars(t2.as_str());
    let t4 = trim_ws(t3.as_str());
    add_country_prefix(t4.as_str())
}

// ---------------------------------------------------------------------------
// Validation
// ---------------------------------------------------------------------------

/// Every character of the sequence is a decimal digit.
pub open spec fn all_digits(s: Seq<char>) -> bool {
    forall|i: int| 0 <= i < s.len() ==> is_digit(#[trigger] s[i])
}

/// `s` begins with the sequence `p`.
pub open spec fn begins_with(s: Seq<char>, p: Seq<char>) -> bool {
    s.len() >= p.len() && s.take(p.len() as int) == p
}

/// `s` is one country code followed by 9 to 11 decimal digits.
pub open spec fn valid_with_code(s: Seq<char>, code: Seq<char>) -> bool {
    &&& begins_with(s, code)
    &&& all_digits(s.skip(code.len() as int))
    &&& 9 <= s.len() - code.len() <= 11
}

/// The validator: a phone sequence is accepted exactly when it is the Egyptian
/// or the Saudi country code followed by 9 to 11 decimal digits.
pub open spec fn valid_phone(s: Seq<char>) -> bool {
    valid_with_code(s, egypt_code()) || valid_with_code(s, saudi_code())
}

/// A raw phone string is accepted exactly when its normalization is valid.
pub open spec fn accepts(s: Seq<char>) -> bool {
    valid_phone(normalize_phone(s))
}

/// All characters from position `k` on are decimal digits.
fn digits_from(s: &str, k: usize) -> (b: bool)
    requires
        k <= s@.len(),
    ensures
        b == all_digits(s@.skip(k as int)),
{
    let n = s.unicode_len();
    let mut i: usize = k;
    while i < n
        invariant
            k <= i <= n,
            n == s@.len(),
            forall|t: int| k <= t < i ==> is_digit(#[trigger] s@[t]),
        decreases n - i,
    {
        let c = s.get_char(i);
        if !is_digit_char(c) {
            proof {
                assert(s@.skip(k as int)[i - k] == s@[i as int]);
            }
            return false;
        }
        i = i + 1;
    }
    proof {
        assert forall|t: int| 0 <= t < s@.skip(k as int).len() implies is_digit(
            #[trigger] s@.skip(k as int)[t],
        ) by {
            assert(s@.skip(k as int)[t] == s@[t + k]);
        }
    }
    true
}

/// Tests a normalized phone string against the validator pattern.
pub fn is_valid_phone(s: &str) -> (b: bool)
    ensures
        b == valid_phone(s@),
{
    let n = s.unicode_len();
    if n >= 2 && s.get_char(0) == '2' && s.get_char(1) == '0' {
        proof {
            assert(s@.take(2) =~= egypt_code());
            if begins_with(s@, saudi_code()) {
                assert(s@.take(3)[0] == '9');
            }
        }
        if n < 11 || n > 13 {
            return false;
        }
        digits_from(s, 2)
    } else if n >= 3 && s.get_char(0) == '9' && s.get_char(1) == '6' && s.get_char(2) == '6' {
        proof {
            assert(s@.take(3) =~= saudi_code());
            if begins_with(s@, egypt_code()) {
                assert(s@.take(2)[0] == '2');
            }
        }
        if n < 12 || n > 14 {
            return false;
        }
        digits_from(s, 3)
    } else {
        proof {
            if begins_with(s@, egypt_code()) {
                assert(s@.take(2)[0] == s@[0] && s@.take(2)[1] == s@[1]);
            }
            if begins_with(s@, saudi_code()) {
                assert(s@.take(3)[0] == s@[0] && s@.take(3)[1] == s@[1] && s@.take(3)[2] == s@[2]);
            }
        }
        false
    }
}

} // verus!
