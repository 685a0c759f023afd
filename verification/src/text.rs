//! Small verified utilities over string slices: character classes, search,
//! trimming, splitting and decimal conversion, each specified over the
//! `Seq<char>` view of the slice.

use vstd::prelude::*;
use vstd::string::StrSliceExecFns;

verus! {

/// An ASCII letter, the character class that starts an event key.
pub open spec fn is_alpha(c: char) -> bool {
    (97 <= c as u32 && c as u32 <= 122) || (65 <= c as u32 && c as u32 <= 90)
}

/// ASCII whitespace, the class stripped by [`trim`].
pub open spec fn is_space(c: char) -> bool {
    c as u32 == 32 || c as u32 == 9 || c as u32 == 10 || c as u32 == 13
}

/// An ASCII decimal digit.
pub open spec fn is_digit(c: char) -> bool {
    48 <= c as u32 && c as u32 <= 57
}

/// Numeric value of a digit character; `0` for anything else.
pub open spec fn digit_val(c: char) -> nat {
    if is_digit(c) {
        (c as u32 - 48) as nat
    } else {
        0
    }
}

/// Index of the first ASCII letter at or after `i`, if any.
pub open spec fn first_alpha_from(s: Seq<char>, i: int) -> Option<int>
    decreases s.len() - i,
{
    if i < 0 || i >= s.len() {
        None
    } else if is_alpha(s[i]) {
        Some(i)
    } else {
        first_alpha_from(s, i + 1)
    }
}

/// Index of the first occurrence of `c` at or after `i`, if any.
pub open spec fn first_char_from(s: Seq<char>, c: char, i: int) -> Option<int>
    decreases s.len() - i,
{
    if i < 0 || i >= s.len() {
        None
    } else if s[i] == c {
        Some(i)
    } else {
        first_char_from(s, c, i + 1)
    }
}

/// Index of the first character at or after `i` that is not ASCII
/// whitespace, if any.
pub open spec fn first_non_space_from(s: Seq<char>, i: int) -> Option<int>
    decreases s.len() - i,
{
    if i < 0 || i >= s.len() {
        None
    } else if !is_space(s[i]) {
        Some(i)
    } else {
        first_non_space_from(s, i + 1)
    }
}

/// Index of the last character at or before `i` that is not ASCII
/// whitespace, if any.
pub open spec fn last_non_space_before(s: Seq<char>, i: int) -> Option<int>
    decreases i + 1,
{
    if i < 0 || i >= s.len() {
        None
    } else if !is_space(s[i]) {
        Some(i)
    } else {
        last_non_space_before(s, i - 1)
    }
}

/// Whether `pat` occurs in `s` starting exactly at index `i`.
pub open spec fn matches_at(s: Seq<char>, pat: Seq<char>, i: int) -> bool {
    0 <= i && i + pat.len() <= s.len() && s.subrange(i, i + pat.len() as int) == pat
}

/// Index of the first occurrence of `pat` at or after `i`, if any.
pub open spec fn first_match_from(s: Seq<char>, pat: Seq<char>, i: int) -> Option<int>
    decreases s.len() + 1 - i,
{
    if i < 0 || i > s.len() - pat.len() {
        None
    } else if matches_at(s, pat, i) {
        Some(i)
    } else {
        first_match_from(s, pat, i + 1)
    }
}

/// Index of the last occurrence of `pat` at or before `i`, if any.
pub open spec fn last_match_before(s: Seq<char>, pat: Seq<char>, i: int) -> Option<int>
    decreases i + 1,
{
    if i < 0 || i > s.len() - pat.len() {
        None
    } else if matches_at(s, pat, i) {
        Some(i)
    } else {
        last_match_before(s, pat, i - 1)
    }
}

/// `s` with leading and trailing ASCII whitespace removed.
pub open spec fn trimmed(s: Seq<char>) -> Seq<char> {
    match first_non_space_from(s, 0) {
        None => Seq::empty(),
        Some(a) => match last_non_space_before(s, s.len() - 1) {
            None => Seq::empty(),
            Some(b) => s.subrange(a, b + 1),
        },
    }
}

/// The number denoted by a sequence of digit characters, most significant
/// first.
pub open spec fn digits_val(s: Seq<char>) -> nat
    decreases s.len(),
{
    if s.len() == 0 {
        0
    } else {
        digits_val(s.drop_last()) * 10 + digit_val(s.last())
    }
}

/// Whether every character of `s` is an ASCII decimal digit.
pub open spec fn all_digits(s: Seq<char>) -> bool {
    forall|i: int| 0 <= i < s.len() ==> is_digit(s[i])
}

/// The `u32` denoted by `s`, if `s` is a non-empty run of digits whose
/// value fits.
pub open spec fn spec_parse_u32(s: Seq<char>) -> Option<u32> {
    if s.len() > 0 && all_digits(s) && digits_val(s) <= u32::MAX {
        Some(digits_val(s) as u32)
    } else {
        None
    }
}

/// Decimal rendering of a natural number, most significant digit first.
pub open spec fn dec_str(n: nat) -> Seq<char>
    decreases n,
{
    if n < 10 {
        seq![dec_digit(n)]
    } else {
        dec_str(n / 10) + seq![dec_digit(n % 10)]
    }
}

/// The digit character for a value below ten; `'0'` for anything else.
pub open spec fn dec_digit(n: nat) -> char {
    if n == 1 {
        '1'
    } else if n == 2 {
        '2'
    } else if n == 3 {
        '3'
    } else if n == 4 {
        '4'
    } else if n == 5 {
        '5'
    } else if n == 6 {
        '6'
    } else if n == 7 {
        '7'
    } else if n == 8 {
        '8'
    } else if n == 9 {
        '9'
    } else {
        '0'
    }
}

/// Whether `c` is an ASCII letter.
pub fn alpha(c: char) -> (r: bool)
    ensures
        r == is_alpha(c),
{
    let u = c as u32;
    (97 <= u && u <= 122) || (65 <= u && u <= 90)
}

/// Whether `c` is ASCII whitespace.
pub fn space(c: char) -> (r: bool)
    ensures
        r == is_space(c),
{
    let u = c as u32;
    u == 32 || u == 9 || u == 10 || u == 13
}

/// Whether `c` is an ASCII decimal digit.
pub fn digit(c: char) -> (r: bool)
    ensures
        r == is_digit(c),
{
    let u = c as u32;
    48 <= u && u <= 57
}

/// Character-wise equality of two string slices.
pub fn str_eq(a: &str, b: &str) -> (r: bool)
    ensures
        r == (a@ == b@),
{
    let a_len = a.unicode_len();
    let b_len = b.unicode_len();
    if a_len != b_len {
        return false;
    }
    let mut i: usize = 0;
    while i < a_len
        invariant
            i <= a_len,
            a_len == a@.len(),
            b_len == b@.len(),
            a_len == b_len,
            forall|j: int| 0 <= j < i ==> a@[j] == b@[j],
        decreases a_len - i,
    {
        if a.get_char(i) != b.get_char(i) {
            return false;
        }
        i += 1;
    }
    proof {
        assert(a@ =~= b@);
    }
    true
}

/// Finds the first ASCII letter of `s`.
pub fn find_alpha(s: &str) -> (r: Option<usize>)
    ensures
        match r {
            Some(i) => i < s@.len() && first_alpha_from(s@, 0) == Some(i as int),
            None => first_alpha_from(s@, 0) is None,
        },
{
    let n = s.unicode_len();
    let mut i: usize = 0;
    while i < n
        invariant
            i <= n,
            n == s@.len(),
            first_alpha_from(s@, 0) == first_alpha_from(s@, i as int),
        decreases n - i,
    {
        if alpha(s.get_char(i)) {
            return Some(i);
        }
        i += 1;
    }
    None
}

/// Finds the first occurrence of `c` in `s`.
pub fn find_char(s: &str, c: char) -> (r: Option<usize>)
    ensures
        match r {
            Some(i) => i < s@.len() && first_char_from(s@, c, 0) == Some(i as int),
            None => first_char_from(s@, c, 0) is None,
        },
{
    let n = s.unicode_len();
    let mut i: usize = 0;
    while i < n
        invariant
            i <= n,
            n == s@.len(),
            first_char_from(s@, c, 0) == first_char_from(s@, c, i as int),
        decreases n - i,
    {
        if s.get_char(i) == c {
            return Some(i);
        }
        i += 1;
    }
    None
}

/// Strips leading and trailing ASCII whitespace from `s`.
pub fn trim<'a>(s: &'a str) -> (r: &'a str)
    ensures
        r@ == trimmed(s@),
{
    let n = s.unicode_len();
    let mut a: usize = 0;
    loop
        invariant
            a <= n,
            n == s@.len(),
            first_non_space_from(s@, 0) == first_non_space_from(s@, a as int),
        ensures
            a <= n,
            n == s@.len(),
            a == n ==> first_non_space_from(s@, 0) is None,
            a < n ==> first_non_space_from(s@, 0) == Some(a as int) && !is_space(s@[a as int]),
        decreases n - a,
    {
        if a == n {
            break;
        }
        if !space(s.get_char(a)) {
            break;
        }
        a += 1;
    }
    if a == n {
        proof {
            assert(s@.subrange(0, 0) =~= Seq::<char>::empty());
        }
        return s.substring_char(0, 0);
    }
    let mut b: usize = n - 1;
    loop
        invariant
            a < n,
            n == s@.len(),
            a <= b < n,
            !is_space(s@[a as int]),
            last_non_space_before(s@, n - 1) == last_non_space_before(s@, b as int),
        ensures
            a <= b < n,
            last_non_space_before(s@, n - 1) == Some(b as int),
        decreases b,
    {
        if !space(s.get_char(b)) {
            break;
        }
        proof {
            assert(b != a);
        }
        b = b - 1;
    }
    s.substring_char(a, b + 1)
}

/// Finds the first occurrence of `pat` in `s`.
pub fn find_str(s: &str, pat: &str) -> (r: Option<usize>)
    ensures
        match r {
            Some(i) => i + pat@.len() <= s@.len() && first_match_from(s@, pat@, 0) == Some(i as int),
            None => first_match_from(s@, pat@, 0) is None,
        },
{
    let n = s.unicode_len();
    let m = pat.unicode_len();
    if m > n {
        return None;
    }
    if m == 0 {
        proof {
            assert(s@.subrange(0, 0) =~= pat@);
        }
        return Some(0);
    }
    let mut i: usize = 0;
    while i <= n - m
        invariant
            0 < m <= n,
            i <= n - m + 1,
            n == s@.len(),
            m == pat@.len(),
            first_match_from(s@, pat@, 0) == first_match_from(s@, pat@, i as int),
        decreases n - i,
    {
        if str_eq(s.substring_char(i, i + m), pat) {
            proof {
                assert(matches_at(s@, pat@, i as int));
            }
            return Some(i);
        }
        proof {
            assert(!matches_at(s@, pat@, i as int));
        }
        i += 1;
    }
    None
}

/// Finds the last occurrence of `pat` in `s`.
pub fn rfind_str(s: &str, pat: &str) -> (r: Option<usize>)
    ensures
        match r {
            Some(i) => i + pat@.len() <= s@.len() && last_match_before(s@, pat@, s@.len() - pat@.len()) == Some(
                i as int,
            ),
            None => last_match_before(s@, pat@, s@.len() - pat@.len()) is None,
        },
{
    let n = s.unicode_len();
    let m = pat.unicode_len();
    if m > n {
        return None;
    }
    let mut i: usize = n - m;
    loop
        invariant
            m <= n,
            i <= n - m,
            n == s@.len(),
            m == pat@.len(),
            last_match_before(s@, pat@, n - m) == last_match_before(s@, pat@, i as int),
        decreases i,
    {
        if str_eq(s.substring_char(i, i + m), pat) {
            proof {
                assert(s@.subrange(i as int, i + m) == pat@);
                assert(matches_at(s@, pat@, i as int));
            }
            return Some(i);
        }
        proof {
            assert(!matches_at(s@, pat@, i as int));
        }
        if i == 0 {
            proof {
                assert(last_match_before(s@, pat@, -1) is None);
                assert(last_match_before(s@, pat@, 0) is None);
            }
            return None;
        }
        i = i - 1;
    }
}

/// Whether `s` begins with `pat`.
pub fn starts_with_str(s: &str, pat: &str) -> (r: bool)
    ensures
        r == matches_at(s@, pat@, 0),
{
    let n = s.unicode_len();
    let m = pat.unicode_len();
    if m > n {
        return false;
    }
    str_eq(s.substring_char(0, m), pat)
}

/// Parses a non-empty run of ASCII decimal digits as a `u32`.
pub fn parse_u32(s: &str) -> (r: Option<u32>)
    ensures
        r == spec_parse_u32(s@),
{
    let n = s.unicode_len();
    if n == 0 {
        return None;
    }
    let mut acc: u64 = 0;
    let mut i: usize = 0;
    while i < n
        invariant
            i <= n,
            n == s@.len(),
            n > 0,
            acc == digits_val(s@.take(i as int)),
            acc <= u32::MAX,
            all_digits(s@.take(i as int)),
        decreases n - i,
    {
        let c = s.get_char(i);
        if !digit(c) {
            proof {
                assert(!all_digits(s@));
            }
            return None;
        }
        let d = (c as u32 - 48) as u64;
        proof {
            assert(s@.take(i + 1).drop_last() =~= s@.take(i as int));
            assert(s@.take(i + 1).last() == s@[i as int]);
        }
        acc = acc * 10 + d;
        if acc > u32::MAX as u64 {
            proof {
                lemma_digits_val_prefix(s@, i + 1);
            }
            return None;
        }
        i += 1;
    }
    proof {
        assert(s@.take(n as int) =~= s@);
    }
    Some(acc as u32)
}

/// A successful character search returns the first index carrying the
/// character.
pub proof fn lemma_first_char_some(s: Seq<char>, c: char, i: int)
    requires
        0 <= i,
        first_char_from(s, c, i) is Some,
    ensures
        i <= first_char_from(s, c, i)->0 < s.len(),
        s[first_char_from(s, c, i)->0] == c,
        forall|j: int| i <= j < first_char_from(s, c, i)->0 ==> s[j] != c,
    decreases s.len() - i,
{
    if i < s.len() && s[i] != c {
        lemma_first_char_some(s, c, i + 1);
    }
}

/// The value of a digit string is at least the value of any of its
/// prefixes.
proof fn lemma_digits_val_prefix(s: Seq<char>, i: int)
    requires
        0 <= i <= s.len(),
    ensures
        digits_val(s) >= digits_val(s.take(i)),
    decreases s.len() - i,
{
    if i < s.len() {
        lemma_digits_val_prefix(s, i + 1);
        assert(s.take(i + 1).drop_last() =~= s.take(i));
        assert(digits_val(s.take(i + 1)) == digits_val(s.take(i)) * 10 + digit_val(s.take(i + 1).last()));
    } else {
        assert(s.take(i) =~= s);
    }
}

/// A one-character string slice for a digit value below ten.
fn dec_digit_str(n: usize) -> (r: &'static str)
    requires
        n < 10,
    ensures
        r@ =~= seq![dec_digit(n as nat)],
{
    if n == 1 {
        proof { reveal_strlit("1"); }
        "1"
    } else if n == 2 {
        proof { reveal_strlit("2"); }
        "2"
    } else if n == 3 {
        proof { reveal_strlit("3"); }
        "3"
    } else if n == 4 {
        proof { reveal_strlit("4"); }
        "4"
    } else if n == 5 {
        proof { reveal_strlit("5"); }
        "5"
    } else if n == 6 {
        proof { reveal_strlit("6"); }
        "6"
    } else if n == 7 {
        proof { reveal_strlit("7"); }
        "7"
    } else if n == 8 {
        proof { reveal_strlit("8"); }
        "8"
    } else if n == 9 {
        proof { reveal_strlit("9"); }
        "9"
    } else {
        proof { reveal_strlit("0"); }
        "0"
    }
}

/// Renders `n` in decimal, most significant digit first.
pub fn dec_string(n: usize) -> (r: String)
    ensures
        r@ == dec_str(n as nat),
    decreases n,
{
    if n < 10 {
        let mut s = String::new();
        s.append(dec_digit_str(n));
        s
    } else {
        let mut s = dec_string(n / 10);
        s.append(dec_digit_str(n % 10));
        s
    }
}

} // verus!
