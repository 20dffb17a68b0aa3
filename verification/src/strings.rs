//! Verified helpers for working with strings, used across the crate.

use vstd::prelude::*;
use vstd::string::StrSliceExecFns;
use vstd::string::StringExecFns;

verus! {

/// Compares two string slices character by character.
pub fn str_eq(a: &str, b: &str) -> (r: bool)
    ensures
        r == (a@ == b@),
{
    let a_len = a.unicode_len();
    let b_len = b.unicode_len();
    if a_len != b_len {
        assert(a@ != b@) by {
            assert(a@.len() != b@.len());
        }
        return false;
    }
    let mut i: usize = 0;
    while i < a_len
        invariant
            a_len == a@.len(),
            b_len == b@.len(),
            a_len == b_len,
            i <= a_len,
            forall|j: int| 0 <= j < i ==> a@[j] == b@[j],
        decreases a_len - i,
    {
        if a.get_char(i) != b.get_char(i) {
            return false;
        }
        i += 1;
    }
    proof {
        assert(a@ =~= b@);
    }
    true
}

/// True when `s` ends with the suffix `t`.
pub open spec fn spec_ends_with(s: Seq<char>, t: Seq<char>) -> bool {
    s.len() >= t.len() && s.skip(s.len() - t.len()) == t
}

/// Checks whether `s` ends with the suffix `t`.
pub fn str_ends_with(s: &str, t: &str) -> (r: bool)
    ensures
        r == spec_ends_with(s@, t@),
{
    let s_len = s.unicode_len();
    let t_len = t.unicode_len();
    if s_len < t_len {
        return false;
    }
    let offset = s_len - t_len;
    let mut i: usize = 0;
    while i < t_len
        invariant
            s_len == s@.len(),
            t_len == t@.len(),
            t_len <= s_len,
            offset == s_len - t_len,
            i <= t_len,
            forall|j: int| 0 <= j < i ==> s@[offset + j] == t@[j],
        decreases t_len - i,
    {
        if s.get_char(offset + i) != t.get_char(i) {
            assert(s@.skip(offset as int)[i as int] != t@[i as int]);
            return false;
        }
        i += 1;
    }
    proof {
        assert(s@.skip(offset as int) =~= t@);
    }
    true
}

/// True when the character `c` occurs in `s`.
pub open spec fn spec_contains_char(s: Seq<char>, c: char) -> bool {
    exists|i: int| 0 <= i < s.len() && s[i] == c
}

/// Checks whether the character `c` occurs in `s`.
pub fn str_contains_char(s: &str, c: char) -> (r: bool)
    ensures
        r == spec_contains_char(s@, c),
{
    let len = s.unicode_len();
    let mut i: usize = 0;
    while i < len
        invariant
            len == s@.len(),
            i <= len,
            forall|j: int| 0 <= j < i ==> s@[j] != c,
        decreases len - i,
    {
        if s.get_char(i) == c {
            return true;
        }
        i += 1;
    }
    false
}

/// The index of the first occurrence of `c` in `s`; meaningful only when
/// `c` occurs.
pub open spec fn spec_first_index_of(s: Seq<char>, c: char) -> int
    decreases s.len(),
{
    if s.len() == 0 {
        0
    } else if s[0] == c {
        0
    } else {
        1 + spec_first_index_of(s.drop_first(), c)
    }
}

/// What `spec_first_index_of` returns when `c` occurs: the first match.
pub proof fn lemma_first_index_of(s: Seq<char>, c: char)
    requires
        spec_contains_char(s, c),
    ensures
        0 <= spec_first_index_of(s, c) < s.len(),
        s[spec_first_index_of(s, c)] == c,
        forall|j: int| 0 <= j < spec_first_index_of(s, c) ==> s[j] != c,
    decreases s.len(),
{
    if s[0] != c {
        assert(spec_contains_char(s.drop_first(), c)) by {
            let i = choose|i: int| 0 <= i < s.len() && s[i] == c;
            assert(s.drop_first()[i - 1] == c);
        }
        lemma_first_index_of(s.drop_first(), c);
        let k = spec_first_index_of(s.drop_first(), c);
        assert(s[k + 1] == s.drop_first()[k]);
        assert(forall|j: int| 1 <= j < k + 1 ==> s[j] == s.drop_first()[j - 1]);
    }
}

/// The index of the first occurrence of `c` in `s`.
pub fn first_index_of(s: &str, c: char) -> (r: usize)
    requires
        spec_contains_char(s@, c),
    ensures
        r == spec_first_index_of(s@, c),
        r < s@.len(),
        s@[r as int] == c,
{
    proof {
        lemma_first_index_of(s@, c);
    }
    let len = s.unicode_len();
    let mut i: usize = 0;
    while i < len
        invariant
            len == s@.len(),
            i <= len,
            forall|j: int| 0 <= j < i ==> s@[j] != c,
            spec_contains_char(s@, c),
            0 <= spec_first_index_of(s@, c) < len,
            s@[spec_first_index_of(s@, c)] == c,
            forall|j: int| 0 <= j < spec_first_index_of(s@, c) ==> s@[j] != c,
        decreases len - i,
    {
        if s.get_char(i) == c {
            return i;
        }
        i += 1;
    }
    proof {
        assert(false);
    }
    0
}

/// The pieces of `s` between commas, in order; a string without a comma
/// is one piece, and empty pieces are kept.
pub open spec fn spec_split_commas(s: Seq<char>) -> Seq<Seq<char>>
    decreases s.len(),
{
    if spec_contains_char(s, ',') {
        let k = spec_first_index_of(s, ',');
        if 0 <= k < s.len() {
            seq![s.take(k)] + spec_split_commas(s.skip(k + 1))
        } else {
            seq![s]
        }
    } else {
        seq![s]
    }
}

/// Splits `s` at every comma.
pub fn split_commas(s: &str) -> (r: Vec<String>)
    ensures
        r@.map_values(|p: String| p@) == spec_split_commas(s@),
    decreases s@.len(),
{
    let mut out: Vec<String> = Vec::new();
    if !str_contains_char(s, ',') {
        out.push(s.to_owned());
        proof {
            assert(out@.map_values(|p: String| p@) =~= spec_split_commas(s@));
        }
        return out;
    }
    let k = first_index_of(s, ',');
    let len = s.unicode_len();
    let head = s.substring_char(0, k);
    let tail = s.substring_char(k + 1, len);
    proof {
        assert(head@ =~= s@.take(k as int));
        assert(tail@ =~= s@.skip(k + 1));
    }
    out.push(head.to_owned());
    let mut rest = split_commas(tail);
    out.append(&mut rest);
    proof {
        assert(out@.map_values(|p: String| p@) =~= spec_split_commas(s@));
    }
    out
}

/// `s` with every `'.'` replaced by `"->'"`.
pub open spec fn spec_expand_dots(s: Seq<char>) -> Seq<char>
    decreases s.len(),
{
    if s.len() == 0 {
        Seq::empty()
    } else {
        spec_expand_dots(s.drop_last()) + (if s.last() == '.' {
            seq!['-', '>', '\'']
        } else {
            seq![s.last()]
        })
    }
}

/// Replaces every `'.'` in `s` with `"->'"`.
pub fn expand_dots(s: &str) -> (r: String)
    ensures
        r@ == spec_expand_dots(s@),
{
    let len = s.unicode_len();
    let mut out = String::new();
    let mut i: usize = 0;
    while i < len
        invariant
            len == s@.len(),
            i <= len,
            out@ == spec_expand_dots(s@.take(i as int)),
        decreases len - i,
    {
        proof {
            assert(s@.take(i + 1).drop_last() =~= s@.take(i as int));
            assert(s@.take(i + 1).last() == s@[i as int]);
        }
        if s.get_char(i) == '.' {
            out.append("->'");
            proof {
                reveal_strlit("->'");
                assert("->'"@ =~= seq!['-', '>', '\'']);
            }
        } else {
            let piece = s.substring_char(i, i + 1);
            proof {
                assert(piece@ =~= seq![s@[i as int]]);
            }
            out.append(piece);
        }
        i += 1;
    }
    proof {
        assert(s@.take(len as int) =~= s@);
    }
    out
}

/// Whether `s` reads `"asc"` up to ASCII case.
pub open spec fn spec_is_asc_ignore_case(s: Seq<char>) -> bool {
    s.len() == 3 && (s[0] == 'a' || s[0] == 'A') && (s[1] == 's' || s[1] == 'S') && (s[2] == 'c'
        || s[2] == 'C')
}

/// Checks whether `s` reads `"asc"` up to ASCII case.
pub fn is_asc_ignore_case(s: &str) -> (r: bool)
    ensures
        r == spec_is_asc_ignore_case(s@),
{
    if s.unicode_len() != 3 {
        return false;
    }
    let c0 = s.get_char(0);
    let c1 = s.get_char(1);
    let c2 = s.get_char(2);
    (c0 == 'a' || c0 == 'A') && (c1 == 's' || c1 == 'S') && (c2 == 'c' || c2 == 'C')
}

/// The numeric value of an all-digit string, read in decimal.
pub open spec fn spec_decimal_value(s: Seq<char>) -> int
    decreases s.len(),
{
    if s.len() == 0 {
        0
    } else {
        spec_decimal_value(s.drop_last()) * 10 + (s.last() as u32 - 48)
    }
}

/// Whether `s` is a decimal numeral that fits in a `u64`: non-empty, all
/// digits, value at most `u64::MAX`.
pub open spec fn spec_u64_numeral(s: Seq<char>) -> bool {
    &&& s.len() > 0
    &&& forall|i: int| 0 <= i < s.len() ==> 48 <= #[trigger] s[i] as u32 <= 57
    &&& spec_decimal_value(s) <= u64::MAX
}

/// A longer digit prefix never reads as a smaller value.
proof fn lemma_decimal_value_monotone(s: Seq<char>, i: int, j: int)
    requires
        0 <= i <= j <= s.len(),
        forall|k: int| i <= k < j ==> 48 <= #[trigger] s[k] as u32 <= 57,
        spec_decimal_value(s.take(i)) >= 0,
    ensures
        spec_decimal_value(s.take(j)) >= spec_decimal_value(s.take(i)),
    decreases j - i,
{
    if i < j {
        assert(s.take(i + 1).drop_last() =~= s.take(i));
        assert(s.take(i + 1).last() == s[i]);
        assert(spec_decimal_value(s.take(i + 1)) >= spec_decimal_value(s.take(i)));
        lemma_decimal_value_monotone(s, i + 1, j);
    }
}

/// Parses a decimal numeral into a `u64`: `None` when `s` is empty, not
/// all digits, or too large.
pub fn parse_u64_digits(s: &str) -> (r: Option<u64>)
    ensures
        r is Some <==> spec_u64_numeral(s@),
        r matches Some(n) ==> n == spec_decimal_value(s@),
{
    let len = s.unicode_len();
    if len == 0 {
        return None;
    }
    let mut i: usize = 0;
    while i < len
        invariant
            len == s@.len(),
            i <= len,
            forall|k: int| 0 <= k < i ==> 48 <= #[trigger] s@[k] as u32 <= 57,
        decreases len - i,
    {
        let v = s.get_char(i) as u32;
        if !(48 <= v && v <= 57) {
            return None;
        }
        i += 1;
    }
    let mut acc: u64 = 0;
    let mut i: usize = 0;
    proof {
        assert(s@.take(0) =~= Seq::<char>::empty());
    }
    while i < len
        invariant
            len == s@.len(),
            i <= len,
            acc == spec_decimal_value(s@.take(i as int)),
            forall|k: int| 0 <= k < len ==> 48 <= #[trigger] s@[k] as u32 <= 57,
        decreases len - i,
    {
        proof {
            assert(s@.take(i + 1).drop_last() =~= s@.take(i as int));
            assert(s@.take(i + 1).last() == s@[i as int]);
        }
        let d = (s.get_char(i) as u32 - 48) as u64;
        if acc > (u64::MAX - d) / 10 {
            proof {
                assert(spec_decimal_value(s@.take(i + 1)) > u64::MAX);
                lemma_decimal_value_monotone(s@, i + 1, len as int);
                assert(s@.take(len as int) =~= s@);
            }
            return None;
        }
        acc = acc * 10 + d;
        i += 1;
    }
    proof {
        assert(s@.take(len as int) =~= s@);
    }
    Some(acc)
}

/// Whether `s` reads as a collection index: an optional leading `'+'`,
/// then a decimal numeral whose value fits a `usize`.
pub open spec fn spec_index_numeral(s: Seq<char>) -> bool {
    let digits = if s.len() > 0 && s[0] == '+' {
        s.drop_first()
    } else {
        s
    };
    spec_u64_numeral(digits) && spec_decimal_value(digits) <= usize::MAX
}

/// The value of an index numeral.
pub open spec fn spec_index_value(s: Seq<char>) -> int {
    if s.len() > 0 && s[0] == '+' {
        spec_decimal_value(s.drop_first())
    } else {
        spec_decimal_value(s)
    }
}

/// Parses a collection index: an optional `'+'`, then decimal digits.
pub fn parse_index(s: &str) -> (r: Option<usize>)
    ensures
        r is Some <==> spec_index_numeral(s@),
        r matches Some(n) ==> n == spec_index_value(s@),
{
    let len = s.unicode_len();
    let digits = if len > 0 && s.get_char(0) == '+' {
        let d = s.substring_char(1, len);
        proof {
            assert(d@ =~= s@.drop_first());
        }
        d
    } else {
        s
    };
    match parse_u64_digits(digits) {
        Some(n) => if n <= usize::MAX as u64 {
            Some(n as usize)
        } else {
            None
        },
        None => None,
    }
}

/// The decimal digit characters, in order of value.
pub open spec fn spec_digit_char(d: int) -> char {
    if d == 0 {
        '0'
    } else if d == 1 {
        '1'
    } else if d == 2 {
        '2'
    } else if d == 3 {
        '3'
    } else if d == 4 {
        '4'
    } else if d == 5 {
        '5'
    } else if d == 6 {
        '6'
    } else if d == 7 {
        '7'
    } else if d == 8 {
        '8'
    } else {
        '9'
    }
}

/// The decimal representation of `n`, without a sign and without leading
/// zeros (except for `0` itself).
pub open spec fn spec_decimal(n: nat) -> Seq<char>
    decreases n,
{
    if n < 10 {
        seq![spec_digit_char(n as int)]
    } else {
        spec_decimal(n / 10) + seq![spec_digit_char((n % 10) as int)]
    }
}

fn digit_str(d: u64) -> (r: &'static str)
    requires
        d < 10,
    ensures
        r@ == seq![spec_digit_char(d as int)],
{
    let r: &'static str = if d == 0 {
        "0"
    } else if d == 1 {
        "1"
    } else if d == 2 {
        "2"
    } else if d == 3 {
        "3"
    } else if d == 4 {
        "4"
    } else if d == 5 {
        "5"
    } else if d == 6 {
        "6"
    } else if d == 7 {
        "7"
    } else if d == 8 {
        "8"
    } else {
        "9"
    };
    proof {
        reveal_strlit("0");
        reveal_strlit("1");
        reveal_strlit("2");
        reveal_strlit("3");
        reveal_strlit("4");
        reveal_strlit("5");
        reveal_strlit("6");
        reveal_strlit("7");
        reveal_strlit("8");
        reveal_strlit("9");
        assert(r@ =~= seq![spec_digit_char(d as int)]);
    }
    r
}

/// Appends the decimal representation of `n` to `out`.
pub fn push_decimal(out: &mut String, n: u64)
    ensures
        final(out)@ == old(out)@ + spec_decimal(n as nat),
    decreases n,
{
    if n < 10 {
        out.append(digit_str(n));
    } else {
        push_decimal(out, n / 10);
        out.append(digit_str(n % 10));
    }
}

/// The decimal representation of `n` as a fresh string.
pub fn u64_to_string(n: u64) -> (r: String)
    ensures
        r@ == spec_decimal(n as nat),
{
    let mut out = String::new();
    push_decimal(&mut out, n);
    proof {
        assert(out@ =~= spec_decimal(n as nat));
    }
    out
}

} // verus!
