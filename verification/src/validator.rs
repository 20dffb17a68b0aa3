//! Common validation rules for string values: character classes and small
//! syntactic formats.
//!
//! Each rule documents exactly what it accepts; a rule over an empty
//! string holds vacuously unless it says otherwise.

use vstd::prelude::*;
use vstd::string::StrSliceExecFns;

use crate::strings::spec_contains_char;
use crate::strings::spec_first_index_of;
use crate::strings::str_contains_char;

verus! {

// ---------------------------------------------------------------------
// ASCII character classes, checked in full.
// ---------------------------------------------------------------------
/// An ASCII decimal digit.
pub open spec fn spec_ascii_digit(c: char) -> bool {
    48 <= c as u32 <= 57
}

/// An ASCII letter.
pub open spec fn spec_ascii_alpha(c: char) -> bool {
    (65 <= c as u32 <= 90) || (97 <= c as u32 <= 122)
}

/// An ASCII hexadecimal digit.
pub open spec fn spec_ascii_hexdigit(c: char) -> bool {
    spec_ascii_digit(c) || (65 <= c as u32 <= 70) || (97 <= c as u32 <= 102)
}

/// An ASCII lowercase letter.
pub open spec fn spec_ascii_lower(c: char) -> bool {
    97 <= c as u32 <= 122
}

/// An ASCII uppercase letter.
pub open spec fn spec_ascii_upper(c: char) -> bool {
    65 <= c as u32 <= 90
}

/// Any ASCII character.
pub open spec fn spec_ascii_any(c: char) -> bool {
    c as u32 <= 127
}

/// An ASCII letter or decimal digit.
pub open spec fn spec_ascii_alnum(c: char) -> bool {
    spec_ascii_alpha(c) || spec_ascii_digit(c)
}

fn is_ascii_digit_char(c: char) -> (r: bool)
    ensures
        r == spec_ascii_digit(c),
{
    let v = c as u32;
    48 <= v && v <= 57
}

fn is_ascii_alpha_char(c: char) -> (r: bool)
    ensures
        r == spec_ascii_alpha(c),
{
    let v = c as u32;
    (65 <= v && v <= 90) || (97 <= v && v <= 122)
}

fn is_ascii_hexdigit_char(c: char) -> (r: bool)
    ensures
        r == spec_ascii_hexdigit(c),
{
    let v = c as u32;
    (48 <= v && v <= 57) || (65 <= v && v <= 70) || (97 <= v && v <= 102)
}

// ---------------------------------------------------------------------
// Unicode character classes, relied on from the standard library.
// ---------------------------------------------------------------------
/// Whether the Unicode tables class `c` as alphabetic.
pub uninterp spec fn char_alphabetic(c: char) -> bool;

/// Whether the Unicode tables class `c` as alphanumeric.
pub uninterp spec fn char_alphanumeric(c: char) -> bool;

/// Whether the Unicode tables class `c` as lowercase.
pub uninterp spec fn char_lowercase(c: char) -> bool;

/// Whether the Unicode tables class `c` as uppercase.
pub uninterp spec fn char_uppercase(c: char) -> bool;

/// Whether the Unicode tables class `c` as numeric.
pub uninterp spec fn char_numeric(c: char) -> bool;

/// Relies on `char::is_alphabetic`: a class of the character alone.
#[verifier::external_body]
fn is_alphabetic_char(c: char) -> (r: bool)
    ensures
        r == char_alphabetic(c),
{
    c.is_alphabetic()
}

/// Relies on `char::is_alphanumeric`: a class of the character alone.
#[verifier::external_body]
fn is_alphanumeric_char(c: char) -> (r: bool)
    ensures
        r == char_alphanumeric(c),
{
    c.is_alphanumeric()
}

/// Relies on `char::is_lowercase`: a class of the character alone.
#[verifier::external_body]
fn is_lowercase_char(c: char) -> (r: bool)
    ensures
        r == char_lowercase(c),
{
    c.is_lowercase()
}

/// Relies on `char::is_uppercase`: a class of the character alone.
#[verifier::external_body]
fn is_uppercase_char(c: char) -> (r: bool)
    ensures
        r == char_uppercase(c),
{
    c.is_uppercase()
}

/// Relies on `char::is_numeric`: a class of the character alone.
#[verifier::external_body]
fn is_numeric_char(c: char) -> (r: bool)
    ensures
        r == char_numeric(c),
{
    c.is_numeric()
}

/// Whether `c` belongs to the ASCII class picked by `kind`: 0 any ASCII,
/// 1 letters, 2 letters or digits, 3 digits, 4 hexadecimal digits, 5
/// lowercase letters, 6 uppercase letters.
pub open spec fn spec_ascii_class(c: char, kind: u8) -> bool {
    if kind == 0 {
        spec_ascii_any(c)
    } else if kind == 1 {
        spec_ascii_alpha(c)
    } else if kind == 2 {
        spec_ascii_alnum(c)
    } else if kind == 3 {
        spec_ascii_digit(c)
    } else if kind == 4 {
        spec_ascii_hexdigit(c)
    } else if kind == 5 {
        spec_ascii_lower(c)
    } else {
        spec_ascii_upper(c)
    }
}

/// Every character of `s` belongs to the ASCII class picked by `kind`.
pub open spec fn spec_all_ascii(s: Seq<char>, kind: u8) -> bool {
    forall|i: int| 0 <= i < s.len() ==> spec_ascii_class(#[trigger] s[i], kind)
}

/// Whether `c` belongs to the Unicode class picked by `kind`: 0
/// alphabetic, 1 alphanumeric, 2 lowercase, 3 uppercase, 4 numeric.
pub open spec fn spec_unicode_class(c: char, kind: u8) -> bool {
    if kind == 0 {
        char_alphabetic(c)
    } else if kind == 1 {
        char_alphanumeric(c)
    } else if kind == 2 {
        char_lowercase(c)
    } else if kind == 3 {
        char_uppercase(c)
    } else {
        char_numeric(c)
    }
}

/// Every character of `s` belongs to the Unicode class picked by `kind`.
pub open spec fn spec_all_unicode(s: Seq<char>, kind: u8) -> bool {
    forall|i: int| 0 <= i < s.len() ==> spec_unicode_class(#[trigger] s[i], kind)
}

// ---------------------------------------------------------------------
// Syntactic formats.
// ---------------------------------------------------------------------
/// The numeric value of up to three digit characters.
pub open spec fn spec_digits_value(s: Seq<char>) -> int {
    if s.len() == 1 {
        s[0] as u32 - 48
    } else if s.len() == 2 {
        (s[0] as u32 - 48) * 10 + (s[1] as u32 - 48)
    } else {
        (s[0] as u32 - 48) * 100 + (s[1] as u32 - 48) * 10 + (s[2] as u32 - 48)
    }
}

/// A two-digit value at position `at`.
pub open spec fn spec_two_digits(s: Seq<char>, at: int) -> int {
    (s[at] as u32 - 48) * 10 + (s[at + 1] as u32 - 48)
}

/// A four-digit value at position `at`.
pub open spec fn spec_four_digits(s: Seq<char>, at: int) -> int {
    (s[at] as u32 - 48) * 1000 + (s[at + 1] as u32 - 48) * 100 + (s[at + 2] as u32 - 48) * 10 + (
    s[at + 3] as u32 - 48)
}

/// Whether `year` is a leap year of the Gregorian calendar.
pub open spec fn spec_is_leap_year(year: int) -> bool {
    (year % 4 == 0 && year % 100 != 0) || year % 400 == 0
}

/// The number of days in `month` of `year`.
pub open spec fn spec_days_in_month(year: int, month: int) -> int {
    if month == 2 {
        if spec_is_leap_year(year) {
            29
        } else {
            28
        }
    } else if month == 4 || month == 6 || month == 9 || month == 11 {
        30
    } else {
        31
    }
}

/// A calendar date written `YYYY-MM-DD`, with a real month and day.
pub open spec fn spec_date(s: Seq<char>) -> bool {
    &&& s.len() == 10
    &&& spec_ascii_digit(s[0]) && spec_ascii_digit(s[1]) && spec_ascii_digit(s[2])
        && spec_ascii_digit(s[3])
    &&& s[4] == '-' && s[7] == '-'
    &&& spec_ascii_digit(s[5]) && spec_ascii_digit(s[6])
    &&& spec_ascii_digit(s[8]) && spec_ascii_digit(s[9])
    &&& 1 <= spec_two_digits(s, 5) <= 12
    &&& 1 <= spec_two_digits(s, 8) <= spec_days_in_month(
        spec_four_digits(s, 0),
        spec_two_digits(s, 5),
    )
}

/// A time of day written `HH:MM:SS`, with `HH <= 23` and minutes and
/// seconds up to 59.
pub open spec fn spec_time(s: Seq<char>) -> bool {
    &&& s.len() == 8
    &&& spec_ascii_digit(s[0]) && spec_ascii_digit(s[1])
    &&& s[2] == ':' && s[5] == ':'
    &&& spec_ascii_digit(s[3]) && spec_ascii_digit(s[4])
    &&& spec_ascii_digit(s[6]) && spec_ascii_digit(s[7])
    &&& spec_two_digits(s, 0) <= 23
    &&& spec_two_digits(s, 3) <= 59
    &&& spec_two_digits(s, 6) <= 59
}

/// A date and a time separated by `'T'` or a space.
pub open spec fn spec_date_time(s: Seq<char>) -> bool {
    &&& s.len() == 19
    &&& spec_date(s.take(10))
    &&& (s[10] == 'T' || s[10] == ' ')
    &&& spec_time(s.skip(11))
}

/// A UUID in its canonical hyphenated form: five runs of hexadecimal
/// digits of lengths 8, 4, 4, 4 and 12.
pub open spec fn spec_uuid(s: Seq<char>) -> bool {
    &&& s.len() == 36
    &&& s[8] == '-' && s[13] == '-' && s[18] == '-' && s[23] == '-'
    &&& forall|i: int|
        0 <= i < 36 && i != 8 && i != 13 && i != 18 && i != 23 ==> spec_ascii_hexdigit(
            #[trigger] s[i],
        )
}

/// A decimal octet: one to three digits, no leading zero unless `0`
/// itself, value at most 255.
pub open spec fn spec_octet(s: Seq<char>) -> bool {
    &&& 1 <= s.len() <= 3
    &&& forall|i: int| 0 <= i < s.len() ==> spec_ascii_digit(#[trigger] s[i])
    &&& (s.len() > 1 ==> s[0] != '0')
    &&& spec_digits_value(s) <= 255
}

/// `groups` dot-separated decimal octets.
pub open spec fn spec_ipv4_groups(s: Seq<char>, groups: int) -> bool
    decreases groups,
{
    if groups <= 1 {
        spec_octet(s)
    } else if spec_contains_char(s, '.') {
        let k = spec_first_index_of(s, '.');
        spec_octet(s.take(k)) && spec_ipv4_groups(s.skip(k + 1), groups - 1)
    } else {
        false
    }
}

/// An IPv4 address in dotted-quad form.
pub open spec fn spec_ipv4(s: Seq<char>) -> bool {
    spec_ipv4_groups(s, 4)
}

/// A surface check of an IPv6 address: non-empty, holds a colon, and
/// holds nothing but hexadecimal digits and colons.
pub open spec fn spec_ipv6(s: Seq<char>) -> bool {
    &&& s.len() > 0
    &&& spec_contains_char(s, ':')
    &&& forall|i: int|
        0 <= i < s.len() ==> spec_ascii_hexdigit(#[trigger] s[i]) || s[i] == ':'
}

/// An IP address: IPv4 or IPv6.
pub open spec fn spec_ip(s: Seq<char>) -> bool {
    spec_ipv4(s) || spec_ipv6(s)
}

/// A hostname label: one to 63 ASCII letters, digits or hyphens, neither
/// starting nor ending with a hyphen.
pub open spec fn spec_hostname_label(s: Seq<char>) -> bool {
    &&& 1 <= s.len() <= 63
    &&& forall|i: int|
        0 <= i < s.len() ==> spec_ascii_alnum(#[trigger] s[i]) || s[i] == '-'
    &&& s[0] != '-'
    &&& s[s.len() - 1] != '-'
}

/// A hostname: dot-separated labels.
pub open spec fn spec_hostname(s: Seq<char>) -> bool
    decreases s.len(),
{
    if spec_contains_char(s, '.') {
        let k = spec_first_index_of(s, '.');
        if 0 <= k < s.len() {
            spec_hostname_label(s.take(k)) && spec_hostname(s.skip(k + 1))
        } else {
            false
        }
    } else {
        spec_hostname_label(s)
    }
}

/// A host: a hostname or an IP address.
pub open spec fn spec_host(s: Seq<char>) -> bool {
    spec_hostname(s) || spec_ip(s)
}

/// A URI's surface shape: a scheme — an ASCII letter followed by ASCII
/// letters, digits, `+`, `-` or `.` — then a colon and a non-empty
/// remainder.
pub open spec fn spec_uri(s: Seq<char>) -> bool {
    &&& spec_contains_char(s, ':')
    &&& {
        let k = spec_first_index_of(s, ':');
        &&& k >= 1
        &&& k + 1 < s.len()
        &&& spec_ascii_alpha(s[0])
        &&& forall|i: int|
            1 <= i < k ==> spec_ascii_alnum(#[trigger] s[i]) || s[i] == '+' || s[i] == '-'
                || s[i] == '.'
    }
}

// ---------------------------------------------------------------------
// Executable checks.
// ---------------------------------------------------------------------
/// Checks every character of `s` against an ASCII class picked by `kind`:
/// 0 any ASCII, 1 letters, 2 letters or digits, 3 digits, 4 hexadecimal
/// digits, 5 lowercase letters, 6 uppercase letters.
fn check_ascii_class(s: &str, kind: u8) -> (r: bool)
    requires
        kind <= 6,
    ensures
        r == spec_all_ascii(s@, kind),
{
    let len = s.unicode_len();
    let mut i: usize = 0;
    while i < len
        invariant
            len == s@.len(),
            i <= len,
            kind <= 6,
            forall|j: int| 0 <= j < i ==> spec_ascii_class(#[trigger] s@[j], kind),
        decreases len - i,
    {
        let c = s.get_char(i);
        let v = c as u32;
        let ok = if kind == 0 {
            v <= 127
        } else if kind == 1 {
            is_ascii_alpha_char(c)
        } else if kind == 2 {
            is_ascii_alpha_char(c) || is_ascii_digit_char(c)
        } else if kind == 3 {
            is_ascii_digit_char(c)
        } else if kind == 4 {
            is_ascii_hexdigit_char(c)
        } else if kind == 5 {
            97 <= v && v <= 122
        } else {
            65 <= v && v <= 90
        };
        if !ok {
            proof {
                assert(!spec_ascii_class(s@[i as int], kind));
            }
            return false;
        }
        i += 1;
    }
    true
}

/// Every character is ASCII.
pub fn validate_ascii(s: &str) -> (r: bool)
    ensures
        r == spec_all_ascii(s@, 0),
{
    check_ascii_class(s, 0)
}

/// Every character is an ASCII letter.
pub fn validate_ascii_alphabetic(s: &str) -> (r: bool)
    ensures
        r == spec_all_ascii(s@, 1),
{
    check_ascii_class(s, 1)
}

/// Every character is an ASCII letter or digit.
pub fn validate_ascii_alphanumeric(s: &str) -> (r: bool)
    ensures
        r == spec_all_ascii(s@, 2),
{
    check_ascii_class(s, 2)
}

/// Every character is an ASCII digit.
pub fn validate_ascii_digit(s: &str) -> (r: bool)
    ensures
        r == spec_all_ascii(s@, 3),
{
    check_ascii_class(s, 3)
}

/// Every character is an ASCII hexadecimal digit.
pub fn validate_ascii_hexdigit(s: &str) -> (r: bool)
    ensures
        r == spec_all_ascii(s@, 4),
{
    check_ascii_class(s, 4)
}

/// Every character is an ASCII lowercase letter.
pub fn validate_ascii_lowercase(s: &str) -> (r: bool)
    ensures
        r == spec_all_ascii(s@, 5),
{
    check_ascii_class(s, 5)
}

/// Every character is an ASCII uppercase letter.
pub fn validate_ascii_uppercase(s: &str) -> (r: bool)
    ensures
        r == spec_all_ascii(s@, 6),
{
    check_ascii_class(s, 6)
}

/// Checks every character of `s` against a Unicode class picked by
/// `kind`: 0 alphabetic, 1 alphanumeric, 2 lowercase, 3 uppercase, 4
/// numeric.
fn check_unicode_class(s: &str, kind: u8) -> (r: bool)
    requires
        kind <= 4,
    ensures
        r == spec_all_unicode(s@, kind),
{
    let len = s.unicode_len();
    let mut i: usize = 0;
    while i < len
        invariant
            len == s@.len(),
            i <= len,
            kind <= 4,
            forall|j: int| 0 <= j < i ==> spec_unicode_class(#[trigger] s@[j], kind),
        decreases len - i,
    {
        let c = s.get_char(i);
        let ok = if kind == 0 {
            is_alphabetic_char(c)
        } else if kind == 1 {
            is_alphanumeric_char(c)
        } else if kind == 2 {
            is_lowercase_char(c)
        } else if kind == 3 {
            is_uppercase_char(c)
        } else {
            is_numeric_char(c)
        };
        if !ok {
            proof {
                assert(!spec_unicode_class(s@[i as int], kind));
            }
            return false;
        }
        i += 1;
    }
    true
}

/// Every character is alphabetic by the Unicode tables.
pub fn validate_alphabetic(s: &str) -> (r: bool)
    ensures
        r == spec_all_unicode(s@, 0),
{
    check_unicode_class(s, 0)
}

/// Every character is alphanumeric by the Unicode tables.
pub fn validate_alphanumeric(s: &str) -> (r: bool)
    ensures
        r == spec_all_unicode(s@, 1),
{
    check_unicode_class(s, 1)
}

/// Every character is lowercase by the Unicode tables.
pub fn validate_lowercase(s: &str) -> (r: bool)
    ensures
        r == spec_all_unicode(s@, 2),
{
    check_unicode_class(s, 2)
}

/// Every character is uppercase by the Unicode tables.
pub fn validate_uppercase(s: &str) -> (r: bool)
    ensures
        r == spec_all_unicode(s@, 3),
{
    check_unicode_class(s, 3)
}

/// Every character is numeric by the Unicode tables.
pub fn validate_numeric(s: &str) -> (r: bool)
    ensures
        r == spec_all_unicode(s@, 4),
{
    check_unicode_class(s, 4)
}

/// Reads the two-digit value at `at`.
fn two_digits(s: &str, at: usize) -> (r: u32)
    requires
        at + 2 <= s@.len(),
        spec_ascii_digit(s@[at as int]),
        spec_ascii_digit(s@[at + 1]),
    ensures
        r == spec_two_digits(s@, at as int),
{
    let len = s.unicode_len();
    let hi = s.get_char(at);
    let lo = s.get_char(at + 1);
    (hi as u32 - 48) * 10 + (lo as u32 - 48)
}

/// A calendar date written `YYYY-MM-DD`.
pub fn validate_date(s: &str) -> (r: bool)
    ensures
        r == spec_date(s@),
{
    if s.unicode_len() != 10 {
        return false;
    }
    let mut i: usize = 0;
    while i < 10
        invariant
            s@.len() == 10,
            i <= 10,
            forall|j: int|
                0 <= j < i ==> if j == 4 || j == 7 {
                    s@[j] == '-'
                } else {
                    spec_ascii_digit(#[trigger] s@[j])
                },
        decreases 10 - i,
    {
        let c = s.get_char(i);
        let ok = if i == 4 || i == 7 {
            c == '-'
        } else {
            is_ascii_digit_char(c)
        };
        if !ok {
            return false;
        }
        i += 1;
    }
    let year = (s.get_char(0) as u32 - 48) * 1000 + (s.get_char(1) as u32 - 48) * 100 + (s.get_char(
        2,
    ) as u32 - 48) * 10 + (s.get_char(3) as u32 - 48);
    let month = two_digits(s, 5);
    let day = two_digits(s, 8);
    if month < 1 || month > 12 {
        return false;
    }
    let leap = (year % 4 == 0 && year % 100 != 0) || year % 400 == 0;
    let max_day: u32 = if month == 2 {
        if leap {
            29
        } else {
            28
        }
    } else if month == 4 || month == 6 || month == 9 || month == 11 {
        30
    } else {
        31
    };
    1 <= day && day <= max_day
}

/// A time of day written `HH:MM:SS`.
pub fn validate_time(s: &str) -> (r: bool)
    ensures
        r == spec_time(s@),
{
    if s.unicode_len() != 8 {
        return false;
    }
    let mut i: usize = 0;
    while i < 8
        invariant
            s@.len() == 8,
            i <= 8,
            forall|j: int|
                0 <= j < i ==> if j == 2 || j == 5 {
                    s@[j] == ':'
                } else {
                    spec_ascii_digit(#[trigger] s@[j])
                },
        decreases 8 - i,
    {
        let c = s.get_char(i);
        let ok = if i == 2 || i == 5 {
            c == ':'
        } else {
            is_ascii_digit_char(c)
        };
        if !ok {
            return false;
        }
        i += 1;
    }
    two_digits(s, 0) <= 23 && two_digits(s, 3) <= 59 && two_digits(s, 6) <= 59
}

/// A date and a time separated by `'T'` or a space.
pub fn validate_date_time(s: &str) -> (r: bool)
    ensures
        r == spec_date_time(s@),
{
    if s.unicode_len() != 19 {
        return false;
    }
    let date_part = s.substring_char(0, 10);
    let sep = s.get_char(10);
    let time_part = s.substring_char(11, 19);
    proof {
        assert(date_part@ =~= s@.take(10));
        assert(time_part@ =~= s@.skip(11));
    }
    validate_date(date_part) && (sep == 'T' || sep == ' ') && validate_time(time_part)
}

/// A UUID in its canonical hyphenated form.
pub fn validate_uuid(s: &str) -> (r: bool)
    ensures
        r == spec_uuid(s@),
{
    if s.unicode_len() != 36 {
        return false;
    }
    let mut i: usize = 0;
    while i < 36
        invariant
            s@.len() == 36,
            i <= 36,
            forall|j: int|
                0 <= j < i ==> if j == 8 || j == 13 || j == 18 || j == 23 {
                    s@[j] == '-'
                } else {
                    spec_ascii_hexdigit(#[trigger] s@[j])
                },
        decreases 36 - i,
    {
        let c = s.get_char(i);
        let ok = if i == 8 || i == 13 || i == 18 || i == 23 {
            c == '-'
        } else {
            is_ascii_hexdigit_char(c)
        };
        if !ok {
            return false;
        }
        i += 1;
    }
    true
}

/// A decimal octet of an IPv4 address.
fn validate_octet(s: &str) -> (r: bool)
    ensures
        r == spec_octet(s@),
{
    let len = s.unicode_len();
    if len < 1 || len > 3 {
        return false;
    }
    let mut i: usize = 0;
    while i < len
        invariant
            len == s@.len(),
            i <= len,
            forall|j: int| 0 <= j < i ==> spec_ascii_digit(#[trigger] s@[j]),
        decreases len - i,
    {
        if !is_ascii_digit_char(s.get_char(i)) {
            return false;
        }
        i += 1;
    }
    if len > 1 && s.get_char(0) == '0' {
        return false;
    }
    let value = if len == 1 {
        s.get_char(0) as u32 - 48
    } else if len == 2 {
        (s.get_char(0) as u32 - 48) * 10 + (s.get_char(1) as u32 - 48)
    } else {
        (s.get_char(0) as u32 - 48) * 100 + (s.get_char(1) as u32 - 48) * 10 + (s.get_char(2)
            as u32 - 48)
    };
    value <= 255
}

/// `groups` dot-separated decimal octets.
fn validate_ipv4_groups(s: &str, groups: u32) -> (r: bool)
    requires
        groups >= 1,
    ensures
        r == spec_ipv4_groups(s@, groups as int),
    decreases groups,
{
    if groups == 1 {
        return validate_octet(s);
    }
    if !str_contains_char(s, '.') {
        return false;
    }
    let k = crate::strings::first_index_of(s, '.');
    let len = s.unicode_len();
    let head = s.substring_char(0, k);
    let tail = s.substring_char(k + 1, len);
    proof {
        assert(head@ =~= s@.take(k as int));
        assert(tail@ =~= s@.skip(k + 1));
    }
    validate_octet(head) && validate_ipv4_groups(tail, groups - 1)
}

/// An IPv4 address in dotted-quad form.
pub fn validate_ipv4(s: &str) -> (r: bool)
    ensures
        r == spec_ipv4(s@),
{
    validate_ipv4_groups(s, 4)
}

/// A surface check of an IPv6 address.
pub fn validate_ipv6(s: &str) -> (r: bool)
    ensures
        r == spec_ipv6(s@),
{
    let len = s.unicode_len();
    if len == 0 {
        return false;
    }
    if !str_contains_char(s, ':') {
        return false;
    }
    let mut i: usize = 0;
    while i < len
        invariant
            len == s@.len(),
            i <= len,
            forall|j: int|
                0 <= j < i ==> spec_ascii_hexdigit(#[trigger] s@[j]) || s@[j] == ':',
        decreases len - i,
    {
        let c = s.get_char(i);
        if !(is_ascii_hexdigit_char(c) || c == ':') {
            return false;
        }
        i += 1;
    }
    true
}

/// An IP address: IPv4 or IPv6.
pub fn validate_ip(s: &str) -> (r: bool)
    ensures
        r == spec_ip(s@),
{
    validate_ipv4(s) || validate_ipv6(s)
}

/// A hostname label.
fn validate_hostname_label(s: &str) -> (r: bool)
    ensures
        r == spec_hostname_label(s@),
{
    let len = s.unicode_len();
    if len < 1 || len > 63 {
        return false;
    }
    let mut i: usize = 0;
    while i < len
        invariant
            len == s@.len(),
            i <= len,
            forall|j: int|
                0 <= j < i ==> spec_ascii_alnum(#[trigger] s@[j]) || s@[j] == '-',
        decreases len - i,
    {
        let c = s.get_char(i);
        if !(is_ascii_alpha_char(c) || is_ascii_digit_char(c) || c == '-') {
            return false;
        }
        i += 1;
    }
    s.get_char(0) != '-' && s.get_char(len - 1) != '-'
}

/// A hostname: dot-separated labels.
pub fn validate_hostname(s: &str) -> (r: bool)
    ensures
        r == spec_hostname(s@),
    decreases s@.len(),
{
    if !str_contains_char(s, '.') {
        return validate_hostname_label(s);
    }
    let k = crate::strings::first_index_of(s, '.');
    let len = s.unicode_len();
    let head = s.substring_char(0, k);
    let tail = s.substring_char(k + 1, len);
    proof {
        assert(head@ =~= s@.take(k as int));
        assert(tail@ =~= s@.skip(k + 1));
    }
    validate_hostname_label(head) && validate_hostname(tail)
}

/// A host: a hostname or an IP address.
pub fn validate_host(s: &str) -> (r: bool)
    ensures
        r == spec_host(s@),
{
    validate_hostname(s) || validate_ip(s)
}

/// A URI's surface shape: a scheme, a colon, a non-empty remainder.
pub fn validate_uri(s: &str) -> (r: bool)
    ensures
        r == spec_uri(s@),
{
    if !str_contains_char(s, ':') {
        return false;
    }
    let k = crate::strings::first_index_of(s, ':');
    let len = s.unicode_len();
    if k < 1 || k + 1 >= len {
        return false;
    }
    if !is_ascii_alpha_char(s.get_char(0)) {
        return false;
    }
    let mut i: usize = 1;
    while i < k
        invariant
            len == s@.len(),
            spec_contains_char(s@, ':'),
            k == spec_first_index_of(s@, ':'),
            1 <= k,
            k + 1 < len,
            1 <= i <= k,
            forall|j: int|
                1 <= j < i ==> spec_ascii_alnum(#[trigger] s@[j]) || s@[j] == '+' || s@[j] == '-'
                    || s@[j] == '.',
        decreases k - i,
    {
        let c = s.get_char(i);
        if !(is_ascii_alpha_char(c) || is_ascii_digit_char(c) || c == '+' || c == '-' || c == '.') {
            proof {
                let ghost bad = s@[i as int];
                assert(!(spec_ascii_alnum(bad) || bad == '+' || bad == '-' || bad == '.'));
            }
            return false;
        }
        i += 1;
    }
    true
}

} // verus!
