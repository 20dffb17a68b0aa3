//! Time-ordered identifiers for jobs and records.

use vstd::prelude::*;
use vstd::arithmetic::power2::lemma2_to64;
use vstd::arithmetic::power2::lemma_pow2_adds;
use vstd::arithmetic::power2::lemma_pow2_strictly_increases;
use vstd::arithmetic::power2::pow2;
use vstd::string::StrSliceExecFns;

verus! {

/// A time-ordered unique token, generated when a job or a record is
/// created and immutable afterwards.
#[derive(Clone, Copy, Debug, PartialEq, Eq, Structural, Hash)]
pub struct Uuid {
    value: u128,
}

impl Uuid {
    /// Builds an identifier from its raw value.
    pub fn from_u128(value: u128) -> (r: Uuid)
        ensures
            r.spec_value() == value,
    {
        Uuid { value }
    }

    /// The identifier's raw value.
    pub fn as_u128(&self) -> (r: u128)
        ensures
            r == self.spec_value(),
    {
        self.value
    }

    /// The identifier's raw value, for contracts.
    pub closed spec fn spec_value(&self) -> u128 {
        self.value
    }
}

/// The value of one hexadecimal digit character.
pub open spec fn spec_hex_val(c: char) -> int {
    if 48 <= c as u32 <= 57 {
        c as u32 - 48
    } else if 65 <= c as u32 <= 70 {
        c as u32 - 55
    } else {
        c as u32 - 87
    }
}

/// The value of a run of hexadecimal digits read left to right, hyphens
/// skipped.
pub open spec fn spec_uuid_value(s: Seq<char>) -> int
    decreases s.len(),
{
    if s.len() == 0 {
        0
    } else if s.last() == '-' {
        spec_uuid_value(s.drop_last())
    } else {
        spec_uuid_value(s.drop_last()) * 16 + spec_hex_val(s.last())
    }
}

impl Uuid {
    /// Parses the canonical hyphenated form, `8-4-4-4-12` hexadecimal
    /// digits, into an identifier; `None` when `s` has another shape.
    pub fn from_hyphenated(s: &str) -> (r: Option<Uuid>)
        ensures
            r is Some <==> crate::validator::spec_uuid(s@),
            r matches Some(u) ==> u.spec_value() == spec_uuid_value(s@),
    {
        if !crate::validator::validate_uuid(s) {
            return None;
        }
        let mut acc: u128 = 0;
        let mut i: usize = 0;
        proof {
            lemma2_to64();
            lemma_pow2_adds(64, 64);
            assert(s@.take(0) =~= Seq::<char>::empty());
        }
        while i < 36
            invariant
                crate::validator::spec_uuid(s@),
                s@.len() == 36,
                i <= 36,
                acc == spec_uuid_value(s@.take(i as int)),
                acc < pow2(4 * spec_hex_count(s@.take(i as int))),
                spec_hex_count(s@.take(i as int)) == i - spec_hyphens_before(i as int),
                pow2(128) == 0x100000000000000000000000000000000,
            decreases 36 - i,
        {
            let ghost prefix = s@.take(i as int);
            let ghost hc = spec_hex_count(prefix);
            proof {
                assert(s@.take(i + 1).drop_last() =~= prefix);
                assert(s@.take(i + 1).last() == s@[i as int]);
                lemma2_to64();
                lemma_pow2_adds(4 * hc, 4);
            }
            let c = s.get_char(i);
            if c == '-' {
                proof {
                    assert(spec_hex_count(s@.take(i + 1)) == hc);
                }
            } else {
                let v = c as u32;
                let d: u128 = if 48 <= v && v <= 57 {
                    (v - 48) as u128
                } else if 65 <= v && v <= 70 {
                    (v - 55) as u128
                } else {
                    (v - 87) as u128
                };
                proof {
                    assert(d == spec_hex_val(s@[i as int]));
                    assert(d < 16);
                    assert(hc <= 31);
                    assert(pow2(4 * hc) * 16 == pow2(4 * hc + 4));
                    if 4 * hc + 4 < 128 {
                        lemma_pow2_strictly_increases(4 * hc + 4, 128);
                    }
                    assert(pow2(4 * hc + 4) <= pow2(128));
                    assert(acc * 16 + d < pow2(4 * hc + 4));
                }
                acc = acc * 16 + d;
            }
            i += 1;
        }
        proof {
            assert(s@.take(36) =~= s@);
        }
        Some(Uuid { value: acc })
    }
}

/// How many characters of `s` are not hyphens.
pub open spec fn spec_hex_count(s: Seq<char>) -> nat
    decreases s.len(),
{
    if s.len() == 0 {
        0
    } else if s.last() == '-' {
        spec_hex_count(s.drop_last())
    } else {
        spec_hex_count(s.drop_last()) + 1
    }
}

/// How many of the canonical hyphen positions (8, 13, 18 and 23) lie
/// before `i`.
pub open spec fn spec_hyphens_before(i: int) -> int {
    if i <= 8 {
        0
    } else if i <= 13 {
        1
    } else if i <= 18 {
        2
    } else if i <= 23 {
        3
    } else {
        4
    }
}

/// Relies on `chrono::Utc::now` for a nanosecond timestamp, which makes
/// the token time-ordered; nothing is promised of the value it returns.
/// Like the clock itself, this aborts on a host whose system time is set
/// before 1970; and two tokens generated within one reading of the clock
/// coincide.
#[verifier::external_body]
pub(crate) fn generate() -> Uuid {
    let nanos = chrono::Utc::now().timestamp_nanos_opt().unwrap_or(0);
    Uuid { value: nanos as u128 }
}

} // verus!
