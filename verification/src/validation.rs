//! A record of validation results, and the format dispatch that fills it.

use vstd::prelude::*;
use vstd::string::StringExecFns;

use crate::json::JsonMap;
use crate::json::Value;
use crate::strings::str_eq;
use crate::validator;

verus! {

/// Whether `value` satisfies the validation rule named `format`; an
/// unknown format refuses nothing.
pub open spec fn spec_format_valid(f: Seq<char>, v: Seq<char>) -> bool {
    if f == "alphabetic"@ {
        validator::spec_all_unicode(v, 0)
    } else if f == "alphanumeric"@ {
        validator::spec_all_unicode(v, 1)
    } else if f == "ascii"@ {
        validator::spec_all_ascii(v, 0)
    } else if f == "ascii-alphabetic"@ {
        validator::spec_all_ascii(v, 1)
    } else if f == "ascii-alphanumeric"@ {
        validator::spec_all_ascii(v, 2)
    } else if f == "ascii-digit"@ {
        validator::spec_all_ascii(v, 3)
    } else if f == "ascii-hexdigit"@ {
        validator::spec_all_ascii(v, 4)
    } else if f == "ascii-lowercase"@ {
        validator::spec_all_ascii(v, 5)
    } else if f == "ascii-uppercase"@ {
        validator::spec_all_ascii(v, 6)
    } else if f == "date"@ {
        validator::spec_date(v)
    } else if f == "date-time"@ {
        validator::spec_date_time(v)
    } else if f == "host"@ {
        validator::spec_host(v)
    } else if f == "hostname"@ {
        validator::spec_hostname(v)
    } else if f == "ip"@ {
        validator::spec_ip(v)
    } else if f == "ipv4"@ {
        validator::spec_ipv4(v)
    } else if f == "ipv6"@ {
        validator::spec_ipv6(v)
    } else if f == "lowercase"@ {
        validator::spec_all_unicode(v, 2)
    } else if f == "numeric"@ {
        validator::spec_all_unicode(v, 4)
    } else if f == "time"@ {
        validator::spec_time(v)
    } else if f == "uppercase"@ {
        validator::spec_all_unicode(v, 3)
    } else if f == "uri"@ {
        validator::spec_uri(v)
    } else if f == "uuid"@ {
        validator::spec_uuid(v)
    } else {
        true
    }
}

/// The string elements of a list of values, in order; other elements are
/// passed over.
pub open spec fn spec_str_items(items: Seq<Value>) -> Seq<Seq<char>>
    decreases items.len(),
{
    if items.len() == 0 {
        Seq::empty()
    } else {
        spec_str_items(items.drop_last()) + (match items.last() {
            Value::Str(s) => seq![s@],
            _ => Seq::empty(),
        })
    }
}

/// What reading a value as a list of strings yields.
pub open spec fn spec_parse_array(value: Value) -> Option<Seq<Seq<char>>> {
    match value {
        Value::Array(items) => Some(spec_str_items(items@)),
        Value::Str(s) => Some(crate::strings::spec_split_commas(s@)),
        _ => None,
    }
}

/// What reading a value as an unsigned count yields.
pub open spec fn spec_parse_u64(value: Value) -> Option<Result<u64, Seq<char>>> {
    match value {
        Value::UInt(n) => Some(Ok(n)),
        Value::Int(n) => if n >= 0 {
            Some(Ok(n as u64))
        } else {
            Some(Err("invalid number"@))
        },
        Value::Str(s) => if crate::strings::spec_u64_numeral(s@) {
            Some(Ok(crate::strings::spec_decimal_value(s@) as u64))
        } else {
            Some(Err("invalid number"@))
        },
        _ => None,
    }
}

/// The map the failed entries collapse to: every key mapped to its
/// message, in order, later entries overriding earlier ones.
pub open spec fn spec_entries_map(entries: Seq<(String, String)>) -> Seq<(String, Value)>
    decreases entries.len(),
{
    if entries.len() == 0 {
        Seq::empty()
    } else {
        crate::json::spec_insert(
            spec_entries_map(entries.drop_last()),
            entries.last().0,
            Value::Str(entries.last().1),
        )
    }
}

/// A record of validation results: the entries that failed, each a key
/// with a message.
#[derive(Debug, Default)]
pub struct Validation {
    failed_entries: Vec<(String, String)>,
}

impl Validation {
    /// The failed entries, for contracts.
    pub closed spec fn spec_entries(&self) -> Seq<(String, String)> {
        self.failed_entries@
    }

    /// Creates a new instance with no failures.
    pub fn new() -> (r: Validation)
        ensures
            r.spec_entries() == Seq::<(String, String)>::empty(),
    {
        Validation { failed_entries: Vec::new() }
    }

    /// Creates a new instance holding the one entry.
    pub fn from_entry(key: String, err: String) -> (r: Validation)
        ensures
            r.spec_entries() == seq![(key, err)],
    {
        let mut failed_entries: Vec<(String, String)> = Vec::new();
        failed_entries.push((key, err));
        proof {
            assert(failed_entries@ =~= seq![(key, err)]);
        }
        Validation { failed_entries }
    }

    /// Records an entry with the supplied message.
    pub fn record(&mut self, key: String, message: String)
        ensures
            final(self).spec_entries() == old(self).spec_entries().push((key, message)),
    {
        self.failed_entries.push((key, message));
    }

    /// Records an entry for the error.
    pub fn record_fail(&mut self, key: String, err: String)
        ensures
            final(self).spec_entries() == old(self).spec_entries().push((key, err)),
    {
        self.failed_entries.push((key, err));
    }

    /// True if the validation holds an entry for the key.
    pub fn contains_key(&self, key: &str) -> (r: bool)
        ensures
            r == exists|i: int|
                0 <= i < self.spec_entries().len() && #[trigger] self.spec_entries()[i].0@ == key@,
    {
        let n = self.failed_entries.len();
        let mut i: usize = 0;
        while i < n
            invariant
                n == self.spec_entries().len(),
                i <= n,
                forall|j: int| 0 <= j < i ==> #[trigger] self.spec_entries()[j].0@ != key@,
            decreases n - i,
        {
            if str_eq(self.failed_entries[i].0.as_str(), key) {
                proof {
                    assert(self.spec_entries()[i as int].0@ == key@);
                }
                return true;
            }
            i += 1;
        }
        false
    }

    /// True if the validation recorded no failure.
    pub fn is_success(&self) -> (r: bool)
        ensures
            r == (self.spec_entries().len() == 0),
    {
        self.failed_entries.is_empty()
    }

    /// Consumes the validation and returns it as a map from keys to
    /// messages.
    pub fn into_map(self) -> (r: JsonMap)
        ensures
            r@ == spec_entries_map(self.spec_entries()),
            r.spec_wf(),
    {
        let ghost all = self.failed_entries@;
        let mut map = JsonMap::new();
        let n = self.failed_entries.len();
        let mut i: usize = 0;
        while i < n
            invariant
                n == all.len(),
                self.failed_entries@ == all,
                i <= n,
                map@ == spec_entries_map(all.take(i as int)),
                map.spec_wf(),
            decreases n - i,
        {
            proof {
                assert(all.take(i + 1).drop_last() =~= all.take(i as int));
                assert(all.take(i + 1).last() == all[i as int]);
            }
            let key = self.failed_entries[i].0.clone();
            let message = self.failed_entries[i].1.clone();
            map.upsert(key, Value::Str(message));
            i += 1;
        }
        proof {
            assert(all.take(n as int) =~= all);
        }
        map
    }

    /// Records the failure of `key`: the message names the format.
    fn record_invalid(&mut self, key: String, format: &str)
        ensures
            final(self).spec_entries().len() == old(self).spec_entries().len() + 1,
            final(self).spec_entries().drop_last() == old(self).spec_entries(),
            final(self).spec_entries().last().0 == key,
            final(self).spec_entries().last().1@ == "invalid "@ + format@,
    {
        let mut message = String::new();
        message.append("invalid ");
        message.append(format);
        self.failed_entries.push((key, message));
    }

    /// Validates the string value against the named format, recording a
    /// failure under `key` when the value does not satisfy it.  An
    /// unknown format records nothing.
    pub fn validate_format(&mut self, key: String, value: &str, format: &str)
        ensures
            spec_format_valid(format@, value@) ==> final(self).spec_entries() == old(
                self).spec_entries(),
            !spec_format_valid(format@, value@) ==> {
                &&& final(self).spec_entries().len() == old(self).spec_entries().len() + 1
                &&& final(self).spec_entries().drop_last() == old(self).spec_entries()
                &&& final(self).spec_entries().last().0 == key
                &&& final(self).spec_entries().last().1@ == "invalid "@ + format@
            },
    {
        let ok = if str_eq(format, "alphabetic") {
            validator::validate_alphabetic(value)
        } else if str_eq(format, "alphanumeric") {
            validator::validate_alphanumeric(value)
        } else if str_eq(format, "ascii") {
            validator::validate_ascii(value)
        } else if str_eq(format, "ascii-alphabetic") {
            validator::validate_ascii_alphabetic(value)
        } else if str_eq(format, "ascii-alphanumeric") {
            validator::validate_ascii_alphanumeric(value)
        } else if str_eq(format, "ascii-digit") {
            validator::validate_ascii_digit(value)
        } else if str_eq(format, "ascii-hexdigit") {
            validator::validate_ascii_hexdigit(value)
        } else if str_eq(format, "ascii-lowercase") {
            validator::validate_ascii_lowercase(value)
        } else if str_eq(format, "ascii-uppercase") {
            validator::validate_ascii_uppercase(value)
        } else if str_eq(format, "date") {
            validator::validate_date(value)
        } else if str_eq(format, "date-time") {
            validator::validate_date_time(value)
        } else if str_eq(format, "host") {
            validator::validate_host(value)
        } else if str_eq(format, "hostname") {
            validator::validate_hostname(value)
        } else if str_eq(format, "ip") {
            validator::validate_ip(value)
        } else if str_eq(format, "ipv4") {
            validator::validate_ipv4(value)
        } else if str_eq(format, "ipv6") {
            validator::validate_ipv6(value)
        } else if str_eq(format, "lowercase") {
            validator::validate_lowercase(value)
        } else if str_eq(format, "numeric") {
            validator::validate_numeric(value)
        } else if str_eq(format, "time") {
            validator::validate_time(value)
        } else if str_eq(format, "uppercase") {
            validator::validate_uppercase(value)
        } else if str_eq(format, "uri") {
            validator::validate_uri(value)
        } else if str_eq(format, "uuid") {
            validator::validate_uuid(value)
        } else {
            // An unsupported format refuses nothing.
            true
        };
        if !ok {
            self.record_invalid(key, format);
        }
    }

    /// Reads a value as a list of strings: the string elements of an
    /// array, or a comma-separated string split into its pieces; `None`
    /// for any other shape.
    pub fn parse_array(value: &Value) -> (r: Option<Vec<String>>)
        ensures
            match *value {
                Value::Array(_) | Value::Str(_) => r matches Some(v) && v@.map_values(
                    |p: String| p@,
                ) == spec_parse_array(*value)->0,
                _ => r is None,
            },
            r is Some <==> spec_parse_array(*value) is Some,
    {
        match value {
            Value::Array(items) => {
                let ghost all = items@;
                let mut out: Vec<String> = Vec::new();
                let n = items.len();
                let mut i: usize = 0;
                while i < n
                    invariant
                        n == all.len(),
                        items@ == all,
                        i <= n,
                        out@.map_values(|p: String| p@) == spec_str_items(all.take(i as int)),
                    decreases n - i,
                {
                    proof {
                        assert(all.take(i + 1).drop_last() =~= all.take(i as int));
                        assert(all.take(i + 1).last() == all[i as int]);
                    }
                    match &items[i] {
                        Value::Str(s) => {
                            out.push(s.clone());
                            proof {
                                assert(out@.map_values(|p: String| p@) =~= spec_str_items(
                                    all.take(i + 1),
                                ));
                            }
                        }
                        _ => {}
                    }
                    i += 1;
                }
                proof {
                    assert(all.take(n as int) =~= all);
                }
                Some(out)
            }
            Value::Str(s) => Some(crate::strings::split_commas(s.as_str())),
            _ => None,
        }
    }

    /// Reads a value as an unsigned count: a non-negative integer, or a
    /// decimal string; `Err` when the value is numeric in shape but not a
    /// representable count, `None` when it has another shape.
    pub fn parse_u64(value: &Value) -> (r: Option<Result<u64, String>>)
        ensures
            match spec_parse_u64(*value) {
                Some(Ok(n)) => r matches Some(x) && x matches Ok(m) && m == n,
                Some(Err(msg)) => r matches Some(x) && x matches Err(e) && e@ == msg,
                None => r is None,
            },
    {
        match value {
            Value::UInt(n) => Some(Ok(*n)),
            Value::Int(n) => {
                if *n >= 0 {
                    Some(Ok(*n as u64))
                } else {
                    let mut message = String::new();
                    message.append("invalid number");
                    Some(Err(message))
                }
            }
            Value::Str(s) => {
                match crate::strings::parse_u64_digits(s.as_str()) {
                    Some(n) => Some(Ok(n)),
                    None => {
                        let mut message = String::new();
                        message.append("invalid number");
                        Some(Err(message))
                    }
                }
            }
            _ => None,
        }
    }

    /// Reads a value as an identifier: `None` when no value is present,
    /// `Ok` when the value is a string in the canonical hyphenated form,
    /// and `Err` with a message otherwise.
    pub fn parse_uuid(value: Option<&Value>) -> (r: Option<Result<crate::uuid::Uuid, String>>)
        ensures
            value is None ==> r is None,
            value matches Some(v) ==> match v.spec_as_str() {
                Some(sv) => if crate::validator::spec_uuid(sv) {
                    r matches Some(x) && x matches Ok(u) && u.spec_value()
                        == crate::uuid::spec_uuid_value(sv)
                } else {
                    r matches Some(x) && x matches Err(e) && e@ == "invalid uuid"@
                },
                None => r matches Some(x) && x matches Err(e) && e@ == "invalid uuid"@,
            },
    {
        let v = match value {
            None => {
                return None;
            }
            Some(v) => v,
        };
        match v {
            Value::Str(s) => {
                match crate::uuid::Uuid::from_hyphenated(s.as_str()) {
                    Some(u) => Some(Ok(u)),
                    None => {
                        let mut message = String::new();
                        message.append("invalid uuid");
                        Some(Err(message))
                    }
                }
            }
            _ => {
                let mut message = String::new();
                message.append("invalid uuid");
                Some(Err(message))
            }
        }
    }

    /// The string a value holds, when it holds one.
    pub fn parse_string(value: Option<&Value>) -> (r: Option<String>)
        ensures
            match r {
                Some(s) => value matches Some(v) && v matches Value::Str(inner) && s@ == inner@,
                None => !(value matches Some(v) && *v matches Value::Str(_)),
            },
    {
        match value {
            Some(Value::Str(s)) => Some(s.clone()),
            _ => None,
        }
    }
}

} // verus!
