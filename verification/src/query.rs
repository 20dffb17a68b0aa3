//! A SQL query builder: projection fields, a filter, an order and a
//! pagination window.

use vstd::prelude::*;
use vstd::string::StrSliceExecFns;
use vstd::string::StringExecFns;

use crate::json::spec_append;
use crate::json::JsonMap;
use crate::json::Value;
use crate::strings::push_decimal;
use crate::validation::Validation;
use crate::strings::spec_contains_char;
use crate::strings::spec_decimal;
use crate::strings::spec_ends_with;
use crate::strings::str_contains_char;
use crate::strings::str_ends_with;
use crate::strings::str_eq;

verus! {

/// True when `field` names one of `columns`, either exactly or as a
/// trailing `"... column"` alias form.
pub open spec fn spec_field_matches(field: Seq<char>, columns: Seq<Seq<char>>) -> bool {
    exists|k: int|
        0 <= k < columns.len() && (field == columns[k] || spec_ends_with(
            field,
            seq![' '] + columns[k],
        ))
}

/// The fields of `fields` that satisfy `keep` about `columns`: kept when
/// `keep_matching` and the field matches, or when `!keep_matching` and it
/// does not.
pub open spec fn spec_sift_fields(
    fields: Seq<String>,
    columns: Seq<Seq<char>>,
    keep_matching: bool,
) -> Seq<String>
    decreases fields.len(),
{
    if fields.len() == 0 {
        Seq::empty()
    } else {
        let rest = spec_sift_fields(fields.drop_last(), columns, keep_matching);
        if spec_field_matches(fields.last()@, columns) == keep_matching {
            rest.push(fields.last())
        } else {
            rest
        }
    }
}

/// The elements of `fields` joined by `", "`.
pub open spec fn spec_join_fields(fields: Seq<String>) -> Seq<char>
    decreases fields.len(),
{
    if fields.len() == 0 {
        Seq::empty()
    } else if fields.len() == 1 {
        fields[0]@
    } else {
        spec_join_fields(fields.drop_last()) + seq![',', ' '] + fields.last()@
    }
}

/// SQL query builder.
#[derive(Debug)]
pub struct Query {
    // Projection fields.
    fields: Vec<String>,
    // Filter.
    filter: JsonMap,
    // Order.
    order: String,
    // Limit.
    limit: u64,
    // Offset.
    offset: u64,
}

impl Query {
    /// The projection fields, for contracts.
    pub closed spec fn spec_fields(&self) -> Seq<String> {
        self.fields@
    }

    /// The filter, for contracts.
    pub closed spec fn spec_filter(&self) -> JsonMap {
        self.filter
    }

    /// The order, for contracts.
    pub closed spec fn spec_order(&self) -> Seq<char> {
        self.order@
    }

    /// The limit, for contracts.
    pub closed spec fn spec_limit(&self) -> u64 {
        self.limit
    }

    /// The offset, for contracts.
    pub closed spec fn spec_offset(&self) -> u64 {
        self.offset
    }

    /// Creates a new instance: no fields, an empty filter, no order, a
    /// limit of 10 and no offset.
    pub fn new() -> (r: Query)
        ensures
            r.spec_fields().len() == 0,
            r.spec_filter()@.len() == 0,
            r.spec_filter().spec_wf(),
            r.spec_order().len() == 0,
            r.spec_limit() == 10,
            r.spec_offset() == 0,
    {
        Query {
            fields: Vec::new(),
            filter: JsonMap::new(),
            order: String::new(),
            limit: 10,
            offset: 0,
        }
    }

    /// True when `field` names one of `columns`, exactly or as a trailing
    /// alias.
    fn field_matches(field: &String, columns: &Vec<String>) -> (r: bool)
        ensures
            r == spec_field_matches(field@, columns@.map_values(|c: String| c@)),
    {
        let ghost cols = columns@.map_values(|c: String| c@);
        let n = columns.len();
        let mut k: usize = 0;
        while k < n
            invariant
                n == columns@.len(),
                cols == columns@.map_values(|c: String| c@),
                k <= n,
                forall|j: int|
                    0 <= j < k ==> !(field@ == cols[j] || spec_ends_with(field@, seq![' '] + cols[j])),
            decreases n - k,
        {
            if str_eq(field.as_str(), columns[k].as_str()) {
                proof {
                    assert(field@ == cols[k as int] || spec_ends_with(
                        field@,
                        seq![' '] + cols[k as int],
                    ));
                }
                return true;
            }
            let mut padded = String::new();
            padded.append(" ");
            padded.append(columns[k].as_str());
            proof {
                reveal_strlit(" ");
                assert(padded@ =~= seq![' '] + cols[k as int]);
            }
            if str_ends_with(field.as_str(), padded.as_str()) {
                proof {
                    assert(field@ == cols[k as int] || spec_ends_with(
                        field@,
                        seq![' '] + cols[k as int],
                    ));
                }
                return true;
            }
            k += 1;
        }
        false
    }

    /// Keeps only the fields that satisfy (`keep_matching`) or fail
    /// (`!keep_matching`) the column match.
    fn sift_fields(&mut self, columns: &Vec<String>, keep_matching: bool)
        ensures
            final(self).spec_fields() == spec_sift_fields(
                old(self).spec_fields(),
                columns@.map_values(|c: String| c@),
                keep_matching,
            ),
            final(self).spec_filter() == old(self).spec_filter(),
            final(self).spec_order() == old(self).spec_order(),
            final(self).spec_limit() == old(self).spec_limit(),
            final(self).spec_offset() == old(self).spec_offset(),
    {
        let ghost cols = columns@.map_values(|c: String| c@);
        let ghost all = self.fields@;
        let mut kept: Vec<String> = Vec::new();
        let n = self.fields.len();
        let mut i: usize = 0;
        while i < n
            invariant
                n == all.len(),
                self.fields@ == all,
                cols == columns@.map_values(|c: String| c@),
                i <= n,
                kept@ == spec_sift_fields(all.take(i as int), cols, keep_matching),
            decreases n - i,
        {
            proof {
                assert(all.take(i + 1).drop_last() =~= all.take(i as int));
                assert(all.take(i + 1).last() == all[i as int]);
            }
            if Self::field_matches(&self.fields[i], columns) == keep_matching {
                kept.push(self.fields[i].clone());
            }
            i += 1;
        }
        proof {
            assert(all.take(n as int) =~= all);
        }
        self.fields = kept;
    }

    /// Retains the projection fields in the allow list of columns.
    /// If the projection fields are empty, they are set to the allow list.
    pub fn allow_fields(&mut self, columns: &Vec<String>)
        ensures
            old(self).spec_fields().len() == 0 ==> final(self).spec_fields() == columns@,
            old(self).spec_fields().len() > 0 ==> final(self).spec_fields() == spec_sift_fields(
                old(self).spec_fields(),
                columns@.map_values(|c: String| c@),
                true,
            ),
            final(self).spec_filter() == old(self).spec_filter(),
            final(self).spec_order() == old(self).spec_order(),
            final(self).spec_limit() == old(self).spec_limit(),
            final(self).spec_offset() == old(self).spec_offset(),
    {
        if self.fields.is_empty() {
            let n = columns.len();
            let mut copied: Vec<String> = Vec::new();
            let mut i: usize = 0;
            while i < n
                invariant
                    n == columns@.len(),
                    i <= n,
                    copied@ =~= columns@.take(i as int),
                decreases n - i,
            {
                copied.push(columns[i].clone());
                i += 1;
            }
            proof {
                assert(columns@.take(n as int) =~= columns@);
            }
            self.fields = copied;
        } else {
            self.sift_fields(columns, true);
        }
    }

    /// Removes the projection fields in the deny list of columns.
    pub fn deny_fields(&mut self, columns: &Vec<String>)
        ensures
            final(self).spec_fields() == spec_sift_fields(
                old(self).spec_fields(),
                columns@.map_values(|c: String| c@),
                false,
            ),
            final(self).spec_filter() == old(self).spec_filter(),
            final(self).spec_order() == old(self).spec_order(),
            final(self).spec_limit() == old(self).spec_limit(),
            final(self).spec_offset() == old(self).spec_offset(),
    {
        self.sift_fields(columns, false);
    }

    /// Appends to the query filter, leaving `filter` empty.
    pub fn append_filter(&mut self, filter: &mut JsonMap)
        ensures
            final(self).spec_filter()@ == spec_append(old(self).spec_filter()@, old(filter)@),
            final(filter)@.len() == 0,
            old(self).spec_filter().spec_wf() ==> final(self).spec_filter().spec_wf(),
            final(self).spec_fields() == old(self).spec_fields(),
            final(self).spec_order() == old(self).spec_order(),
            final(self).spec_limit() == old(self).spec_limit(),
            final(self).spec_offset() == old(self).spec_offset(),
    {
        self.filter.append(filter);
    }

    /// Inserts a key-value pair into the query filter.
    pub fn insert_filter(&mut self, key: String, value: Value)
        ensures
            final(self).spec_filter()@ == crate::json::spec_insert(
                old(self).spec_filter()@,
                key,
                value,
            ),
            old(self).spec_filter().spec_wf() ==> final(self).spec_filter().spec_wf(),
            final(self).spec_fields() == old(self).spec_fields(),
            final(self).spec_order() == old(self).spec_order(),
            final(self).spec_limit() == old(self).spec_limit(),
            final(self).spec_offset() == old(self).spec_offset(),
    {
        self.filter.insert(key, value);
    }

    /// Sets the query order.
    pub fn set_order(&mut self, order: String)
        ensures
            final(self).spec_order() == order@,
            final(self).spec_fields() == old(self).spec_fields(),
            final(self).spec_filter() == old(self).spec_filter(),
            final(self).spec_limit() == old(self).spec_limit(),
            final(self).spec_offset() == old(self).spec_offset(),
    {
        self.order = order;
    }

    /// Sets the query limit.
    pub fn set_limit(&mut self, limit: u64)
        ensures
            final(self).spec_limit() == limit,
            final(self).spec_fields() == old(self).spec_fields(),
            final(self).spec_filter() == old(self).spec_filter(),
            final(self).spec_order() == old(self).spec_order(),
            final(self).spec_offset() == old(self).spec_offset(),
    {
        self.limit = limit;
    }

    /// Sets the query offset.
    pub fn set_offset(&mut self, offset: u64)
        ensures
            final(self).spec_offset() == offset,
            final(self).spec_fields() == old(self).spec_fields(),
            final(self).spec_filter() == old(self).spec_filter(),
            final(self).spec_order() == old(self).spec_order(),
            final(self).spec_limit() == old(self).spec_limit(),
    {
        self.offset = offset;
    }

    /// A reference to the projection fields.
    pub fn fields(&self) -> (r: &Vec<String>)
        ensures
            r@ == self.spec_fields(),
    {
        &self.fields
    }

    /// A reference to the filter.
    pub fn filter(&self) -> (r: &JsonMap)
        ensures
            *r == self.spec_filter(),
    {
        &self.filter
    }

    /// A reference to the sort order.
    pub fn order(&self) -> (r: &str)
        ensures
            r@ == self.spec_order(),
    {
        self.order.as_str()
    }

    /// The query limit.
    pub fn limit(&self) -> (r: u64)
        ensures
            r == self.spec_limit(),
    {
        self.limit
    }

    /// The query offset.
    pub fn offset(&self) -> (r: u64)
        ensures
            r == self.spec_offset(),
    {
        self.offset
    }

    /// Formats the projection fields: every field joined by `", "`, or
    /// `"*"` when there are none.
    pub fn format_fields(&self) -> (r: String)
        ensures
            self.spec_fields().len() == 0 ==> r@ == "*"@,
            self.spec_fields().len() > 0 ==> r@ == spec_join_fields(self.spec_fields()),
    {
        let ghost all = self.fields@;
        if self.fields.is_empty() {
            let mut out = String::new();
            out.append("*");
            proof {
                assert(out@ =~= "*"@);
            }
            return out;
        }
        let mut out = String::new();
        let n = self.fields.len();
        let mut i: usize = 0;
        while i < n
            invariant
                n == all.len(),
                n > 0,
                self.fields@ == all,
                i <= n,
                out@ == spec_join_fields(all.take(i as int)),
            decreases n - i,
        {
            proof {
                assert(all.take(i + 1).drop_last() =~= all.take(i as int));
                assert(all.take(i + 1).last() == all[i as int]);
            }
            if i > 0 {
                out.append(", ");
                proof {
                    reveal_strlit(", ");
                    assert(", "@ =~= seq![',', ' ']);
                }
            }
            out.append(self.fields[i].as_str());
            proof {
                if i == 0 {
                    assert(out@ =~= spec_join_fields(all.take(1)));
                }
            }
            i += 1;
        }
        proof {
            assert(all.take(n as int) =~= all);
        }
        out
    }

    /// Formats the query sort: `"ORDER BY "` followed by the order, or
    /// nothing when no order is set.
    pub fn format_sort(&self) -> (r: String)
        ensures
            self.spec_order().len() == 0 ==> r@ == Seq::<char>::empty(),
            self.spec_order().len() > 0 ==> r@ == "ORDER BY "@ + self.spec_order(),
    {
        if self.order.as_str().is_empty() {
            String::new()
        } else {
            let mut out = String::new();
            out.append("ORDER BY ");
            out.append(self.order.as_str());
            out
        }
    }

    /// Formats the pagination window: `"LIMIT <limit> OFFSET <offset>"`,
    /// or `"LIMIT <limit>"` alone when the order's leading column is also
    /// a filter key (the filter condition already narrows the offset).
    pub fn format_pagination(&self) -> (r: String)
        ensures
            r@ == if self.spec_sort_column_filtered() {
                "LIMIT "@ + spec_decimal(self.spec_limit() as nat)
            } else {
                "LIMIT "@ + spec_decimal(self.spec_limit() as nat) + " OFFSET "@ + spec_decimal(
                    self.spec_offset() as nat,
                )
            },
    {
        let short = match self.sort_column() {
            Some(sort_by) => self.filter.contains_key(sort_by.as_str()),
            None => false,
        };
        let mut out = String::new();
        out.append("LIMIT ");
        push_decimal(&mut out, self.limit);
        if !short {
            out.append(" OFFSET ");
            push_decimal(&mut out, self.offset);
        }
        out
    }

    /// The order's leading column: what stands before the first space of
    /// the order string, when there is a space.
    pub closed spec fn spec_sort_column(&self) -> Option<Seq<char>> {
        if spec_contains_char(self.order@, ' ') {
            Some(self.order@.take(crate::strings::spec_first_index_of(self.order@, ' ')))
        } else {
            None
        }
    }

    /// Whether the order's leading column is also a filter key.
    pub open spec fn spec_sort_column_filtered(&self) -> bool {
        match self.spec_sort_column() {
            Some(col) => crate::json::spec_has_key(self.spec_filter()@, col),
            None => false,
        }
    }

    /// The order's leading column, when the order holds a space.
    fn sort_column(&self) -> (r: Option<String>)
        ensures
            match r {
                Some(s) => self.spec_sort_column() == Some(s@),
                None => self.spec_sort_column() is None,
            },
    {
        if str_contains_char(self.order.as_str(), ' ') {
            let k = crate::strings::first_index_of(self.order.as_str(), ' ');
            let head = self.order.as_str().substring_char(0, k);
            proof {
                assert(head@ =~= self.order@.take(k as int));
            }
            Some(head.to_owned())
        } else {
            None
        }
    }
}

/// How `read_map` pins one stored filter value: a value moved in whole,
/// an array holding exactly the given values, or an object read through
/// its keys' characters.
pub ghost enum FilterEntry {
    /// The stored value is exactly this value.
    Plain(Value),
    /// The stored value is an array holding exactly these values.
    ArrayOf(Seq<Value>),
    /// The stored value is an object with exactly these entries.
    ObjectOf(Seq<(Seq<char>, Value)>),
}

/// Whether the stored value `v` is what the mirror `fe` says it is.
pub open spec fn val_matches(v: Value, fe: FilterEntry) -> bool {
    match fe {
        FilterEntry::Plain(p) => v == p,
        FilterEntry::ArrayOf(items) => v matches Value::Array(vec) && vec@ == items,
        FilterEntry::ObjectOf(entries) => v matches Value::Object(m) && crate::json::pairs_view(
            m@,
        ) == entries,
    }
}

/// Whether a stored filter entry is what its mirror says it is.
pub open spec fn entry_matches(e: (String, Value), f: (Seq<char>, FilterEntry)) -> bool {
    e.0@ == f.0 && val_matches(e.1, f.1)
}

/// The first index of `key` in the filter's mirror, or `-1`.
pub open spec fn spec_filter_index(filter: Seq<(Seq<char>, FilterEntry)>, key: Seq<char>) -> int
    decreases filter.len(),
{
    if filter.len() == 0 {
        -1
    } else if filter[0].0 == key {
        0
    } else {
        let rest = spec_filter_index(filter.drop_first(), key);
        if rest == -1 {
            -1
        } else {
            rest + 1
        }
    }
}

/// Inserting into the mirror: replace in place, or append a new key.
pub open spec fn spec_filter_set(
    filter: Seq<(Seq<char>, FilterEntry)>,
    key: Seq<char>,
    fe: FilterEntry,
) -> Seq<(Seq<char>, FilterEntry)> {
    let k = spec_filter_index(filter, key);
    if k == -1 {
        filter.push((key, fe))
    } else {
        filter.update(k, (filter[k].0, fe))
    }
}

/// Key lookup agrees between the stored entries and their mirror.
pub proof fn lemma_filter_index_agrees(
    actual: Seq<(String, Value)>,
    mirror: Seq<(Seq<char>, FilterEntry)>,
    key: Seq<char>,
)
    requires
        actual.len() == mirror.len(),
        forall|i: int| 0 <= i < actual.len() ==> (#[trigger] actual[i]).0@ == mirror[i].0,
    ensures
        crate::json::spec_index_of_key(actual, key) == spec_filter_index(mirror, key),
    decreases actual.len(),
{
    if actual.len() > 0 {
        assert forall|i: int| 0 <= i < actual.drop_first().len() implies (#[trigger] actual
            .drop_first()[i]).0@ == mirror.drop_first()[i].0 by {
            assert(actual.drop_first()[i] == actual[i + 1]);
            assert(mirror.drop_first()[i] == mirror[i + 1]);
        }
        lemma_filter_index_agrees(actual.drop_first(), mirror.drop_first(), key);
    }
}

/// Setting a key keeps the stored entries matching their mirror.
pub proof fn lemma_set_preserves_matches(
    actual: Seq<(String, Value)>,
    mirror: Seq<(Seq<char>, FilterEntry)>,
    key: String,
    v: Value,
    fe: FilterEntry,
)
    requires
        actual.len() == mirror.len(),
        forall|i: int| 0 <= i < actual.len() ==> #[trigger] entry_matches(actual[i], mirror[i]),
        val_matches(v, fe),
    ensures
        crate::json::spec_insert(actual, key, v).len() == spec_filter_set(mirror, key@, fe).len(),
        forall|i: int|
            0 <= i < crate::json::spec_insert(actual, key, v).len() ==> #[trigger] entry_matches(
                crate::json::spec_insert(actual, key, v)[i],
                spec_filter_set(mirror, key@, fe)[i],
            ),
{
    assert forall|i: int| 0 <= i < actual.len() implies (#[trigger] actual[i]).0@
        == mirror[i].0 by {
        assert(entry_matches(actual[i], mirror[i]));
    }
    lemma_filter_index_agrees(actual, mirror, key@);
    crate::json::lemma_index_of_key(actual, key@);
    let k = crate::json::spec_index_of_key(actual, key@);
    let new_actual = crate::json::spec_insert(actual, key, v);
    let new_mirror = spec_filter_set(mirror, key@, fe);
    assert forall|i: int| 0 <= i < new_actual.len() implies #[trigger] entry_matches(
        new_actual[i],
        new_mirror[i],
    ) by {
        if k == -1 {
            if i < actual.len() {
                assert(entry_matches(actual[i], mirror[i]));
                assert(new_actual[i] == actual[i]);
                assert(new_mirror[i] == mirror[i]);
            } else {
                assert(new_actual[i] == (key, v));
                assert(new_mirror[i] == (key@, fe));
            }
        } else {
            if i != k {
                assert(entry_matches(actual[i], mirror[i]));
                assert(new_actual[i] == actual[i]);
                assert(new_mirror[i] == mirror[i]);
            } else {
                assert(new_actual[k] == (actual[k].0, v));
                assert(new_mirror[k] == (mirror[k].0, fe));
                assert(entry_matches(actual[k], mirror[k]));
            }
        }
    }
}

/// Updating one key keeps the stored entries matching their mirror.
pub proof fn lemma_update_preserves_matches(
    actual: Seq<(String, Value)>,
    mirror: Seq<(Seq<char>, FilterEntry)>,
    k: int,
    e: (String, Value),
    fe: FilterEntry,
)
    requires
        actual.len() == mirror.len(),
        0 <= k < actual.len(),
        forall|i: int| 0 <= i < actual.len() ==> #[trigger] entry_matches(actual[i], mirror[i]),
        e.0@ == mirror[k].0,
        val_matches(e.1, fe),
    ensures
        forall|i: int|
            0 <= i < actual.len() ==> #[trigger] entry_matches(
                actual.update(k, e)[i],
                mirror.update(k, (mirror[k].0, fe))[i],
            ),
{
    assert forall|i: int| 0 <= i < actual.len() implies #[trigger] entry_matches(
        actual.update(k, e)[i],
        mirror.update(k, (mirror[k].0, fe))[i],
    ) by {
        if i != k {
            assert(entry_matches(actual[i], mirror[i]));
            assert(actual.update(k, e)[i] == actual[i]);
            assert(mirror.update(k, (mirror[k].0, fe))[i] == mirror[i]);
        }
    }
}

/// What inserting `value` at `index` leaves of an array: the array is
/// first padded with nulls up to `index` when shorter.
pub open spec fn spec_array_insert(items: Seq<Value>, index: int, value: Value) -> Seq<Value> {
    let padded = if index > items.len() {
        items + Seq::new((index - items.len()) as nat, |j: int| Value::Null)
    } else {
        items
    };
    padded.insert(index, value)
}

/// The running state of `read_map`: every component of the query in
/// mathematical form, the filter mirrored entry by entry, and the
/// validation failures gathered so far.
pub ghost struct ReadState {
    /// The projection fields' characters.
    pub fields: Seq<Seq<char>>,
    /// The filter's mirror.
    pub filter: Seq<(Seq<char>, FilterEntry)>,
    /// The order text accumulated so far.
    pub order: Seq<char>,
    /// The limit.
    pub limit: u64,
    /// The offset.
    pub offset: u64,
    /// The failed entries: key and message characters.
    pub fails: Seq<(Seq<char>, Seq<char>)>,
}

/// What one entry of the map does to the running state: the documented
/// behaviour of `read_map` for that key.
pub open spec fn spec_read_step(st: ReadState, key: Seq<char>, value: Value) -> ReadState {
    if key == "fields"@ {
        match crate::validation::spec_parse_array(value) {
            Some(fs) => ReadState { fields: fs, ..st },
            None => st,
        }
    } else if key == "sort_by"@ {
        match value.spec_as_str() {
            Some(sv) => ReadState {
                order: (if spec_contains_char(sv, '.') {
                    crate::strings::spec_expand_dots(sv) + seq!['\'']
                } else {
                    sv
                }) + st.order,
                ..st
            },
            None => st,
        }
    } else if key == "sort_order"@ {
        match value.spec_as_str() {
            Some(sv) => ReadState {
                order: st.order + (if crate::strings::spec_is_asc_ignore_case(sv) {
                    " ASC"@
                } else {
                    " DESC"@
                }),
                ..st
            },
            None => st,
        }
    } else if key == "limit"@ {
        match crate::validation::spec_parse_u64(value) {
            Some(parsed) => match parsed {
                Ok(n) => ReadState { limit: n, ..st },
                Err(m) => ReadState { fails: st.fails.push((key, m)), ..st },
            },
            None => st,
        }
    } else if key == "offset"@ {
        match crate::validation::spec_parse_u64(value) {
            Some(parsed) => match parsed {
                Ok(n) => ReadState { offset: n, ..st },
                Err(m) => ReadState { fails: st.fails.push((key, m)), ..st },
            },
            None => st,
        }
    } else if key == "timestamp"@ || key == "nonce"@ || key == "signature"@ {
        st
    } else if key.len() > 0 && key[0] == '$' {
        st
    } else if spec_contains_char(key, '.') {
        let k = crate::strings::spec_first_index_of(key, '.');
        let key1 = key.take(k);
        let path = key.skip(k + 1);
        let fi = spec_filter_index(st.filter, key1);
        if crate::strings::spec_index_numeral(path) {
            let index = crate::strings::spec_index_value(path);
            if fi == -1 {
                ReadState {
                    filter: st.filter.push(
                        (key1, FilterEntry::ArrayOf(spec_array_insert(Seq::empty(), index, value))),
                    ),
                    ..st
                }
            } else {
                match st.filter[fi].1 {
                    FilterEntry::Plain(stored) => match stored {
                        Value::Array(vec) => ReadState {
                            filter: st.filter.update(
                                fi,
                                (
                                    st.filter[fi].0,
                                    FilterEntry::ArrayOf(spec_array_insert(vec@, index, value)),
                                ),
                            ),
                            ..st
                        },
                        _ => st,
                    },
                    FilterEntry::ArrayOf(items) => ReadState {
                        filter: st.filter.update(
                            fi,
                            (
                                st.filter[fi].0,
                                FilterEntry::ArrayOf(spec_array_insert(items, index, value)),
                            ),
                        ),
                        ..st
                    },
                    FilterEntry::ObjectOf(_) => st,
                }
            }
        } else {
            if fi == -1 {
                ReadState {
                    filter: st.filter.push((key1, FilterEntry::ObjectOf(seq![(path, value)]))),
                    ..st
                }
            } else {
                match st.filter[fi].1 {
                    FilterEntry::Plain(stored) => match stored {
                        Value::Object(m) => ReadState {
                            filter: st.filter.update(
                                fi,
                                (
                                    st.filter[fi].0,
                                    FilterEntry::ObjectOf(
                                        crate::json::spec_obj_set(
                                            crate::json::pairs_view(m@),
                                            path,
                                            value,
                                        ),
                                    ),
                                ),
                            ),
                            ..st
                        },
                        _ => st,
                    },
                    FilterEntry::ObjectOf(entries) => ReadState {
                        filter: st.filter.update(
                            fi,
                            (
                                st.filter[fi].0,
                                FilterEntry::ObjectOf(
                                    crate::json::spec_obj_set(entries, path, value),
                                ),
                            ),
                        ),
                        ..st
                    },
                    FilterEntry::ArrayOf(_) => st,
                }
            }
        }
    } else if value.spec_as_str() matches Some(sv) && (sv.len() == 0 || sv == "all"@) {
        st
    } else {
        ReadState { filter: spec_filter_set(st.filter, key, FilterEntry::Plain(value)), ..st }
    }
}

/// The state after reading every entry, front to back.
pub open spec fn spec_read_fold(st: ReadState, entries: Seq<(String, Value)>) -> ReadState
    decreases entries.len(),
{
    if entries.len() == 0 {
        st
    } else {
        spec_read_step(
            spec_read_fold(st, entries.drop_last()),
            entries.last().0@,
            entries.last().1,
        )
    }
}

/// What the order becomes once reading finishes: the accumulated text,
/// given a direction when it has none, or the previous order when the
/// accumulation is empty or starts with a bare direction.
pub open spec fn spec_final_order(prev: Seq<char>, acc: Seq<char>) -> Seq<char> {
    if acc.len() == 0 || acc[0] == ' ' {
        prev
    } else if spec_ends_with(acc, " ASC"@) || spec_ends_with(acc, " DESC"@) {
        acc
    } else {
        acc + " DESC"@
    }
}

impl Query {
    /// Updates the query from the map and returns the validation result.
    ///
    /// Entries are read in order.  `fields`, `sort_by`, `sort_order`,
    /// `limit` and `offset` set the corresponding parts; `timestamp`,
    /// `nonce`, `signature` and keys starting with `$` are passed over;
    /// a `key.index` entry inserts into an array stored under `key`, a
    /// `key.path` entry into an object stored under `key`; every other
    /// entry lands in the filter, except the strings `""` and `"all"`.
    /// [`spec_read_fold`] states each step exactly.
    #[verifier::rlimit(100)]
    pub fn read_map(&mut self, data: JsonMap) -> (validation: Validation)
        ensures
            ({
                let st0 = ReadState {
                    fields: old(self).spec_fields().map_values(|f: String| f@),
                    filter: old(self).spec_filter()@.map_values(
                        |e: (String, Value)| (e.0@, FilterEntry::Plain(e.1)),
                    ),
                    order: Seq::empty(),
                    limit: old(self).spec_limit(),
                    offset: old(self).spec_offset(),
                    fails: Seq::empty(),
                };
                let st = spec_read_fold(st0, data@);
                &&& final(self).spec_fields().map_values(|f: String| f@) == st.fields
                &&& final(self).spec_filter()@.len() == st.filter.len()
                &&& (forall|i: int|
                    0 <= i < st.filter.len() ==> #[trigger] entry_matches(
                        final(self).spec_filter()@[i],
                        st.filter[i],
                    ))
                &&& final(self).spec_order() == spec_final_order(old(self).spec_order(), st.order)
                &&& final(self).spec_limit() == st.limit
                &&& final(self).spec_offset() == st.offset
                &&& validation.spec_entries().map_values(|e: (String, String)| (e.0@, e.1@))
                    == st.fails
            }),
            old(self).spec_filter().spec_wf() ==> final(self).spec_filter().spec_wf(),
    {
        let ghost st0 = ReadState {
            fields: self.spec_fields().map_values(|f: String| f@),
            filter: self.spec_filter()@.map_values(
                |e: (String, Value)| (e.0@, FilterEntry::Plain(e.1)),
            ),
            order: Seq::empty(),
            limit: self.spec_limit(),
            offset: self.spec_offset(),
            fails: Seq::empty(),
        };
        let mut validation = Validation::new();
        let mut order_acc = String::new();
        let mut entries = data.into_entries();
        let ghost all = entries@;
        proof {
            assert(all.take(0) =~= Seq::<(String, Value)>::empty());
            assert forall|i: int|
                0 <= i < st0.filter.len() implies #[trigger] entry_matches(
                self.spec_filter()@[i],
                st0.filter[i],
            ) by {
                assert(st0.filter[i] == (self.spec_filter()@[i].0@, FilterEntry::Plain(
                    self.spec_filter()@[i].1,
                )));
            }
            assert(entries@ =~= all.skip(0));
        }
        while entries.len() > 0
            invariant
                entries@.len() <= all.len(),
                entries@ == all.skip(all.len() - entries@.len()),
                ({
                    let st = spec_read_fold(st0, all.take(all.len() - entries@.len()));
                    &&& self.spec_fields().map_values(|f: String| f@) == st.fields
                    &&& self.spec_filter()@.len() == st.filter.len()
                    &&& (forall|i: int|
                        0 <= i < st.filter.len() ==> #[trigger] entry_matches(
                            self.spec_filter()@[i],
                            st.filter[i],
                        ))
                    &&& order_acc@ == st.order
                    &&& self.spec_limit() == st.limit
                    &&& self.spec_offset() == st.offset
                    &&& validation.spec_entries().map_values(|e: (String, String)| (e.0@, e.1@))
                        == st.fails
                }),
                self.spec_order() == old(self).spec_order(),
                old(self).spec_filter().spec_wf() ==> self.spec_filter().spec_wf(),
                st0 == (ReadState {
                    fields: old(self).spec_fields().map_values(|f: String| f@),
                    filter: old(self).spec_filter()@.map_values(
                        |e: (String, Value)| (e.0@, FilterEntry::Plain(e.1)),
                    ),
                    order: Seq::<char>::empty(),
                    limit: old(self).spec_limit(),
                    offset: old(self).spec_offset(),
                    fails: Seq::<(Seq<char>, Seq<char>)>::empty(),
                }),
            decreases entries@.len(),
        {
            let ghost processed = all.len() - entries@.len();
            let ghost st_pre = spec_read_fold(st0, all.take(processed));
            let ghost pre_actual = self.spec_filter()@;
            proof {
                assert(all.take(processed + 1).drop_last() =~= all.take(processed));
                assert(all.take(processed + 1).last() == all[processed]);
                assert(entries@[0] == all.skip(processed)[0]);
                assert forall|i: int| 0 <= i < pre_actual.len() implies (#[trigger] pre_actual[i]).0@
                    == st_pre.filter[i].0 by {
                    assert(entry_matches(self.spec_filter()@[i], st_pre.filter[i]));
                }
            }
            let entry = entries.remove(0);
            proof {
                assert(entries@ =~= all.skip(processed + 1));
            }
            let key = entry.0;
            let value = entry.1;
            let ghost kv = key@;
            let ghost vvalue = value;
            if str_eq(key.as_str(), "fields") {
                if let Some(fs) = Validation::parse_array(&value) {
                    self.fields = fs;
                }
            } else if str_eq(key.as_str(), "sort_by") {
                if let Some(sv) = Validation::parse_string(Some(&value)) {
                    let ghost svv = sv@;
                    let mut t = if str_contains_char(sv.as_str(), '.') {
                        let mut expanded = crate::strings::expand_dots(sv.as_str());
                        expanded.append("'");
                        proof {
                            reveal_strlit("'");
                            assert(expanded@ =~= crate::strings::spec_expand_dots(svv)
                                + seq!['\'']);
                        }
                        expanded
                    } else {
                        sv
                    };
                    t.append(order_acc.as_str());
                    order_acc = t;
                }
            } else if str_eq(key.as_str(), "sort_order") {
                if let Some(sv) = Validation::parse_string(Some(&value)) {
                    if crate::strings::is_asc_ignore_case(sv.as_str()) {
                        order_acc.append(" ASC");
                    } else {
                        order_acc.append(" DESC");
                    }
                }
            } else if str_eq(key.as_str(), "limit") {
                match Validation::parse_u64(&value) {
                    Some(result) => match result {
                        Ok(n) => {
                            self.limit = n;
                        }
                        Err(msg) => {
                            validation.record_fail(key, msg);
                            proof {
                                assert(validation.spec_entries().map_values(
                                    |e: (String, String)| (e.0@, e.1@),
                                ) =~= st_pre.fails.push((kv, "invalid number"@)));
                            }
                        }
                    },
                    None => {}
                }
            } else if str_eq(key.as_str(), "offset") {
                match Validation::parse_u64(&value) {
                    Some(result) => match result {
                        Ok(n) => {
                            self.offset = n;
                        }
                        Err(msg) => {
                            validation.record_fail(key, msg);
                            proof {
                                assert(validation.spec_entries().map_values(
                                    |e: (String, String)| (e.0@, e.1@),
                                ) =~= st_pre.fails.push((kv, "invalid number"@)));
                            }
                        }
                    },
                    None => {}
                }
            } else if str_eq(key.as_str(), "timestamp") || str_eq(key.as_str(), "nonce")
                || str_eq(key.as_str(), "signature") {
            } else if key.as_str().unicode_len() > 0 && key.as_str().get_char(0) == '$' {
            } else if str_contains_char(key.as_str(), '.') {
                let k = crate::strings::first_index_of(key.as_str(), '.');
                let klen = key.as_str().unicode_len();
                let key1 = key.as_str().substring_char(0, k).to_owned();
                let path = key.as_str().substring_char(k + 1, klen).to_owned();
                proof {
                    assert(key1@ =~= kv.take(k as int));
                    assert(path@ =~= kv.skip(k + 1));
                }
                match crate::strings::parse_index(path.as_str()) {
                    Some(index) => {
                        match self.filter.index_of(key1.as_str()) {
                            None => {
                                proof {
                                    lemma_filter_index_agrees(pre_actual, st_pre.filter, key1@);
                                }
                                let mut items: Vec<Value> = Vec::new();
                                while items.len() < index
                                    invariant
                                        items@.len() <= index,
                                        items@ =~= Seq::new(items@.len(), |j: int| Value::Null),
                                    decreases index - items@.len(),
                                {
                                    items.push(Value::Null);
                                    proof {
                                        assert(items@ =~= Seq::new(
                                            items@.len(),
                                            |j: int| Value::Null,
                                        ));
                                    }
                                }
                                items.insert(index, value);
                                proof {
                                    assert(items@ =~= spec_array_insert(
                                        Seq::empty(),
                                        index as int,
                                        vvalue,
                                    ));
                                }
                                let ghost fe = FilterEntry::ArrayOf(items@);
                                let ghost av = Value::Array(items);
                                let ghost k1 = key1;
                                proof {
                                    lemma_set_preserves_matches(
                                        pre_actual,
                                        st_pre.filter,
                                        key1,
                                        Value::Array(items),
                                        fe,
                                    );
                                }
                                self.filter.insert(key1, Value::Array(items));
                                proof {
                                    let st_post = spec_read_step(st_pre, kv, vvalue);
                                    assert(st_post.filter =~= spec_filter_set(
                                        st_pre.filter,
                                        k1@,
                                        fe,
                                    ));
                                    assert forall|i: int|
                                        0 <= i < st_post.filter.len() implies
                                        #[trigger] entry_matches(
                                        self.spec_filter()@[i],
                                        st_post.filter[i],
                                    ) by {
                                        assert(entry_matches(
                                            crate::json::spec_insert(pre_actual, k1, av)[i],
                                            spec_filter_set(st_pre.filter, k1@, fe)[i],
                                        ));
                                    }
                                }
                            }
                            Some(fi) => {
                                proof {
                                    lemma_filter_index_agrees(pre_actual, st_pre.filter, key1@);
                                    crate::json::lemma_index_of_key(pre_actual, key1@);
                                    assert(entry_matches(pre_actual[fi as int], st_pre.filter[fi as int]));
                                }
                                let stored = self.filter.take_at(fi);
                                let stored_key = stored.0;
                                match stored.1 {
                                    Value::Array(mut items) => {
                                        let ghost base = items@;
                                        if index > items.len() {
                                            while items.len() < index
                                                invariant
                                                    base.len() <= items@.len() <= index,
                                                    items@ =~= base + Seq::new(
                                                        (items@.len() - base.len()) as nat,
                                                        |j: int| Value::Null,
                                                    ),
                                                decreases index - items@.len(),
                                            {
                                                items.push(Value::Null);
                                                proof {
                                                    assert(items@ =~= base + Seq::new(
                                                        (items@.len() - base.len()) as nat,
                                                        |j: int| Value::Null,
                                                    ));
                                                }
                                            }
                                        }
                                        items.insert(index, value);
                                        proof {
                                            assert(items@ =~= spec_array_insert(
                                                base,
                                                index as int,
                                                vvalue,
                                            ));
                                        }
                                        self.filter.put_at(fi, (stored_key, Value::Array(items)));
                                        proof {
                                            let fi_i = fi as int;
                                            assert(self.spec_filter()@ =~= pre_actual.update(
                                                fi_i,
                                                (pre_actual[fi_i].0, self.spec_filter()@[fi_i].1),
                                            ));
                                            let st_post = spec_read_step(st_pre, kv, vvalue);
                                            let new_items = spec_array_insert(
                                                base,
                                                index as int,
                                                vvalue,
                                            );
                                            match st_pre.filter[fi_i].1 {
                                                FilterEntry::Plain(p) => {
                                                    assert(p == pre_actual[fi_i].1);
                                                }
                                                FilterEntry::ArrayOf(sq) => {
                                                    assert(sq == base);
                                                }
                                                FilterEntry::ObjectOf(_) => {
                                                    assert(false);
                                                }
                                            }
                                            assert(st_post.filter =~= st_pre.filter.update(
                                                fi_i,
                                                (
                                                    st_pre.filter[fi_i].0,
                                                    FilterEntry::ArrayOf(new_items),
                                                ),
                                            ));
                                            lemma_update_preserves_matches(
                                                pre_actual,
                                                st_pre.filter,
                                                fi_i,
                                                self.spec_filter()@[fi_i],
                                                FilterEntry::ArrayOf(new_items),
                                            );
                                            assert forall|i: int|
                                                0 <= i < st_post.filter.len() implies
                                                #[trigger] entry_matches(
                                                self.spec_filter()@[i],
                                                st_post.filter[i],
                                            ) by {
                                                assert(entry_matches(
                                                    pre_actual.update(
                                                        fi_i,
                                                        self.spec_filter()@[fi_i],
                                                    )[i],
                                                    st_pre.filter.update(
                                                        fi_i,
                                                        (
                                                            st_pre.filter[fi_i].0,
                                                            FilterEntry::ArrayOf(new_items),
                                                        ),
                                                    )[i],
                                                ));
                                            }
                                            assert forall|i: int|
                                                0 <= i < self.spec_filter()@.len() implies (
                                            #[trigger] self.spec_filter()@[i]).0@
                                                == pre_actual[i].0@ by {}
                                        }
                                    }
                                    other => {
                                        self.filter.put_at(fi, (stored_key, other));
                                        proof {
                                            assert(self.spec_filter()@ =~= pre_actual);
                                            let st_post = spec_read_step(st_pre, kv, vvalue);
                                            match st_pre.filter[fi as int].1 {
                                                FilterEntry::Plain(p) => {
                                                    assert(p == pre_actual[fi as int].1);
                                                }
                                                FilterEntry::ArrayOf(_) => {
                                                    assert(false);
                                                }
                                                FilterEntry::ObjectOf(_) => {}
                                            }
                                            assert(st_post.filter == st_pre.filter);
                                            assert forall|i: int|
                                                0 <= i < st_post.filter.len() implies
                                                #[trigger] entry_matches(
                                                self.spec_filter()@[i],
                                                st_post.filter[i],
                                            ) by {
                                                assert(entry_matches(
                                                    pre_actual[i],
                                                    st_pre.filter[i],
                                                ));
                                                assert(self.spec_filter()@[i] == pre_actual[i]);
                                            }
                                        }
                                    }
                                }
                            }
                        }
                    }
                    None => {
                        match self.filter.index_of(key1.as_str()) {
                            None => {
                                proof {
                                    lemma_filter_index_agrees(pre_actual, st_pre.filter, key1@);
                                }
                                let mut m = JsonMap::new();
                                m.insert(path, value);
                                let ghost fe = FilterEntry::ObjectOf(
                                    crate::json::pairs_view(m@),
                                );
                                let ghost ov = Value::Object(m);
                                let ghost k1 = key1;
                                proof {
                                    assert(crate::json::pairs_view(m@) =~= seq![
                                        (kv.skip(k + 1), vvalue),
                                    ]);
                                    lemma_set_preserves_matches(
                                        pre_actual,
                                        st_pre.filter,
                                        key1,
                                        Value::Object(m),
                                        fe,
                                    );
                                }
                                self.filter.insert(key1, Value::Object(m));
                                proof {
                                    let st_post = spec_read_step(st_pre, kv, vvalue);
                                    assert(st_post.filter =~= spec_filter_set(
                                        st_pre.filter,
                                        k1@,
                                        fe,
                                    ));
                                    assert forall|i: int|
                                        0 <= i < st_post.filter.len() implies
                                        #[trigger] entry_matches(
                                        self.spec_filter()@[i],
                                        st_post.filter[i],
                                    ) by {
                                        assert(entry_matches(
                                            crate::json::spec_insert(pre_actual, k1, ov)[i],
                                            spec_filter_set(st_pre.filter, k1@, fe)[i],
                                        ));
                                    }
                                }
                            }
                            Some(fi) => {
                                proof {
                                    lemma_filter_index_agrees(pre_actual, st_pre.filter, key1@);
                                    crate::json::lemma_index_of_key(pre_actual, key1@);
                                    assert(entry_matches(pre_actual[fi as int], st_pre.filter[fi as int]));
                                }
                                let stored = self.filter.take_at(fi);
                                let stored_key = stored.0;
                                match stored.1 {
                                    Value::Object(mut m) => {
                                        let ghost m0 = m@;
                                        proof {
                                            crate::json::lemma_obj_set_agrees(m0, path, vvalue);
                                        }
                                        m.insert(path, value);
                                        self.filter.put_at(fi, (stored_key, Value::Object(m)));
                                        proof {
                                            let fi_i = fi as int;
                                            assert(self.spec_filter()@ =~= pre_actual.update(
                                                fi_i,
                                                (pre_actual[fi_i].0, self.spec_filter()@[fi_i].1),
                                            ));
                                            let st_post = spec_read_step(st_pre, kv, vvalue);
                                            let new_entries = crate::json::spec_obj_set(
                                                crate::json::pairs_view(m0),
                                                kv.skip(k + 1),
                                                vvalue,
                                            );
                                            match st_pre.filter[fi_i].1 {
                                                FilterEntry::Plain(p) => {
                                                    assert(p == pre_actual[fi_i].1);
                                                }
                                                FilterEntry::ObjectOf(sq) => {
                                                    assert(sq == crate::json::pairs_view(m0));
                                                }
                                                FilterEntry::ArrayOf(_) => {
                                                    assert(false);
                                                }
                                            }
                                            assert(st_post.filter =~= st_pre.filter.update(
                                                fi_i,
                                                (
                                                    st_pre.filter[fi_i].0,
                                                    FilterEntry::ObjectOf(new_entries),
                                                ),
                                            ));
                                            lemma_update_preserves_matches(
                                                pre_actual,
                                                st_pre.filter,
                                                fi_i,
                                                self.spec_filter()@[fi_i],
                                                FilterEntry::ObjectOf(new_entries),
                                            );
                                            assert forall|i: int|
                                                0 <= i < st_post.filter.len() implies
                                                #[trigger] entry_matches(
                                                self.spec_filter()@[i],
                                                st_post.filter[i],
                                            ) by {
                                                assert(entry_matches(
                                                    pre_actual.update(
                                                        fi_i,
                                                        self.spec_filter()@[fi_i],
                                                    )[i],
                                                    st_pre.filter.update(
                                                        fi_i,
                                                        (
                                                            st_pre.filter[fi_i].0,
                                                            FilterEntry::ObjectOf(new_entries),
                                                        ),
                                                    )[i],
                                                ));
                                            }
                                            assert forall|i: int|
                                                0 <= i < self.spec_filter()@.len() implies (
                                            #[trigger] self.spec_filter()@[i]).0@
                                                == pre_actual[i].0@ by {}
                                        }
                                    }
                                    other => {
                                        self.filter.put_at(fi, (stored_key, other));
                                        proof {
                                            assert(self.spec_filter()@ =~= pre_actual);
                                            let st_post = spec_read_step(st_pre, kv, vvalue);
                                            match st_pre.filter[fi as int].1 {
                                                FilterEntry::Plain(p) => {
                                                    assert(p == pre_actual[fi as int].1);
                                                }
                                                FilterEntry::ObjectOf(_) => {
                                                    assert(false);
                                                }
                                                FilterEntry::ArrayOf(_) => {}
                                            }
                                            assert(st_post.filter == st_pre.filter);
                                            assert forall|i: int|
                                                0 <= i < st_post.filter.len() implies
                                                #[trigger] entry_matches(
                                                self.spec_filter()@[i],
                                                st_post.filter[i],
                                            ) by {
                                                assert(entry_matches(
                                                    pre_actual[i],
                                                    st_pre.filter[i],
                                                ));
                                                assert(self.spec_filter()@[i] == pre_actual[i]);
                                            }
                                        }
                                    }
                                }
                            }
                        }
                    }
                }
            } else if value.is_str_value("") || value.is_str_value("all") {
                proof {
                    reveal_strlit("");
                }
            } else {
                let ghost kstr = key;
                proof {
                    reveal_strlit("");
                    match vvalue {
                        Value::Str(vv) => {
                            if vv@.len() == 0 {
                                assert(vv@ =~= ""@);
                            }
                        }
                        _ => {}
                    }
                    lemma_set_preserves_matches(
                        pre_actual,
                        st_pre.filter,
                        key,
                        vvalue,
                        FilterEntry::Plain(vvalue),
                    );
                }
                self.filter.insert(key, value);
                proof {
                    let st_post = spec_read_step(st_pre, kv, vvalue);
                    assert(st_post.filter =~= spec_filter_set(
                        st_pre.filter,
                        kv,
                        FilterEntry::Plain(vvalue),
                    ));
                    assert forall|i: int|
                        0 <= i < st_post.filter.len() implies #[trigger] entry_matches(
                        self.spec_filter()@[i],
                        st_post.filter[i],
                    ) by {
                        assert(entry_matches(
                            crate::json::spec_insert(pre_actual, kstr, vvalue)[i],
                            spec_filter_set(st_pre.filter, kstr@, FilterEntry::Plain(vvalue))[i],
                        ));
                    }
                }
            }
            proof {
                let st_post = spec_read_fold(st0, all.take(processed + 1));
                assert(st_post == spec_read_step(st_pre, kv, vvalue));
                if self.spec_filter()@ =~= pre_actual && st_post.filter =~= st_pre.filter {
                    assert forall|i: int|
                        0 <= i < st_post.filter.len() implies #[trigger] entry_matches(
                        self.spec_filter()@[i],
                        st_post.filter[i],
                    ) by {
                        assert(entry_matches(pre_actual[i], st_pre.filter[i]));
                    }
                }
            }
        }
        proof {
            assert(all.take(all.len() as int) =~= all);
        }
        let acc_empty = order_acc.as_str().is_empty();
        let starts_space = !acc_empty && order_acc.as_str().get_char(0) == ' ';
        if !(acc_empty || starts_space) {
            if str_ends_with(order_acc.as_str(), " ASC") || str_ends_with(order_acc.as_str(), " DESC") {
                self.order = order_acc;
            } else {
                order_acc.append(" DESC");
                self.order = order_acc;
            }
        }
        validation
    }
}

impl Default for Query {
    /// The same instance as [`Query::new`].
    fn default() -> (r: Query)
        ensures
            r.spec_fields().len() == 0,
            r.spec_filter()@.len() == 0,
            r.spec_order().len() == 0,
            r.spec_limit() == 10,
            r.spec_offset() == 0,
    {
        Query::new()
    }
}

} // verus!
