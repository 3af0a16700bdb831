//! The data under test: values, rows and datasets.

use vstd::prelude::*;
use vstd::std_specs::cmp::PartialEqSpecImpl;
use crate::decimal::Decimal;
use crate::text::same_text;

verus! {

/// One value of a row. Two values are equal where they have the same
/// content, nested values included.
#[derive(Debug)]
pub enum DataValue {
    /// No value.
    Null,
    /// A string.
    String(String),
    /// A 64-bit integer.
    Int(i64),
    /// A number with a fractional part.
    Float(Decimal),
    /// A truth value.
    Bool(bool),
    /// A point in time, as the text that the source holds.
    Timestamp(String),
    /// A nested record: field names with their values.
    Mapping(DataRow),
    /// A list of values.
    List(Vec<DataValue>),
}

/// One row: field names with their values, each name at most once. Two
/// rows are equal where they have the same fields with equal values, in
/// whatever order the fields were set.
#[derive(Debug)]
pub struct DataRow {
    entries: Vec<(String, DataValue)>,
}

/// A dataset: rows in a fixed order.
#[derive(Debug)]
pub struct DataSet {
    rows: Vec<DataRow>,
}

/// The mathematical content of a [`DataValue`].
pub enum ValueView {
    Null,
    String(Seq<char>),
    Int(i64),
    Float(Decimal),
    Bool(bool),
    Timestamp(Seq<char>),
    Mapping(Map<Seq<char>, ValueView>),
    List(Seq<ValueView>),
}

impl ValueView {
    /// The number that the value holds: a fractional number as it is, an
    /// integer as the same number.
    pub open spec fn numeric(self) -> Option<Decimal> {
        match self {
            ValueView::Float(d) => Some(d),
            ValueView::Int(i) => Some(Decimal::of_int(i)),
            _ => None,
        }
    }

    /// The name of the value's type.
    pub open spec fn type_label(self) -> Seq<char> {
        match self {
            ValueView::Null => "null"@,
            ValueView::String(_) => "string"@,
            ValueView::Int(_) => "int64"@,
            ValueView::Float(_) => "float64"@,
            ValueView::Bool(_) => "boolean"@,
            ValueView::Timestamp(_) => "timestamp"@,
            ValueView::Mapping(_) => "map"@,
            ValueView::List(_) => "list"@,
        }
    }
}

impl DataValue {
    /// The content of the value, nested values included.
    pub open spec fn deep(self) -> ValueView
        decreases self,
    {
        match self {
            DataValue::Null => ValueView::Null,
            DataValue::String(s) => ValueView::String(s@),
            DataValue::Int(i) => ValueView::Int(i),
            DataValue::Float(d) => ValueView::Float(d),
            DataValue::Bool(b) => ValueView::Bool(b),
            DataValue::Timestamp(s) => ValueView::Timestamp(s@),
            DataValue::Mapping(row) => ValueView::Mapping(row.model()),
            DataValue::List(items) => ValueView::List(
                Seq::new(
                    items@.len(),
                    |i: int|
                        if 0 <= i < items@.len() {
                            items@[i].deep()
                        } else {
                            ValueView::Null
                        },
                ),
            ),
        }
    }
}

impl DataRow {
    #[verifier::type_invariant]
    spec fn names_differ(self) -> bool {
        self.unique()
    }

    /// No name occurs twice.
    pub closed spec fn unique(self) -> bool {
        forall|i: int, j: int|
            0 <= i < j < self.entries@.len() ==> (#[trigger] self.entries@[i]).0@ != (
            #[trigger] self.entries@[j]).0@
    }

    /// Whether the entry at `i` has the name `key`.
    pub closed spec fn has_at(self, key: Seq<char>, i: int) -> bool {
        0 <= i < self.entries@.len() && self.entries@[i].0@ == key
    }

    /// The row as a map from field names to the content of their values.
    pub closed spec fn model(self) -> Map<Seq<char>, ValueView>
        decreases self,
    {
        Map::new(
            |k: Seq<char>| exists|i: int| self.has_at(k, i),
            |k: Seq<char>|
                {
                    let i = choose|i: int| self.has_at(k, i);
                    if 0 <= i < self.entries@.len() {
                        self.entries@[i].1.deep()
                    } else {
                        ValueView::Null
                    }
                },
        )
    }

    /// The entry at `i` is what the map holds under its name.
    proof fn lemma_model_at(self, i: int)
        requires
            self.unique(),
            0 <= i < self.entries@.len(),
        ensures
            self.model().contains_key(self.entries@[i].0@),
            self.model()[self.entries@[i].0@] == self.entries@[i].1.deep(),
    {
        let k = self.entries@[i].0@;
        assert(self.has_at(k, i));
        let c = choose|c: int| self.has_at(k, c);
        assert(self.has_at(k, c));
        if c < i {
            assert(self.entries@[c].0@ != self.entries@[i].0@);
        } else if i < c {
            assert(self.entries@[i].0@ != self.entries@[c].0@);
        }
    }

    /// A name that no entry has is not in the map.
    proof fn lemma_model_absent(self, key: Seq<char>)
        requires
            forall|i: int| 0 <= i < self.entries@.len() ==> (#[trigger] self.entries@[i]).0@ != key,
        ensures
            !self.model().contains_key(key),
    {
        assert forall|i: int| !self.has_at(key, i) by {
            if 0 <= i < self.entries@.len() {
                assert(self.entries@[i].0@ != key);
            }
        }
    }
}

impl View for DataValue {
    type V = ValueView;

    open spec fn view(&self) -> ValueView {
        self.deep()
    }
}

impl View for DataRow {
    type V = Map<Seq<char>, ValueView>;

    open spec fn view(&self) -> Map<Seq<char>, ValueView> {
        self.model()
    }
}

impl DataValue {
    /// Whether the value is the null.
    pub fn is_null(&self) -> (r: bool)
        ensures
            r == (self@ is Null),
    {
        match self {
            DataValue::Null => true,
            _ => false,
        }
    }

    /// The name of the value's type.
    pub fn type_label(&self) -> (r: &'static str)
        ensures
            r@ == self@.type_label(),
    {
        match self {
            DataValue::Null => "null",
            DataValue::String(_) => "string",
            DataValue::Int(_) => "int64",
            DataValue::Float(_) => "float64",
            DataValue::Bool(_) => "boolean",
            DataValue::Timestamp(_) => "timestamp",
            DataValue::Mapping(_) => "map",
            DataValue::List(_) => "list",
        }
    }

    /// The string that the value holds, if it is a string.
    pub fn as_string(&self) -> (r: Option<&str>)
        ensures
            match self@ {
                ValueView::String(s) => r matches Some(t) && t@ == s,
                _ => r is None,
            },
    {
        match self {
            DataValue::String(s) => Some(s.as_str()),
            _ => None,
        }
    }

    /// The integer that the value holds, if it is an integer.
    pub fn as_int(&self) -> (r: Option<i64>)
        ensures
            r == match self@ {
                ValueView::Int(i) => Some(i),
                _ => None,
            },
    {
        match self {
            DataValue::Int(i) => Some(*i),
            _ => None,
        }
    }

    /// The number that the value holds: a fractional number as it is, an
    /// integer as the same number.
    pub fn as_float(&self) -> (r: Option<Decimal>)
        ensures
            r == self@.numeric(),
            r matches Some(d) ==> d.wf(),
    {
        match self {
            DataValue::Float(d) => {
                d.valid();
                Some(*d)
            },
            DataValue::Int(i) => Some(Decimal::from_int(*i)),
            _ => None,
        }
    }

    /// The truth value that the value holds, if it is one.
    pub fn as_bool(&self) -> (r: Option<bool>)
        ensures
            r == match self@ {
                ValueView::Bool(b) => Some(b),
                _ => None,
            },
    {
        match self {
            DataValue::Bool(b) => Some(*b),
            _ => None,
        }
    }

    /// The text of the timestamp that the value holds, if it is one.
    pub fn as_timestamp(&self) -> (r: Option<&str>)
        ensures
            match self@ {
                ValueView::Timestamp(s) => r matches Some(t) && t@ == s,
                _ => r is None,
            },
    {
        match self {
            DataValue::Timestamp(s) => Some(s.as_str()),
            _ => None,
        }
    }
}

impl DataRow {
    /// A row is the map `m` where each of its entries is in `m` and `m` holds
    /// nothing else.
    proof fn lemma_model_is(self, m: Map<Seq<char>, ValueView>)
        requires
            self.unique(),
            forall|i: int|
                0 <= i < self.entries@.len() ==> m.contains_key(
                    (#[trigger] self.entries@[i]).0@,
                ) && m[self.entries@[i].0@] == self.entries@[i].1.deep(),
            forall|k: Seq<char>| #[trigger]
                m.contains_key(k) ==> exists|i: int| self.has_at(k, i),
        ensures
            self.model() == m,
    {
        assert forall|k: Seq<char>| #[trigger]
            self.model().contains_key(k) implies m.contains_key(k) && m[k] == self.model()[k] by {
            let i = choose|i: int| self.has_at(k, i);
            assert(self.has_at(k, i));
            self.lemma_model_at(i);
            assert(m.contains_key(self.entries@[i].0@));
        }
        assert forall|k: Seq<char>| #[trigger] m.contains_key(k) implies self.model().contains_key(
            k,
        ) by {
            let i = choose|i: int| self.has_at(k, i);
            assert(self.has_at(k, i));
        }
        assert(self.model() =~= m);
    }

    /// A row without fields.
    pub fn new() -> (r: DataRow)
        ensures
            r@ == Map::<Seq<char>, ValueView>::empty(),
    {
        let r = DataRow { entries: Vec::new() };
        proof {
            r.lemma_model_is(Map::empty());
        }
        r
    }

    /// The number of fields.
    pub fn len(&self) -> (r: usize)
        ensures
            r == self@.len(),
            self@.dom().finite(),
    {
        proof {
            use_type_invariant(self);
            self.lemma_size(self.entries@.len() as int);
            assert(self.prefix_names(self.entries@.len() as int) =~= self@.dom()) by {
                assert forall|k: Seq<char>| self@.dom().contains(k) implies self.prefix_names(
                    self.entries@.len() as int,
                ).contains(k) by {
                    let i = choose|i: int| self.has_at(k, i);
                    assert(self.has_at(k, i));
                }
            }
        }
        self.entries.len()
    }

    /// The names of the first `n` entries.
    spec fn prefix_names(self, n: int) -> Set<Seq<char>> {
        Set::new(|k: Seq<char>| exists|i: int| 0 <= i < n && self.has_at(k, i))
    }

    /// The first `n` entries have `n` names.
    proof fn lemma_size(self, n: int)
        requires
            self.unique(),
            0 <= n <= self.entries@.len(),
        ensures
            self.prefix_names(n).finite(),
            self.prefix_names(n).len() == n,
        decreases n,
    {
        if n == 0 {
            assert(self.prefix_names(0) =~= Set::empty());
        } else {
            self.lemma_size(n - 1);
            let k = self.entries@[n - 1].0@;
            assert(self.has_at(k, n - 1));
            assert(!self.prefix_names(n - 1).contains(k)) by {
                if self.prefix_names(n - 1).contains(k) {
                    let i = choose|i: int| 0 <= i < n - 1 && self.has_at(k, i);
                    assert(self.entries@[i].0@ != self.entries@[n - 1].0@);
                }
            }
            assert(self.prefix_names(n) =~= self.prefix_names(n - 1).insert(k));
        }
    }

    /// Whether the row has no fields.
    pub fn is_empty(&self) -> (r: bool)
        ensures
            r == (self@.len() == 0),
    {
        self.len() == 0
    }

    /// The position of the entry with the name `key`.
    fn position(&self, key: &str) -> (r: Option<usize>)
        ensures
            match r {
                Some(i) => self.has_at(key@, i as int),
                None => forall|i: int|
                    0 <= i < self.entries@.len() ==> (#[trigger] self.entries@[i]).0@ != key@,
            },
    {
        let mut i: usize = 0;
        while i < self.entries.len()
            invariant
                i <= self.entries.len(),
                forall|j: int| 0 <= j < i ==> (#[trigger] self.entries@[j]).0@ != key@,
            decreases self.entries.len() - i,
        {
            if same_text(self.entries[i].0.as_str(), key) {
                return Some(i);
            }
            i += 1;
        }
        None
    }

    /// The value of the field `key`, if the row has that field.
    pub fn get(&self, key: &str) -> (r: Option<&DataValue>)
        ensures
            match r {
                Some(v) => self@.contains_key(key@) && self@[key@] == v@,
                None => !self@.contains_key(key@),
            },
    {
        proof {
            use_type_invariant(self);
        }
        match self.position(key) {
            Some(i) => {
                proof {
                    self.lemma_model_at(i as int);
                }
                Some(&self.entries[i].1)
            },
            None => {
                proof {
                    self.lemma_model_absent(key@);
                }
                None
            },
        }
    }

    /// Whether the row has the field `key`.
    pub fn contains_key(&self, key: &str) -> (r: bool)
        ensures
            r == self@.contains_key(key@),
    {
        self.get(key).is_some()
    }

    /// Sets the field `key` to `value`. Returns the value that the field had
    /// before, if the row had that field.
    pub fn insert(&mut self, key: String, value: DataValue) -> (r: Option<DataValue>)
        ensures
            final(self)@ == old(self)@.insert(key@, value@),
            match r {
                Some(v) => old(self)@.contains_key(key@) && old(self)@[key@] == v@,
                None => !old(self)@.contains_key(key@),
            },
    {
        proof {
            use_type_invariant(&*self);
        }
        let ghost before = *self;
        let ghost target = before.model().insert(key@, value.deep());
        match self.position(key.as_str()) {
            Some(i) => {
                let mut entries: Vec<(String, DataValue)> = Vec::new();
                std::mem::swap(&mut entries, &mut self.entries);
                let gone = entries.remove(i);
                entries.insert(i, (key, value));
                let fresh = DataRow { entries };
                proof {
                    before.lemma_model_at(i as int);
                    assert(fresh.entries@ =~= before.entries@.update(i as int, fresh.entries@[i as int]));
                    assert(fresh.unique());
                    assert forall|j: int| 0 <= j < fresh.entries@.len() implies target.contains_key(
                        (#[trigger] fresh.entries@[j]).0@,
                    ) && target[fresh.entries@[j].0@] == fresh.entries@[j].1.deep() by {
                        if j != i {
                            before.lemma_model_at(j);
                            if j < i {
                                assert(before.entries@[j].0@ != before.entries@[i as int].0@);
                            } else {
                                assert(before.entries@[i as int].0@ != before.entries@[j].0@);
                            }
                        }
                    }
                    assert forall|k: Seq<char>| #[trigger] target.contains_key(k) implies exists|
                        j: int,
                    |
                        fresh.has_at(k, j) by {
                        if k == key@ {
                            assert(fresh.has_at(k, i as int));
                        } else {
                            let j = choose|j: int| before.has_at(k, j);
                            assert(before.has_at(k, j));
                            assert(fresh.has_at(k, j));
                        }
                    }
                    fresh.lemma_model_is(target);
                }
                *self = fresh;
                Some(gone.1)
            },
            None => {
                let mut entries: Vec<(String, DataValue)> = Vec::new();
                std::mem::swap(&mut entries, &mut self.entries);
                entries.push((key, value));
                let fresh = DataRow { entries };
                proof {
                    before.lemma_model_absent(key@);
                    let n = before.entries@.len() as int;
                    assert(fresh.unique()) by {
                        assert forall|a: int, b: int| 0 <= a < b < fresh.entries@.len() implies (
                        #[trigger] fresh.entries@[a]).0@ != (#[trigger] fresh.entries@[b]).0@ by {
                            if b == n {
                                assert(before.entries@[a].0@ != key@);
                            } else {
                                assert(before.entries@[a].0@ != before.entries@[b].0@);
                            }
                        }
                    }
                    assert forall|j: int| 0 <= j < fresh.entries@.len() implies target.contains_key(
                        (#[trigger] fresh.entries@[j]).0@,
                    ) && target[fresh.entries@[j].0@] == fresh.entries@[j].1.deep() by {
                        if j != n {
                            before.lemma_model_at(j);
                            assert(before.entries@[j].0@ != key@);
                        }
                    }
                    assert forall|k: Seq<char>| #[trigger] target.contains_key(k) implies exists|
                        j: int,
                    |
                        fresh.has_at(k, j) by {
                        if k == key@ {
                            assert(fresh.has_at(k, n));
                        } else {
                            let j = choose|j: int| before.has_at(k, j);
                            assert(before.has_at(k, j));
                            assert(fresh.has_at(k, j));
                        }
                    }
                    fresh.lemma_model_is(target);
                }
                *self = fresh;
                None
            },
        }
    }
}

impl From<String> for DataValue {
    /// The string as a value.
    fn from(s: String) -> (r: DataValue) {
        DataValue::String(s)
    }
}

impl vstd::std_specs::convert::FromSpecImpl<String> for DataValue {
    open spec fn obeys_from_spec() -> bool {
        true
    }

    open spec fn from_spec(s: String) -> DataValue {
        DataValue::String(s)
    }
}

impl From<i64> for DataValue {
    /// The integer as a value.
    fn from(i: i64) -> (r: DataValue) {
        DataValue::Int(i)
    }
}

impl vstd::std_specs::convert::FromSpecImpl<i64> for DataValue {
    open spec fn obeys_from_spec() -> bool {
        true
    }

    open spec fn from_spec(i: i64) -> DataValue {
        DataValue::Int(i)
    }
}

impl From<Decimal> for DataValue {
    /// The number as a value.
    fn from(d: Decimal) -> (r: DataValue) {
        DataValue::Float(d)
    }
}

impl vstd::std_specs::convert::FromSpecImpl<Decimal> for DataValue {
    open spec fn obeys_from_spec() -> bool {
        true
    }

    open spec fn from_spec(d: Decimal) -> DataValue {
        DataValue::Float(d)
    }
}

impl From<bool> for DataValue {
    /// The truth value as a value.
    fn from(b: bool) -> (r: DataValue) {
        DataValue::Bool(b)
    }
}

impl vstd::std_specs::convert::FromSpecImpl<bool> for DataValue {
    open spec fn obeys_from_spec() -> bool {
        true
    }

    open spec fn from_spec(b: bool) -> DataValue {
        DataValue::Bool(b)
    }
}

impl PartialEq for DataValue {
    fn eq(&self, other: &DataValue) -> (r: bool)
        decreases self,
    {
        broadcast use vstd::std_specs::vec::axiom_vec_index_decreases;

        match self {
            DataValue::Null => match other {
                DataValue::Null => true,
                _ => false,
            },
            DataValue::String(a) => match other {
                DataValue::String(b) => same_text(a.as_str(), b.as_str()),
                _ => false,
            },
            DataValue::Int(a) => match other {
                DataValue::Int(b) => *a == *b,
                _ => false,
            },
            DataValue::Float(a) => match other {
                DataValue::Float(b) => *a == *b,
                _ => false,
            },
            DataValue::Bool(a) => match other {
                DataValue::Bool(b) => *a == *b,
                _ => false,
            },
            DataValue::Timestamp(a) => match other {
                DataValue::Timestamp(b) => same_text(a.as_str(), b.as_str()),
                _ => false,
            },
            DataValue::Mapping(a) => match other {
                DataValue::Mapping(b) => a.eq(b),
                _ => false,
            },
            DataValue::List(a) => match other {
                DataValue::List(b) => {
                    if a.len() != b.len() {
                        assert(self.deep()->List_0.len() != other.deep()->List_0.len());
                        return false;
                    }
                    let mut i: usize = 0;
                    while i < a.len()
                        invariant
                            i <= a.len() == b.len(),
                            self is List,
                            self->List_0 == *a,
                            other is List,
                            other->List_0 == *b,
                            forall|j: int| 0 <= j < i ==> a@[j].deep() == b@[j].deep(),
                        decreases a.len() - i,
                    {
                        proof {
                            assert(decreases_to!(*a => a[i as int]));
                            assert(decreases_to!(*self => self->List_0));
                        }
                        if !a[i].eq(&b[i]) {
                            assert(self.deep()->List_0[i as int] != other.deep()->List_0[i as int]);
                            return false;
                        }
                        i += 1;
                    }
                    assert(self.deep()->List_0 =~= other.deep()->List_0);
                    true
                },
                _ => false,
            },
        }
    }
}

impl PartialEqSpecImpl for DataValue {
    open spec fn obeys_eq_spec() -> bool {
        true
    }

    open spec fn eq_spec(&self, other: &DataValue) -> bool {
        self@ == other@
    }
}

impl PartialEq for DataRow {
    fn eq(&self, other: &DataRow) -> (r: bool)
        decreases self,
    {
        broadcast use vstd::std_specs::vec::axiom_vec_index_decreases;

        proof {
            use_type_invariant(self);
            use_type_invariant(other);
        }
        if self.len() != other.len() {
            return false;
        }
        let mut i: usize = 0;
        while i < self.entries.len()
            invariant
                i <= self.entries.len(),
                self.unique(),
                forall|j: int|
                    0 <= j < i ==> other.model().contains_key((#[trigger] self.entries@[j]).0@)
                        && other.model()[self.entries@[j].0@] == self.entries@[j].1.deep(),
            decreases self.entries.len() - i,
        {
            proof {
                self.lemma_model_at(i as int);
                assert(decreases_to!(self.entries => self.entries[i as int]));
                assert(decreases_to!(self.entries[i as int] => self.entries[i as int].1));
            }
            match other.get(self.entries[i].0.as_str()) {
                None => {
                    return false;
                },
                Some(v) => {
                    if !self.entries[i].1.eq(v) {
                        return false;
                    }
                },
            }
            i += 1;
        }
        proof {
            assert forall|k: Seq<char>| #[trigger]
                self.model().contains_key(k) implies other.model().contains_key(k)
                && other.model()[k] == self.model()[k] by {
                let j = choose|j: int| self.has_at(k, j);
                assert(self.has_at(k, j));
                self.lemma_model_at(j);
                assert(other.model().contains_key(self.entries@[j].0@));
            }
            assert(self.model().dom().subset_of(other.model().dom()));
            vstd::set_lib::lemma_subset_equality(self.model().dom(), other.model().dom());
            assert(self.model() =~= other.model());
        }
        true
    }
}

impl PartialEqSpecImpl for DataRow {
    open spec fn obeys_eq_spec() -> bool {
        true
    }

    open spec fn eq_spec(&self, other: &DataRow) -> bool {
        self@ == other@
    }
}

impl Clone for DataValue {
    /// A copy with the same content, nested values included.
    fn clone(&self) -> (r: DataValue)
        ensures
            r@ == self@,
        decreases self,
    {
        broadcast use vstd::std_specs::vec::axiom_vec_index_decreases;

        match self {
            DataValue::Null => DataValue::Null,
            DataValue::String(s) => DataValue::String(s.clone()),
            DataValue::Int(i) => DataValue::Int(*i),
            DataValue::Float(d) => DataValue::Float(*d),
            DataValue::Bool(b) => DataValue::Bool(*b),
            DataValue::Timestamp(s) => DataValue::Timestamp(s.clone()),
            DataValue::Mapping(row) => DataValue::Mapping(row.clone()),
            DataValue::List(items) => {
                let mut out: Vec<DataValue> = Vec::new();
                let mut i: usize = 0;
                while i < items.len()
                    invariant
                        i <= items.len(),
                        out@.len() == i,
                        self is List,
                        self->List_0 == *items,
                        forall|j: int| 0 <= j < i ==> out@[j].deep() == items@[j].deep(),
                    decreases items.len() - i,
                {
                    proof {
                        assert(decreases_to!(*items => items[i as int]));
                        assert(decreases_to!(*self => self->List_0));
                    }
                    let c = items[i].clone();
                    out.push(c);
                    i += 1;
                }
                let r = DataValue::List(out);
                assert(r.deep()->List_0 =~= self.deep()->List_0);
                r
            },
        }
    }
}

impl Clone for DataRow {
    /// A copy with the same fields and the same content in each.
    fn clone(&self) -> (r: DataRow)
        ensures
            r@ == self@,
        decreases self,
    {
        broadcast use vstd::std_specs::vec::axiom_vec_index_decreases;

        proof {
            use_type_invariant(self);
        }
        let mut out: Vec<(String, DataValue)> = Vec::new();
        let mut i: usize = 0;
        while i < self.entries.len()
            invariant
                i <= self.entries.len(),
                out@.len() == i,
                forall|j: int|
                    0 <= j < i ==> (#[trigger] out@[j]).0@ == self.entries@[j].0@
                        && out@[j].1.deep() == self.entries@[j].1.deep(),
            decreases self.entries.len() - i,
        {
            proof {
                assert(decreases_to!(self.entries => self.entries[i as int]));
                assert(decreases_to!(self.entries[i as int] => self.entries[i as int].1));
            }
            let c = self.entries[i].1.clone();
            out.push((self.entries[i].0.clone(), c));
            i += 1;
        }
        let r = DataRow { entries: out };
        proof {
            assert forall|j: int| 0 <= j < r.entries@.len() implies self.model().contains_key(
                (#[trigger] r.entries@[j]).0@,
            ) && self.model()[r.entries@[j].0@] == r.entries@[j].1.deep() by {
                self.lemma_model_at(j);
            }
            assert forall|k: Seq<char>| #[trigger] self.model().contains_key(k) implies exists|
                j: int,
            |
                r.has_at(k, j) by {
                let j = choose|j: int| self.has_at(k, j);
                assert(self.has_at(k, j));
                assert(r.has_at(k, j));
            }
            r.lemma_model_is(self.model());
        }
        r
    }
}

/// The content of each row of a list.
pub open spec fn rows_view(rows: Seq<DataRow>) -> Seq<Map<Seq<char>, ValueView>> {
    rows.map_values(|r: DataRow| r@)
}

impl View for DataSet {
    type V = Seq<Map<Seq<char>, ValueView>>;

    closed spec fn view(&self) -> Seq<Map<Seq<char>, ValueView>> {
        rows_view(self.rows@)
    }
}

impl DataSet {
    /// A dataset without rows.
    pub fn empty() -> (r: DataSet)
        ensures
            r@ == Seq::<Map<Seq<char>, ValueView>>::empty(),
    {
        let r = DataSet { rows: Vec::new() };
        r
    }

    /// The dataset of the given rows, in their order.
    pub fn from_rows(rows: Vec<DataRow>) -> (r: DataSet)
        ensures
            r@ == rows_view(rows@),
    {
        DataSet { rows }
    }

    /// The number of rows.
    pub fn len(&self) -> (r: usize)
        ensures
            r == self@.len(),
    {
        self.rows.len()
    }

    /// Whether the dataset has no rows.
    pub fn is_empty(&self) -> (r: bool)
        ensures
            r == (self@.len() == 0),
    {
        self.rows.len() == 0
    }

    /// The rows, in order.
    pub fn rows(&self) -> (r: &Vec<DataRow>)
        ensures
            rows_view(r@) == self@,
    {
        &self.rows
    }

    /// The rows, for changing them in place.
    pub fn rows_mut(&mut self) -> (r: &mut Vec<DataRow>)
        ensures
            rows_view(r@) == old(self)@,
            final(self)@ == rows_view(final(r)@),
    {
        &mut self.rows
    }

    /// The row at `index`, if there is one.
    pub fn get_row(&self, index: usize) -> (r: Option<&DataRow>)
        ensures
            match r {
                Some(row) => index < self@.len() && row@ == self@[index as int],
                None => index >= self@.len(),
            },
    {
        if index < self.rows.len() {
            Some(&self.rows[index])
        } else {
            None
        }
    }

    /// Adds a row at the end.
    pub fn add_row(&mut self, row: DataRow)
        ensures
            final(self)@ == old(self)@.push(row@),
    {
        self.rows.push(row);
    }

    /// A copy of the first `size` rows, or of all rows where there are
    /// fewer. The dataset itself is unchanged.
    pub fn sample(&self, size: usize) -> (r: DataSet)
        ensures
            r@ == self@.take(
                if size <= self@.len() {
                    size as int
                } else {
                    self@.len() as int
                },
            ),
    {
        let n = if size <= self.rows.len() {
            size
        } else {
            self.rows.len()
        };
        let mut out: Vec<DataRow> = Vec::new();
        let mut i: usize = 0;
        while i < n
            invariant
                i <= n <= self.rows.len(),
                out@.len() == i,
                forall|j: int| 0 <= j < i ==> (#[trigger] out@[j])@ == self.rows@[j]@,
            decreases n - i,
        {
            out.push(self.rows[i].clone());
            i += 1;
        }
        let r = DataSet { rows: out };
        r
    }
}

impl Clone for DataSet {
    /// A copy with the same rows.
    fn clone(&self) -> (r: DataSet)
        ensures
            r@ == self@,
    {
        let r = self.sample(self.rows.len());
        r
    }
}

impl Default for DataSet {
    /// A dataset without rows.
    fn default() -> (r: DataSet)
        ensures
            r@ == Seq::<Map<Seq<char>, ValueView>>::empty(),
    {
        DataSet::empty()
    }
}

} // verus!
