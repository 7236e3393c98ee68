//! The intermediate value representation of configuration data.
//!
//! A floating-point value is held as its decimal text (a literal that
//! `str::parse::<f64>` accepts); the conversion to a number is made where the
//! value leaves the library.
use vstd::prelude::*;

use crate::error::{SourceLocation, SourceLocationV};
use crate::text::{key_index, find_key, split_spec, split_str, views, IntoText};

verus! {

/// Raw value representation for configuration data.
#[derive(Debug, PartialEq)]
pub enum Value {
    /// Null/missing value
    Null,
    /// Boolean value
    Bool(bool),
    /// Integer value
    Integer(i64),
    /// Floating-point value, as its decimal text
    Float(String),
    /// String value
    String(String),
    /// Array of values
    Array(Vec<Value>),
    /// Table of key-value pairs, in key order
    Table(Vec<(String, Value)>),
}

/// The mathematical model of a `Value`.
pub ghost enum ValueV {
    Null,
    Bool(bool),
    Integer(i64),
    Float(Seq<char>),
    Str(Seq<char>),
    Array(Seq<ValueV>),
    Table(Seq<(Seq<char>, ValueV)>),
}

pub open spec fn value_view(v: Value) -> ValueV
    decreases v,
{
    match v {
        Value::Null => ValueV::Null,
        Value::Bool(b) => ValueV::Bool(b),
        Value::Integer(i) => ValueV::Integer(i),
        Value::Float(s) => ValueV::Float(s@),
        Value::String(s) => ValueV::Str(s@),
        Value::Array(items) => ValueV::Array(list_view(items@)),
        Value::Table(pairs) => ValueV::Table(pairs_view(pairs@)),
    }
}

pub open spec fn list_view(s: Seq<Value>) -> Seq<ValueV>
    decreases s,
{
    if s.len() == 0 {
        Seq::empty()
    } else {
        list_view(s.drop_last()).push(value_view(s.last()))
    }
}

pub open spec fn pairs_view(s: Seq<(String, Value)>) -> Seq<(Seq<char>, ValueV)>
    decreases s,
{
    if s.len() == 0 {
        Seq::empty()
    } else {
        pairs_view(s.drop_last()).push((s.last().0@, value_view(s.last().1)))
    }
}

pub proof fn lemma_list_view(s: Seq<Value>)
    ensures
        list_view(s).len() == s.len(),
        forall|i: int| 0 <= i < s.len() ==> #[trigger] list_view(s)[i] == value_view(s[i]),
    decreases s.len(),
{
    if s.len() > 0 {
        lemma_list_view(s.drop_last());
        assert forall|i: int| 0 <= i < s.len() implies #[trigger] list_view(s)[i] == value_view(
            s[i],
        ) by {
            if i < s.len() - 1 {
                assert(s.drop_last()[i] == s[i]);
            }
        }
    }
}

pub proof fn lemma_pairs_view(s: Seq<(String, Value)>)
    ensures
        pairs_view(s).len() == s.len(),
        forall|i: int|
            0 <= i < s.len() ==> #[trigger] pairs_view(s)[i] == (s[i].0@, value_view(s[i].1)),
    decreases s.len(),
{
    if s.len() > 0 {
        lemma_pairs_view(s.drop_last());
        assert forall|i: int| 0 <= i < s.len() implies #[trigger] pairs_view(s)[i] == (
            s[i].0@,
            value_view(s[i].1),
        ) by {
            if i < s.len() - 1 {
                assert(s.drop_last()[i] == s[i]);
            }
        }
    }
}

impl View for Value {
    type V = ValueV;

    open spec fn view(&self) -> ValueV {
        value_view(*self)
    }
}

fn clone_value(v: &Value) -> (r: Value)
    ensures
        r@ == v@,
    decreases v,
{
    match v {
        Value::Null => Value::Null,
        Value::Bool(b) => Value::Bool(*b),
        Value::Integer(i) => Value::Integer(*i),
        Value::Float(s) => Value::Float(s.clone()),
        Value::String(s) => Value::String(s.clone()),
        Value::Array(items) => Value::Array(clone_list(items)),
        Value::Table(pairs) => Value::Table(clone_pairs(pairs)),
    }
}

fn clone_list(items: &Vec<Value>) -> (out: Vec<Value>)
    ensures
        list_view(out@) == list_view(items@),
    decreases items,
{
    let mut out: Vec<Value> = Vec::new();
    let mut i: usize = 0;
    while i < items.len()
        invariant
            i <= items.len(),
            out@.len() == i,
            forall|j: int| 0 <= j < i ==> (#[trigger] out@[j])@ == items@[j]@,
        decreases items.len() - i,
    {
        proof {
            vstd::std_specs::vec::axiom_vec_index_decreases(*items, i as int);
        }
        let c = clone_value(&items[i]);
        out.push(c);
        i = i + 1;
    }
    proof {
        lemma_list_view(out@);
        lemma_list_view(items@);
        assert(list_view(out@) =~= list_view(items@));
    }
    out
}

fn clone_pairs(pairs: &Vec<(String, Value)>) -> (out: Vec<(String, Value)>)
    ensures
        pairs_view(out@) == pairs_view(pairs@),
    decreases pairs,
{
    let mut out: Vec<(String, Value)> = Vec::new();
    let mut i: usize = 0;
    while i < pairs.len()
        invariant
            i <= pairs.len(),
            out@.len() == i,
            forall|j: int|
                0 <= j < i ==> (#[trigger] out@[j]).0@ == pairs@[j].0@ && out@[j].1@
                    == pairs@[j].1@,
        decreases pairs.len() - i,
    {
        proof {
            vstd::std_specs::vec::axiom_vec_index_decreases(*pairs, i as int);
            assert(decreases_to!(pairs[i as int] => pairs[i as int].1));
        }
        let k = pairs[i].0.clone();
        let c = clone_pairs_value(&pairs[i]);
        out.push((k, c));
        i = i + 1;
    }
    proof {
        lemma_pairs_view(out@);
        lemma_pairs_view(pairs@);
        assert(pairs_view(out@) =~= pairs_view(pairs@));
    }
    out
}

fn clone_pairs_value(pair: &(String, Value)) -> (r: Value)
    ensures
        r@ == pair.1@,
    decreases pair,
{
    clone_value(&pair.1)
}

impl Clone for Value {
    fn clone(&self) -> (r: Self)
        ensures
            r@ == self@,
    {
        clone_value(self)
    }
}

impl Default for Value {
    fn default() -> (r: Self)
        ensures
            r@ == ValueV::Null,
    {
        Value::Null
    }
}

/// Lookup by dot-separated segments: each segment is a key of a table.
pub open spec fn get_parts_spec(v: ValueV, parts: Seq<Seq<char>>) -> Option<ValueV>
    decreases parts.len(),
{
    if parts.len() == 0 {
        Some(v)
    } else {
        match v {
            ValueV::Table(t) => match table_index(t, parts[0]) {
                Some(i) => get_parts_spec(t[i].1, parts.drop_first()),
                None => None,
            },
            _ => None,
        }
    }
}

/// Index of the first entry of a table with key `k`, at or after `from`.
pub open spec fn table_index_from(t: Seq<(Seq<char>, ValueV)>, k: Seq<char>, from: int) -> Option<
    int,
>
    decreases t.len() - from,
{
    if from < 0 || from >= t.len() {
        None
    } else if t[from].0 == k {
        Some(from)
    } else {
        table_index_from(t, k, from + 1)
    }
}

/// Index of the first entry of a table with key `k`.
pub open spec fn table_index(t: Seq<(Seq<char>, ValueV)>, k: Seq<char>) -> Option<int> {
    table_index_from(t, k, 0)
}

/// The value at a dot-notation path; the empty path names no value.
pub open spec fn get_path_spec(v: ValueV, path: Seq<char>) -> Option<ValueV> {
    if path.len() == 0 {
        None
    } else {
        get_parts_spec(v, split_spec(path, "."@))
    }
}

pub open spec fn kind_name_spec(v: ValueV) -> Seq<char> {
    match v {
        ValueV::Null => "null"@,
        ValueV::Bool(_) => "boolean"@,
        ValueV::Integer(_) => "integer"@,
        ValueV::Float(_) => "float"@,
        ValueV::Str(_) => "string"@,
        ValueV::Array(_) => "array"@,
        ValueV::Table(_) => "table"@,
    }
}

pub proof fn lemma_table_index(pairs: Seq<(String, Value)>, k: Seq<char>, from: int)
    ensures
        key_index(pairs, k, from) == table_index_from(pairs_view(pairs), k, from),
    decreases pairs.len() - from,
{
    lemma_pairs_view(pairs);
    if from >= 0 && from < pairs.len() {
        lemma_table_index(pairs, k, from + 1);
    }
}

fn get_parts<'a>(v: &'a Value, parts: &Vec<String>, i: usize) -> (r: Option<&'a Value>)
    requires
        i <= parts.len(),
    ensures
        match r {
            Some(x) => get_parts_spec(v@, views(parts@).skip(i as int)) == Some(x@),
            None => get_parts_spec(v@, views(parts@).skip(i as int)) is None,
        },
    decreases parts.len() - i,
{
    let ghost rest = views(parts@).skip(i as int);
    if i == parts.len() {
        return Some(v);
    }
    assert(rest[0] == parts@[i as int]@);
    assert(rest.drop_first() =~= views(parts@).skip(i + 1));
    match v {
        Value::Table(t) => {
            let found = find_key(t, parts[i].as_str());
            proof {
                lemma_table_index(t@, parts@[i as int]@, 0);
                crate::text::lemma_key_index_bounds(t@, parts@[i as int]@, 0);
                lemma_pairs_view(t@);
            }
            match found {
                Some(j) => get_parts(&t[j].1, parts, i + 1),
                None => None,
            }
        },
        _ => None,
    }
}

impl Value {
    /// Check if this value is null.
    pub fn is_null(&self) -> (r: bool)
        ensures
            r == (self@ is Null),
    {
        match self {
            Value::Null => true,
            _ => false,
        }
    }

    /// This value as a boolean.
    pub fn as_bool(&self) -> (r: Option<bool>)
        ensures
            r == (match self@ {
                ValueV::Bool(b) => Some(b),
                _ => None::<bool>,
            }),
    {
        match self {
            Value::Bool(b) => Some(*b),
            _ => None,
        }
    }

    /// This value as an integer.
    pub fn as_integer(&self) -> (r: Option<i64>)
        ensures
            r == (match self@ {
                ValueV::Integer(i) => Some(i),
                _ => None::<i64>,
            }),
    {
        match self {
            Value::Integer(i) => Some(*i),
            _ => None,
        }
    }

    /// The decimal text of this value as a floating-point number: the text of
    /// a float, or the decimal form of an integer.
    pub fn as_float_text(&self) -> (r: Option<String>)
        ensures
            match self@ {
                ValueV::Float(t) => r matches Some(s) && s@ == t,
                ValueV::Integer(i) => r matches Some(s) && s@ == crate::text::int_decimal(i as int),
                _ => r is None,
            },
    {
        match self {
            Value::Float(t) => Some(t.clone()),
            Value::Integer(i) => Some(crate::text::i64_to_string(*i)),
            _ => None,
        }
    }

    /// This value as a string.
    pub fn as_str(&self) -> (r: Option<&str>)
        ensures
            match self@ {
                ValueV::Str(s) => r matches Some(x) && x@ == s,
                _ => r is None,
            },
    {
        match self {
            Value::String(s) => Some(s.as_str()),
            _ => None,
        }
    }

    /// This value as an array.
    pub fn as_array(&self) -> (r: Option<&[Value]>)
        ensures
            match self@ {
                ValueV::Array(items) => r matches Some(x) && list_view(x@) == items,
                _ => r is None,
            },
    {
        match self {
            Value::Array(arr) => Some(arr.as_slice()),
            _ => None,
        }
    }

    /// This value as a table (entries in key order).
    pub fn as_table(&self) -> (r: Option<&Vec<(String, Value)>>)
        ensures
            match self@ {
                ValueV::Table(t) => r matches Some(x) && pairs_view(x@) == t,
                _ => r is None,
            },
    {
        match self {
            Value::Table(t) => Some(t),
            _ => None,
        }
    }

    /// The value at a dot-notation path (e.g. "database.host").
    pub fn get_path(&self, path: &str) -> (r: Option<&Value>)
        ensures
            match r {
                Some(x) => get_path_spec(self@, path@) == Some(x@),
                None => get_path_spec(self@, path@) is None,
            },
    {
        if path.unicode_len() == 0 {
            return None;
        }
        let parts = split_str(path, ".");
        assert(views(parts@).skip(0) =~= views(parts@));
        get_parts(self, &parts, 0)
    }

    /// A human-readable type name for this value.
    pub fn kind_name(&self) -> (r: &'static str)
        ensures
            r@ == kind_name_spec(self@),
    {
        match self {
            Value::Null => "null",
            Value::Bool(_) => "boolean",
            Value::Integer(_) => "integer",
            Value::Float(_) => "float",
            Value::String(_) => "string",
            Value::Array(_) => "array",
            Value::Table(_) => "table",
        }
    }
}

impl From<bool> for Value {
    fn from(b: bool) -> (r: Self) {
        Value::Bool(b)
    }
}

impl vstd::std_specs::convert::FromSpecImpl<bool> for Value {
    open spec fn obeys_from_spec() -> bool {
        true
    }

    open spec fn from_spec(v: bool) -> Self {
        Value::Bool(v)
    }
}

impl From<i64> for Value {
    fn from(i: i64) -> (r: Self) {
        Value::Integer(i)
    }
}

impl vstd::std_specs::convert::FromSpecImpl<i64> for Value {
    open spec fn obeys_from_spec() -> bool {
        true
    }

    open spec fn from_spec(v: i64) -> Self {
        Value::Integer(v)
    }
}

impl From<i32> for Value {
    fn from(i: i32) -> (r: Self) {
        Value::Integer(i as i64)
    }
}

impl vstd::std_specs::convert::FromSpecImpl<i32> for Value {
    open spec fn obeys_from_spec() -> bool {
        true
    }

    open spec fn from_spec(v: i32) -> Self {
        Value::Integer(v as i64)
    }
}

impl From<String> for Value {
    fn from(s: String) -> (r: Self) {
        Value::String(s)
    }
}

impl vstd::std_specs::convert::FromSpecImpl<String> for Value {
    open spec fn obeys_from_spec() -> bool {
        true
    }

    open spec fn from_spec(v: String) -> Self {
        Value::String(v)
    }
}

impl<'a> From<&'a str> for Value {
    fn from(s: &'a str) -> (r: Self) {
        Value::String(s.into_text())
    }
}

impl<'a> vstd::std_specs::convert::FromSpecImpl<&'a str> for Value {
    // The `String` that `from` makes is new; its view is stated by
    // `IntoText::into_text`.
    open spec fn obeys_from_spec() -> bool {
        false
    }

    open spec fn from_spec(v: &'a str) -> Self {
        arbitrary()
    }
}

/// A configuration value with the location it came from.
#[derive(Debug)]
pub struct ConfigValue {
    /// The actual value
    pub value: Value,
    /// Where this value came from
    pub source: SourceLocation,
}

pub ghost struct ConfigValueV {
    pub value: ValueV,
    pub source: SourceLocationV,
}

impl View for ConfigValue {
    type V = ConfigValueV;

    open spec fn view(&self) -> ConfigValueV {
        ConfigValueV { value: self.value@, source: self.source@ }
    }
}

impl Clone for ConfigValue {
    fn clone(&self) -> (r: Self)
        ensures
            r@ == self@,
    {
        ConfigValue { value: self.value.clone(), source: self.source.clone() }
    }
}

impl ConfigValue {
    /// A value with the location it came from.
    pub fn new(value: Value, source: SourceLocation) -> (r: Self)
        ensures
            r@ == (ConfigValueV { value: value@, source: source@ }),
    {
        ConfigValue { value, source }
    }

    /// A value without a specific source location (`unknown`).
    pub fn anonymous(value: Value) -> (r: Self)
        ensures
            r@ == (ConfigValueV {
                value: value@,
                source: SourceLocationV { source: "unknown"@, line: None, column: None },
            }),
    {
        ConfigValue { value, source: SourceLocation::new("unknown") }
    }
}

} // verus!
