//! YAML configuration source: files or strings, flattened to dot-notation
//! paths, with the line of each key found in the text.
use vstd::prelude::*;

use crate::env::ConfigEnv;
use crate::error::{
    ConfigError, ConfigErrorV, ConfigErrors, SourceErrorKind, SourceErrorKindV, SourceLocation,
    SourceLocationV,
};
use crate::source::{ConfigValues, Source};
use crate::sources::outside_types::YamlDoc;
use crate::sources::{
    apply_entries, child_path, child_path_exec, entry_views, index_child, index_child_exec,
    len_path, len_path_exec, source_name_spec, with_entries, FileSource, FileSourceV,
};
use crate::text::{
    chars_of, concat2, find_from, find_spec, int_decimal, i64_to_string, split_spec, split_str,
    string_from, views, IntoText,
};
use crate::value::{ConfigValue, ConfigValueV, Value, ValueV};

verus! {

// ---------------------------------------------------------------------------
// The parsed document
// ---------------------------------------------------------------------------

/// A parsed YAML node.
#[derive(Debug)]
pub enum YamlNode {
    Null,
    Bool(bool),
    /// A number: its value when it is an integer that fits `i64`, its value
    /// as a float written out, and the number as YAML writes it.
    Number(Option<i64>, String, String),
    Str(String),
    Sequence(Vec<YamlNode>),
    Mapping(Vec<(YamlNode, YamlNode)>),
    /// A tagged value (the tag is not kept)
    Tagged(Box<YamlNode>),
}

pub ghost enum YamlNodeV {
    Null,
    Bool(bool),
    Number(Option<i64>, Seq<char>, Seq<char>),
    Str(Seq<char>),
    Sequence(Seq<YamlNodeV>),
    Mapping(Seq<(YamlNodeV, YamlNodeV)>),
    Tagged(Box<YamlNodeV>),
}

pub open spec fn yaml_view(n: YamlNode) -> YamlNodeV
    decreases n,
{
    match n {
        YamlNode::Null => YamlNodeV::Null,
        YamlNode::Bool(b) => YamlNodeV::Bool(b),
        YamlNode::Number(i, f, t) => YamlNodeV::Number(i, f@, t@),
        YamlNode::Str(s) => YamlNodeV::Str(s@),
        YamlNode::Sequence(items) => YamlNodeV::Sequence(yaml_list_view(items@)),
        YamlNode::Mapping(pairs) => YamlNodeV::Mapping(yaml_pairs_view(pairs@)),
        YamlNode::Tagged(inner) => YamlNodeV::Tagged(Box::new(yaml_view(*inner))),
    }
}

pub open spec fn yaml_list_view(s: Seq<YamlNode>) -> Seq<YamlNodeV>
    decreases s,
{
    if s.len() == 0 {
        Seq::empty()
    } else {
        yaml_list_view(s.drop_last()).push(yaml_view(s.last()))
    }
}

pub open spec fn yaml_pairs_view(s: Seq<(YamlNode, YamlNode)>) -> Seq<(YamlNodeV, YamlNodeV)>
    decreases s,
{
    if s.len() == 0 {
        Seq::empty()
    } else {
        yaml_pairs_view(s.drop_last()).push((yaml_view(s.last().0), yaml_view(s.last().1)))
    }
}

proof fn lemma_yaml_list_view(s: Seq<YamlNode>)
    ensures
        yaml_list_view(s).len() == s.len(),
        forall|i: int| 0 <= i < s.len() ==> #[trigger] yaml_list_view(s)[i] == yaml_view(s[i]),
    decreases s.len(),
{
    if s.len() > 0 {
        lemma_yaml_list_view(s.drop_last());
        assert forall|i: int| 0 <= i < s.len() implies #[trigger] yaml_list_view(s)[i] == yaml_view(
            s[i],
        ) by {
            if i < s.len() - 1 {
                assert(s.drop_last()[i] == s[i]);
            }
        }
    }
}

proof fn lemma_yaml_pairs_view(s: Seq<(YamlNode, YamlNode)>)
    ensures
        yaml_pairs_view(s).len() == s.len(),
        forall|i: int|
            0 <= i < s.len() ==> #[trigger] yaml_pairs_view(s)[i] == (
                yaml_view(s[i].0),
                yaml_view(s[i].1),
            ),
    decreases s.len(),
{
    if s.len() > 0 {
        lemma_yaml_pairs_view(s.drop_last());
        assert forall|i: int| 0 <= i < s.len() implies #[trigger] yaml_pairs_view(s)[i] == (
            yaml_view(s[i].0),
            yaml_view(s[i].1),
        ) by {
            if i < s.len() - 1 {
                assert(s.drop_last()[i] == s[i]);
            }
        }
    }
}

impl View for YamlNode {
    type V = YamlNodeV;

    open spec fn view(&self) -> YamlNodeV {
        yaml_view(*self)
    }
}

/// What `serde_yaml::from_str` gives for a text, as a node tree; or the
/// error's message and its line and column when it has them.
pub uninterp spec fn yaml_document_spec(content: Seq<char>) -> Result<
    YamlNodeV,
    (Seq<char>, Option<(usize, usize)>),
>;

/// Converts a `serde_yaml::Value` into a `YamlNode`, one node for one node.
#[verifier::external_body]
fn yaml_node_tree(v: &YamlDoc) -> YamlNode {
    match v {
        YamlDoc::Null => YamlNode::Null,
        YamlDoc::Bool(b) => YamlNode::Bool(*b),
        YamlDoc::Number(n) => YamlNode::Number(
            n.as_i64(),
            n.as_f64().map(|f| f.to_string()).unwrap_or_default(),
            n.to_string(),
        ),
        YamlDoc::String(s) => YamlNode::Str(s.clone()),
        YamlDoc::Sequence(a) => YamlNode::Sequence(a.iter().map(yaml_node_tree).collect()),
        YamlDoc::Mapping(m) => YamlNode::Mapping(
            m.iter().map(|(k, x)| (yaml_node_tree(k), yaml_node_tree(x))).collect(),
        ),
        YamlDoc::Tagged(t) => YamlNode::Tagged(Box::new(yaml_node_tree(&t.value))),
    }
}

/// Parses the text with `serde_yaml::from_str`; the result is named
/// `yaml_document_spec` of the text.
#[verifier::external_body]
fn parse_yaml_document(content: &str) -> (r: Result<YamlNode, (String, Option<(usize, usize)>)>)
    ensures
        match r {
            Ok(v) => yaml_document_spec(content@) == Ok::<
                YamlNodeV,
                (Seq<char>, Option<(usize, usize)>),
            >(v@),
            Err(e) => yaml_document_spec(content@) == Err::<
                YamlNodeV,
                (Seq<char>, Option<(usize, usize)>),
            >((e.0@, e.1)),
        },
{
    match serde_yaml::from_str::<YamlDoc>(content) {
        Ok(doc) => Ok(yaml_node_tree(&doc)),
        Err(e) => Err((e.to_string(), e.location().map(|l| (l.line(), l.column())))),
    }
}

// ---------------------------------------------------------------------------
// Lines of keys
// ---------------------------------------------------------------------------

/// Number of newlines in the text.
pub open spec fn newlines(s: Seq<char>) -> nat
    decreases s.len(),
{
    if s.len() == 0 {
        0
    } else {
        newlines(s.drop_last()) + if s.last() == '\n' {
            1nat
        } else {
            0nat
        }
    }
}

/// A line number: the count of newlines before it, as a `u32`, plus one
/// (wrapping at `u32::MAX`).
pub open spec fn line_number(newline_count: nat) -> u32 {
    let c = newline_count as u32;
    if c == u32::MAX {
        0
    } else {
        (c + 1) as u32
    }
}

proof fn lemma_newlines_bound(s: Seq<char>)
    ensures
        newlines(s) <= s.len(),
    decreases s.len(),
{
    if s.len() > 0 {
        lemma_newlines_bound(s.drop_last());
    }
}

/// The key a path ends with: its last `.` segment up to the first `[`.
pub open spec fn last_key(path: Seq<char>) -> Seq<char> {
    split_spec(split_spec(path, "."@).last(), "["@)[0]
}

/// The line where `key:` first occurs in the text.
pub open spec fn find_key_line_spec(content: Seq<char>, path: Seq<char>) -> Option<u32> {
    match find_spec(content, last_key(path) + ":"@) {
        Some(i) => Some(line_number(newlines(content.take(i)))),
        None => None,
    }
}

fn count_newlines_before(v: &Vec<char>, end: usize) -> (r: u32)
    requires
        end <= v@.len(),
    ensures
        r == line_number(newlines(v@.take(end as int))),
{
    let mut count: usize = 0;
    let mut i: usize = 0;
    assert(v@.take(0) =~= Seq::<char>::empty());
    while i < end
        invariant
            i <= end <= v@.len(),
            count == newlines(v@.take(i as int)),
        decreases end - i,
    {
        assert(v@.take(i + 1).drop_last() =~= v@.take(i as int));
        proof {
            lemma_newlines_bound(v@.take(i as int));
        }
        if v[i] == '\n' {
            count = count + 1;
        }
        i = i + 1;
    }
    let c = #[verifier::truncate] (count as u32);
    if c == u32::MAX {
        0
    } else {
        c + 1
    }
}

/// Find the line of the key a path ends with (the first `key:` in the text).
pub fn find_key_line(content: &str, path: &str) -> (r: Option<u32>)
    ensures
        r == find_key_line_spec(content@, path@),
{
    let segments = split_str(path, ".");
    proof {
        crate::text::lemma_split_nonempty(path@, "."@);
    }
    let last = segments.len() - 1;
    let parts = split_str(segments[last].as_str(), "[");
    proof {
        crate::text::lemma_split_nonempty(segments@[last as int]@, "["@);
    }
    let pattern = concat2(parts[0].as_str(), ":");
    let cv = chars_of(content);
    let pv = chars_of(pattern.as_str());
    proof {
        assert(views(segments@).last() == segments@[last as int]@);
        assert(views(parts@)[0] == parts@[0]@);
        reveal_strlit(":");
    }
    match find_from(&cv, &pv, 0) {
        Some(i) => {
            proof {
                assert(cv@.skip(0) =~= cv@);
                crate::text::lemma_find_from_bounds(cv@, pv@, 0);
            }
            Some(count_newlines_before(&cv, i))
        },
        None => None,
    }
}

// ---------------------------------------------------------------------------
// Flattening
// ---------------------------------------------------------------------------

/// The text of a mapping key (strings, numbers and booleans; other keys are
/// skipped).
pub open spec fn key_text(k: YamlNodeV) -> Option<Seq<char>> {
    match k {
        YamlNodeV::Str(s) => Some(s),
        YamlNodeV::Number(_, _, t) => Some(t),
        YamlNodeV::Bool(b) => Some(
            if b {
                "true"@
            } else {
                "false"@
            },
        ),
        _ => None,
    }
}

/// The value of a scalar node.
pub open spec fn scalar_value(n: YamlNodeV) -> ValueV {
    match n {
        YamlNodeV::Bool(b) => ValueV::Bool(b),
        YamlNodeV::Number(i, f, _) => match i {
            Some(x) => ValueV::Integer(x),
            None => ValueV::Float(f),
        },
        YamlNodeV::Str(s) => ValueV::Str(s),
        _ => ValueV::Null,
    }
}

/// Where a value at `path` is: the source, and the line of its key.
pub open spec fn yaml_location(name: Seq<char>, content: Seq<char>, path: Seq<char>) -> SourceLocationV {
    SourceLocationV { source: name, line: find_key_line_spec(content, path), column: None }
}

/// The entries of a YAML tree under `prefix`: mappings by key text,
/// sequences by index and their length at `prefix.__len`, tagged values by
/// their inner value, scalars as values.
pub open spec fn yaml_entries(
    n: YamlNodeV,
    prefix: Seq<char>,
    name: Seq<char>,
    content: Seq<char>,
) -> Seq<(Seq<char>, ConfigValueV)>
    decreases n, 0int,
{
    match n {
        YamlNodeV::Mapping(m) => yaml_pair_entries(m, prefix, name, content),
        YamlNodeV::Sequence(a) => yaml_item_entries(a, prefix, name, content) + seq![
            (
                len_path(prefix),
                ConfigValueV {
                    value: ValueV::Integer(a.len() as i64),
                    source: yaml_location(name, content, prefix),
                },
            ),
        ],
        YamlNodeV::Tagged(inner) => yaml_entries(*inner, prefix, name, content),
        _ => seq![
            (
                prefix,
                ConfigValueV {
                    value: scalar_value(n),
                    source: yaml_location(name, content, prefix),
                },
            ),
        ],
    }
}

pub open spec fn yaml_pair_entries(
    m: Seq<(YamlNodeV, YamlNodeV)>,
    prefix: Seq<char>,
    name: Seq<char>,
    content: Seq<char>,
) -> Seq<(Seq<char>, ConfigValueV)>
    decreases m, 1int,
{
    if m.len() == 0 {
        Seq::empty()
    } else {
        proof {
            assert(decreases_to!(m => m[m.len() - 1]));
        }
        yaml_pair_entries(m.drop_last(), prefix, name, content) + match key_text(
            m[m.len() - 1].0,
        ) {
            Some(k) => yaml_entries(m[m.len() - 1].1, child_path(prefix, k), name, content),
            None => Seq::empty(),
        }
    }
}

pub open spec fn yaml_item_entries(
    a: Seq<YamlNodeV>,
    prefix: Seq<char>,
    name: Seq<char>,
    content: Seq<char>,
) -> Seq<(Seq<char>, ConfigValueV)>
    decreases a, 1int,
{
    if a.len() == 0 {
        Seq::empty()
    } else {
        yaml_item_entries(a.drop_last(), prefix, name, content) + yaml_entries(
            a[a.len() - 1],
            index_child(prefix, a.len() - 1),
            name,
            content,
        )
    }
}

fn key_text_exec(k: &YamlNode) -> (r: Option<String>)
    ensures
        crate::error::opt_text_view(r) == key_text(k@),
{
    match k {
        YamlNode::Str(s) => Some(s.clone()),
        YamlNode::Number(_, _, t) => Some(t.clone()),
        YamlNode::Bool(b) => Some(
            if *b {
                string_from("true")
            } else {
                string_from("false")
            },
        ),
        _ => None,
    }
}

fn scalar_value_exec(n: &YamlNode) -> (r: Value)
    ensures
        r@ == scalar_value(n@),
{
    match n {
        YamlNode::Bool(b) => Value::Bool(*b),
        YamlNode::Number(i, f, _) => match i {
            Some(x) => Value::Integer(*x),
            None => Value::Float(f.clone()),
        },
        YamlNode::Str(s) => Value::String(s.clone()),
        _ => Value::Null,
    }
}

fn yaml_location_exec(name: &str, content: &str, path: &str) -> (r: SourceLocation)
    ensures
        r@ == yaml_location(name@, content@, path@),
{
    let loc = SourceLocation::new(name);
    match find_key_line(content, path) {
        Some(l) => loc.with_line(l),
        None => loc,
    }
}

fn yaml_entries_exec(n: &YamlNode, prefix: &str, name: &str, content: &str) -> (r: Vec<
    (String, ConfigValue),
>)
    ensures
        entry_views(r@) == yaml_entries(n@, prefix@, name@, content@),
    decreases n,
{
    let mut out: Vec<(String, ConfigValue)> = Vec::new();
    match n {
        YamlNode::Mapping(m) => {
            let ghost mv = yaml_pairs_view(m@);
            proof {
                lemma_yaml_pairs_view(m@);
                assert(mv.take(0) =~= Seq::<(YamlNodeV, YamlNodeV)>::empty());
                assert(entry_views(out@) =~= Seq::<(Seq<char>, ConfigValueV)>::empty());
            }
            let mut i: usize = 0;
            while i < m.len()
                invariant
                    i <= m@.len(),
                    mv == yaml_pairs_view(m@),
                    *n == YamlNode::Mapping(*m),
                    mv.len() == m@.len(),
                    forall|j: int|
                        0 <= j < m@.len() ==> #[trigger] mv[j] == (m@[j].0@, m@[j].1@),
                    entry_views(out@) == yaml_pair_entries(
                        mv.take(i as int),
                        prefix@,
                        name@,
                        content@,
                    ),
                decreases m@.len() - i,
            {
                proof {
                    assert(mv.take(i + 1).drop_last() =~= mv.take(i as int));
                    assert(mv.take(i + 1)[i as int] == mv[i as int]);
                }
                match key_text_exec(&m[i].0) {
                    Some(k) => {
                        let path = child_path_exec(prefix, k.as_str());
                        proof {
                            let mm: Vec<(YamlNode, YamlNode)> = *m;
                            assert(decreases_to!(*n => (*n)->Mapping_0));
                            assert((*n)->Mapping_0 == mm);
                            assert(decreases_to!(mm => mm@));
                            assert(decreases_to!(mm@ => mm@[i as int]));
                            assert(decreases_to!(mm@[i as int] => mm@[i as int].1));
                        }
                        let mut sub = yaml_entries_exec(&m[i].1, path.as_str(), name, content);
                        let ghost before = out@;
                        let ghost subv = sub@;
                        out.append(&mut sub);
                        assert(entry_views(out@) =~= entry_views(before) + entry_views(subv));
                    },
                    None => {
                        assert(yaml_pair_entries(mv.take(i + 1), prefix@, name@, content@)
                            =~= yaml_pair_entries(mv.take(i as int), prefix@, name@, content@));
                    },
                }
                i = i + 1;
            }
            assert(mv.take(m@.len() as int) =~= mv);
        },
        YamlNode::Sequence(a) => {
            let ghost av = yaml_list_view(a@);
            proof {
                lemma_yaml_list_view(a@);
                assert(av.take(0) =~= Seq::<YamlNodeV>::empty());
                assert(entry_views(out@) =~= Seq::<(Seq<char>, ConfigValueV)>::empty());
            }
            let mut i: usize = 0;
            while i < a.len()
                invariant
                    i <= a@.len(),
                    av == yaml_list_view(a@),
                    *n == YamlNode::Sequence(*a),
                    av.len() == a@.len(),
                    forall|j: int| 0 <= j < a@.len() ==> #[trigger] av[j] == a@[j]@,
                    entry_views(out@) == yaml_item_entries(
                        av.take(i as int),
                        prefix@,
                        name@,
                        content@,
                    ),
                decreases a@.len() - i,
            {
                let path = index_child_exec(prefix, i);
                proof {
                    let aa: Vec<YamlNode> = *a;
                    assert(decreases_to!(*n => (*n)->Sequence_0));
                    assert((*n)->Sequence_0 == aa);
                    assert(decreases_to!(aa => aa@));
                    assert(decreases_to!(aa@ => aa@[i as int]));
                }
                let mut sub = yaml_entries_exec(&a[i], path.as_str(), name, content);
                let ghost before = out@;
                let ghost subv = sub@;
                out.append(&mut sub);
                proof {
                    assert(entry_views(out@) =~= entry_views(before) + entry_views(subv));
                    assert(av.take(i + 1).drop_last() =~= av.take(i as int));
                    assert(av.take(i + 1)[i as int] == av[i as int]);
                }
                i = i + 1;
            }
            assert(av.take(a@.len() as int) =~= av);
            let cnt = #[verifier::truncate] (a.len() as i64);
            let loc = yaml_location_exec(name, content, prefix);
            let ghost before = out@;
            out.push((len_path_exec(prefix), ConfigValue::new(Value::Integer(cnt), loc)));
            assert(entry_views(out@) =~= entry_views(before).push(
                (
                    len_path(prefix@),
                    ConfigValueV {
                        value: ValueV::Integer(cnt),
                        source: yaml_location(name@, content@, prefix@),
                    },
                ),
            ));
        },
        YamlNode::Tagged(inner) => {
            proof {
                assert(decreases_to!(*n => *inner));
            }
            return yaml_entries_exec(inner, prefix, name, content);
        },
        _ => {
            let loc = yaml_location_exec(name, content, prefix);
            out.push((string_from(prefix), ConfigValue::new(scalar_value_exec(n), loc)));
            assert(entry_views(out@) =~= seq![
                (
                    prefix@,
                    ConfigValueV {
                        value: scalar_value(n@),
                        source: yaml_location(name@, content@, prefix@),
                    },
                ),
            ]);
        },
    }
    out
}

/// The outcome of parsing YAML text: its flattened values, or the parse
/// error with its position when it has one.
pub open spec fn parse_yaml_outcome(
    doc: Result<YamlNodeV, (Seq<char>, Option<(usize, usize)>)>,
    source_name: Seq<char>,
    content: Seq<char>,
) -> Result<Map<Seq<char>, ConfigValueV>, ConfigErrorV> {
    match doc {
        Ok(n) => Ok(apply_entries(Map::empty(), yaml_entries(n, Seq::empty(), source_name, content))),
        Err((message, pos)) => Err(
            ConfigErrorV::SourceError {
                source_name,
                kind: SourceErrorKindV::ParseError {
                    message,
                    line: match pos {
                        Some((l, _)) => Some(l as u32),
                        None => None,
                    },
                    column: match pos {
                        Some((_, c)) => Some(c as u32),
                        None => None,
                    },
                },
            },
        ),
    }
}

/// The values of a parsed YAML document (the pure part of loading).
pub fn yaml_values(
    doc: Result<YamlNode, (String, Option<(usize, usize)>)>,
    source_name: &str,
    content: &str,
) -> (r: Result<ConfigValues, ConfigErrors>)
    ensures
        match parse_yaml_outcome(
            match doc {
                Ok(n) => Ok(n@),
                Err(e) => Err((e.0@, e.1)),
            },
            source_name@,
            content@,
        ) {
            Ok(m) => r matches Ok(vals) && vals@ == m,
            Err(e) => r matches Err(es) && es@ == seq![e],
        },
{
    match doc {
        Ok(n) => {
            let entries = yaml_entries_exec(&n, "", source_name, content);
            proof {
                reveal_strlit("");
                assert(""@ =~= Seq::<char>::empty());
            }
            Ok(with_entries(ConfigValues::empty(), entries))
        },
        Err((message, pos)) => {
            let (line, column) = match pos {
                Some((l, c)) => (Some(#[verifier::truncate] (l as u32)), Some(#[verifier::truncate] (c as u32))),
                None => (None, None),
            };
            Err(
                ConfigErrors::single(
                    ConfigError::SourceError {
                        source_name: string_from(source_name),
                        kind: SourceErrorKind::ParseError { message, line, column },
                    },
                ),
            )
        },
    }
}

/// Parse YAML text into values.
pub fn parse_yaml(content: &str, source_name: &str) -> (r: Result<ConfigValues, ConfigErrors>)
    ensures
        match parse_yaml_outcome(yaml_document_spec(content@), source_name@, content@) {
            Ok(m) => r matches Ok(vals) && vals@ == m,
            Err(e) => r matches Err(es) && es@ == seq![e],
        },
{
    yaml_values(parse_yaml_document(content), source_name, content)
}

// ---------------------------------------------------------------------------
// The source
// ---------------------------------------------------------------------------

/// What parsing a text gives, as the source named `source_name` reports it.
pub open spec fn yaml_parse(source_name: Seq<char>) -> spec_fn(Seq<char>) -> Result<
    Map<Seq<char>, ConfigValueV>,
    ConfigErrorV,
> {
    |c: Seq<char>| parse_yaml_outcome(yaml_document_spec(c), source_name, c)
}

/// YAML configuration source.
#[derive(Debug)]
pub struct Yaml {
    inner: FileSource,
}

impl View for Yaml {
    type V = FileSourceV;

    closed spec fn view(&self) -> FileSourceV {
        self.inner@
    }
}

impl Yaml {
    /// Load YAML from a file (required by default).
    pub fn file<P: IntoText>(path: P) -> (r: Self)
        ensures
            r@ == (FileSourceV {
                origin: crate::sources::SourceOriginV::File(path.text_view()),
                required: true,
                name: None,
            }),
    {
        Yaml { inner: FileSource::file(path) }
    }

    /// Load YAML from a string.
    pub fn string<C: IntoText>(content: C) -> (r: Self)
        ensures
            r@ == (FileSourceV {
                origin: crate::sources::SourceOriginV::Text {
                    content: content.text_view(),
                    name: "<string>"@,
                },
                required: true,
                name: None,
            }),
    {
        Yaml { inner: FileSource::string(content) }
    }

    /// A missing file gives no values instead of an error.
    pub fn optional(self) -> (r: Self)
        ensures
            r@ == (FileSourceV { required: false, ..self@ }),
    {
        Yaml { inner: self.inner.with_required(false) }
    }

    /// A missing file is an error (the default).
    pub fn required(self) -> (r: Self)
        ensures
            r@ == (FileSourceV { required: true, ..self@ }),
    {
        Yaml { inner: self.inner.with_required(true) }
    }

    /// Set the name used in error messages.
    pub fn named<S: IntoText>(self, name: S) -> (r: Self)
        ensures
            r@ == (FileSourceV { name: Some(name.text_view()), ..self@ }),
    {
        Yaml { inner: self.inner.with_name(name) }
    }

    /// The name used in error messages.
    pub fn source_name(&self) -> (r: String)
        ensures
            r@ == source_name_spec(self@),
    {
        self.inner.source_name()
    }
}

impl Source for Yaml {
    /// The parsed text; for a file, the parse of what reading it gave, or
    /// what the read's failure means.
    fn load(&self, env: &dyn ConfigEnv) -> (r: Result<ConfigValues, ConfigErrors>)
        ensures
            crate::sources::document_loaded(self@, env, yaml_parse(source_name_spec(self@)), r),
    {
        let fetched_r = self.inner.fetch(env);
        let ghost pre = fetched_r;
        let r = match fetched_r {
            Ok(content) => {
                let name = self.inner.source_name();
                parse_yaml(content.as_str(), name.as_str())
            },
            Err(done) => done,
        };
        proof {
            match self@.origin {
                crate::sources::SourceOriginV::File(p) => {
                    let read = choose|read: Result<Seq<char>, (crate::env::ReadErrorKind, Seq<char>)>|
                        #[trigger] env.reads(p, read) && crate::sources::fetched(
                            crate::sources::read_outcome_spec(
                                read,
                                self@.required,
                                source_name_spec(self@),
                                p,
                            ),
                            pre,
                        );
                    assert(env.reads(p, read));
                },
                _ => {},
            }
        }
        r
    }

    /// Its custom name, else the file's path or the text's name.
    fn name(&self) -> (r: &str)
        ensures
            r@ == source_name_spec(self@),
    {
        self.inner.display_name()
    }

    open spec fn watched(&self) -> Option<Seq<char>> {
        crate::sources::watched_file(self@)
    }

    /// The file, for a file source.
    fn watch_path(&self) -> (r: Option<String>)
        ensures
            match self@.origin {
                crate::sources::SourceOriginV::File(p) => r is Some && r->0@ == p,
                crate::sources::SourceOriginV::Text { .. } => r is None,
            },
    {
        self.inner.watch_path()
    }
}

} // verus!
