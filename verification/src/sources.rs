//! Configuration source implementations, and the line arithmetic that the
//! file-based sources share.
use vstd::prelude::*;

pub mod defaults;
pub mod env_source;
pub mod json_source;
pub mod outside_types;
pub mod toml_source;
pub mod yaml_source;

pub use defaults::PartialDefaults;
pub use env_source::Env;
pub use json_source::Json;
pub use toml_source::Toml;
pub use yaml_source::Yaml;

use crate::env::{read_view, ConfigEnv, ReadError, ReadErrorKind};
use crate::error::{ConfigError, ConfigErrorV, ConfigErrors, SourceErrorKind, SourceErrorKindV};
use crate::source::ConfigValues;
use crate::text::{concat3, nat_decimal, string_from, usize_to_string, IntoText};
use crate::value::{ConfigValue, ConfigValueV};

use vstd::string::StringSliceAdditionalSpecFns;

verus! {

/// Number of newline bytes in `b`.
pub open spec fn count_newlines(b: Seq<u8>) -> nat
    decreases b.len(),
{
    if b.len() == 0 {
        0
    } else {
        count_newlines(b.drop_last()) + if b.last() == 10u8 {
            1nat
        } else {
            0nat
        }
    }
}

/// The offset clamped to the content's length in bytes.
pub open spec fn clamped_offset(content: &str, offset: usize) -> int {
    if offset < content.spec_bytes().len() {
        offset as int
    } else {
        content.spec_bytes().len() as int
    }
}

/// The 1-indexed line that a byte offset falls on (offsets past the end
/// count as the end).
pub open spec fn line_from_offset_spec(content: &str, offset: usize) -> int {
    count_newlines(content.spec_bytes().take(clamped_offset(content, offset))) as int + 1
}

/// Calculate the line number (1-indexed) of a byte offset.
pub fn line_from_offset(content: &str, offset: usize) -> (r: u32)
    requires
        vstd::utf8::is_char_boundary(content.spec_bytes(), clamped_offset(content, offset)),
        count_newlines(content.spec_bytes().take(clamped_offset(content, offset))) < u32::MAX,
    ensures
        r == line_from_offset_spec(content, offset),
{
    let bytes = content.as_bytes();
    let end = if offset < bytes.len() {
        offset
    } else {
        bytes.len()
    };
    let mut count: u32 = 0;
    let mut i: usize = 0;
    let ghost b = content.spec_bytes();
    assert(b.take(0) =~= Seq::<u8>::empty());
    while i < end
        invariant
            bytes@ == b,
            end == clamped_offset(content, offset),
            end <= b.len(),
            i <= end,
            count == count_newlines(b.take(i as int)),
            count_newlines(b.take(end as int)) < u32::MAX,
        decreases end - i,
    {
        proof {
            assert(b.take(i + 1).drop_last() =~= b.take(i as int));
            lemma_count_newlines_prefix(b.take(end as int), i + 1);
            assert(b.take(end as int).take(i + 1) =~= b.take(i + 1));
        }
        if bytes[i] == 10u8 {
            count = count + 1;
        }
        i = i + 1;
    }
    count + 1
}

/// A prefix has no more newlines than the whole.
pub proof fn lemma_count_newlines_prefix(b: Seq<u8>, k: int)
    requires
        0 <= k <= b.len(),
    ensures
        count_newlines(b.take(k)) <= count_newlines(b),
    decreases b.len() - k,
{
    if k < b.len() {
        lemma_count_newlines_prefix(b, k + 1);
        assert(b.take(k + 1).drop_last() =~= b.take(k));
    } else {
        assert(b.take(k) =~= b);
    }
}

// ---------------------------------------------------------------------------
// Entries and paths shared by the document sources
// ---------------------------------------------------------------------------

/// The values after inserting the entries in order.
pub open spec fn apply_entries(
    m: Map<Seq<char>, ConfigValueV>,
    es: Seq<(Seq<char>, ConfigValueV)>,
) -> Map<Seq<char>, ConfigValueV>
    decreases es.len(),
{
    if es.len() == 0 {
        m
    } else {
        apply_entries(m, es.drop_last()).insert(es.last().0, es.last().1)
    }
}

pub proof fn lemma_apply_concat(
    m: Map<Seq<char>, ConfigValueV>,
    a: Seq<(Seq<char>, ConfigValueV)>,
    b: Seq<(Seq<char>, ConfigValueV)>,
)
    ensures
        apply_entries(m, a + b) == apply_entries(apply_entries(m, a), b),
    decreases b.len(),
{
    if b.len() == 0 {
        assert(a + b =~= a);
    } else {
        assert((a + b).drop_last() =~= a + b.drop_last());
        lemma_apply_concat(m, a, b.drop_last());
    }
}

/// The path of a key under a prefix: `prefix.key`, or `key` at the top.
pub open spec fn child_path(prefix: Seq<char>, key: Seq<char>) -> Seq<char> {
    if prefix.len() == 0 {
        key
    } else {
        prefix + "."@ + key
    }
}

/// The path of an element: `prefix[i]`.
pub open spec fn index_child(prefix: Seq<char>, i: int) -> Seq<char> {
    prefix + "["@ + nat_decimal(i as nat) + "]"@
}

/// Where an array's length is recorded: `prefix.__len`.
pub open spec fn len_path(prefix: Seq<char>) -> Seq<char> {
    prefix + ".__len"@
}

pub fn child_path_exec(prefix: &str, key: &str) -> (r: String)
    ensures
        r@ == child_path(prefix@, key@),
{
    if prefix.unicode_len() == 0 {
        string_from(key)
    } else {
        concat3(prefix, ".", key)
    }
}

pub fn index_child_exec(prefix: &str, i: usize) -> (r: String)
    ensures
        r@ == index_child(prefix@, i as int),
{
    let mut r = concat3(prefix, "[", usize_to_string(i).as_str());
    r.append("]");
    r
}

pub fn len_path_exec(prefix: &str) -> (r: String)
    ensures
        r@ == len_path(prefix@),
{
    crate::text::concat2(prefix, ".__len")
}

pub open spec fn entry_views(es: Seq<(String, ConfigValue)>) -> Seq<(Seq<char>, ConfigValueV)> {
    es.map_values(|e: (String, ConfigValue)| (e.0@, e.1@))
}

/// The values with the entries inserted in order.
pub fn with_entries(values: ConfigValues, entries: Vec<(String, ConfigValue)>) -> (r: ConfigValues)
    ensures
        r@ == apply_entries(values@, entry_views(entries@)),
{
    let mut values = values;
    let ghost start = values@;
    let ghost es = entry_views(entries@);
    let mut rest = entries;
    let ghost mut k: int = 0;
    assert(es.take(0) =~= Seq::<(Seq<char>, ConfigValueV)>::empty());
    assert(rest@ =~= entries@.skip(0));
    while rest.len() > 0
        invariant
            0 <= k <= entries@.len(),
            rest@ == entries@.skip(k),
            es == entry_views(entries@),
            values@ == apply_entries(start, es.take(k)),
        decreases rest@.len(),
    {
        let (path, cv) = rest.remove(0);
        proof {
            assert(entries@[k] == (path, cv));
            assert(es.take(k + 1).drop_last() =~= es.take(k));
            assert(es.take(k + 1).last() == (path@, cv@));
        }
        values.insert(path, cv);
        proof {
            k = k + 1;
            assert(rest@ =~= entries@.skip(k));
        }
    }
    assert(es.take(k) =~= es);
    values
}

// ---------------------------------------------------------------------------
// File or text sources
// ---------------------------------------------------------------------------

/// Where a document comes from.
#[derive(Debug)]
pub enum SourceOrigin {
    /// A file, by path
    File(String),
    /// Text given directly, with the name it is reported under
    Text { content: String, name: String },
}

pub ghost enum SourceOriginV {
    File(Seq<char>),
    Text { content: Seq<char>, name: Seq<char> },
}

/// A document source: its origin, whether it is required, and a name
/// for messages.
#[derive(Debug)]
pub struct FileSource {
    origin: SourceOrigin,
    required: bool,
    name: Option<String>,
}

pub ghost struct FileSourceV {
    pub origin: SourceOriginV,
    pub required: bool,
    pub name: Option<Seq<char>>,
}

impl View for FileSource {
    type V = FileSourceV;

    closed spec fn view(&self) -> FileSourceV {
        FileSourceV {
            origin: match self.origin {
                SourceOrigin::File(p) => SourceOriginV::File(p@),
                SourceOrigin::Text { content, name } => SourceOriginV::Text {
                    content: content@,
                    name: name@,
                },
            },
            required: self.required,
            name: match self.name {
                Some(n) => Some(n@),
                None => None,
            },
        }
    }
}

/// The name a document source is reported under: its custom name, else the
/// file's path or the text's name.
pub open spec fn source_name_spec(s: FileSourceV) -> Seq<char> {
    match s.name {
        Some(n) => n,
        None => match s.origin {
            SourceOriginV::File(p) => p,
            SourceOriginV::Text { name, .. } => name,
        },
    }
}

/// The file that a document source reads: its path for a file origin.
pub open spec fn watched_file(s: FileSourceV) -> Option<Seq<char>> {
    match s.origin {
        SourceOriginV::File(p) => Some(p),
        SourceOriginV::Text { .. } => None,
    }
}

/// What a read of the source's file means: its content to parse, or the
/// final outcome (a missing optional file gives no values).
pub open spec fn read_outcome_spec(
    read: Result<Seq<char>, (ReadErrorKind, Seq<char>)>,
    required: bool,
    source_name: Seq<char>,
    path: Seq<char>,
) -> Result<Seq<char>, Option<ConfigErrorV>> {
    match read {
        Ok(content) => Ok(content),
        Err((kind, message)) => if kind == ReadErrorKind::NotFound {
            if required {
                Err(
                    Some(
                        ConfigErrorV::SourceError {
                            source_name,
                            kind: SourceErrorKindV::NotFound { path },
                        },
                    ),
                )
            } else {
                Err(None)
            }
        } else {
            Err(
                Some(
                    ConfigErrorV::SourceError {
                        source_name,
                        kind: SourceErrorKindV::IoError { message },
                    },
                ),
            )
        },
    }
}

/// How a final outcome from reading relates to its model.
pub open spec fn done_matches(r: Result<ConfigValues, ConfigErrors>, o: Option<ConfigErrorV>) -> bool {
    match o {
        None => r matches Ok(v) && v@ == Map::<Seq<char>, ConfigValueV>::empty(),
        Some(e) => r matches Err(es) && es@ == seq![e],
    }
}

/// How what `fetch` gives relates to the outcome of its read.
pub open spec fn fetched(
    o: Result<Seq<char>, Option<ConfigErrorV>>,
    r: Result<String, Result<ConfigValues, ConfigErrors>>,
) -> bool {
    match o {
        Ok(c) => r matches Ok(s) && s@ == c,
        Err(o) => r matches Err(d) && done_matches(d, o),
    }
}

/// How a load's result relates to the outcome of parsing: the values, or
/// the one error.
pub open spec fn parsed_matches(
    o: Result<Map<Seq<char>, ConfigValueV>, ConfigErrorV>,
    r: Result<ConfigValues, ConfigErrors>,
) -> bool {
    match o {
        Ok(m) => r matches Ok(vals) && vals@ == m,
        Err(e) => r matches Err(es) && es@ == seq![e],
    }
}

/// What a document source loads through `env`, given what parsing a text
/// gives: for text, its parse; for a file, the parse of the content that
/// reading the file at its path gave, or what the read's failure means.
pub open spec fn document_loaded<E: ConfigEnv + ?Sized>(
    s: FileSourceV,
    env: &E,
    parse: spec_fn(Seq<char>) -> Result<Map<Seq<char>, ConfigValueV>, ConfigErrorV>,
    r: Result<ConfigValues, ConfigErrors>,
) -> bool {
    match s.origin {
        SourceOriginV::Text { content, .. } => parsed_matches(parse(content), r),
        SourceOriginV::File(p) => exists|read: Result<Seq<char>, (ReadErrorKind, Seq<char>)>|
            #[trigger] env.reads(p, read) && match read_outcome_spec(
                read,
                s.required,
                source_name_spec(s),
                p,
            ) {
                Ok(c) => parsed_matches(parse(c), r),
                Err(o) => done_matches(r, o),
            },
    }
}

/// Decide what a file read gives.
pub fn read_outcome(
    read: Result<String, ReadError>,
    required: bool,
    source_name: &str,
    path: &str,
) -> (r: Result<String, Result<ConfigValues, ConfigErrors>>)
    ensures
        fetched(read_outcome_spec(read_view(read), required, source_name@, path@), r),
{
    match read {
        Ok(content) => Ok(content),
        Err(e) => {
            if e.kind == ReadErrorKind::NotFound {
                if required {
                    Err(
                        Err(
                            ConfigErrors::single(
                                ConfigError::SourceError {
                                    source_name: string_from(source_name),
                                    kind: SourceErrorKind::NotFound { path: string_from(path) },
                                },
                            ),
                        ),
                    )
                } else {
                    Err(Ok(ConfigValues::empty()))
                }
            } else {
                Err(
                    Err(
                        ConfigErrors::single(
                            ConfigError::SourceError {
                                source_name: string_from(source_name),
                                kind: SourceErrorKind::IoError { message: e.message },
                            },
                        ),
                    ),
                )
            }
        },
    }
}

impl FileSource {
    /// A required file source.
    pub fn file<P: IntoText>(path: P) -> (r: Self)
        ensures
            r@ == (FileSourceV {
                origin: SourceOriginV::File(path.text_view()),
                required: true,
                name: None,
            }),
    {
        FileSource { origin: SourceOrigin::File(path.into_text()), required: true, name: None }
    }

    /// A required source of given text, named `<string>`.
    pub fn string<C: IntoText>(content: C) -> (r: Self)
        ensures
            r@ == (FileSourceV {
                origin: SourceOriginV::Text { content: content.text_view(), name: "<string>"@ },
                required: true,
                name: None,
            }),
    {
        FileSource {
            origin: SourceOrigin::Text { content: content.into_text(), name: string_from("<string>") },
            required: true,
            name: None,
        }
    }

    /// Set whether a missing file is an error.
    pub fn with_required(self, required: bool) -> (r: Self)
        ensures
            r@ == (FileSourceV { required, ..self@ }),
    {
        FileSource { required, ..self }
    }

    /// Set the name used in messages.
    pub fn with_name<S: IntoText>(self, name: S) -> (r: Self)
        ensures
            r@ == (FileSourceV { name: Some(name.text_view()), ..self@ }),
    {
        FileSource { name: Some(name.into_text()), ..self }
    }

    /// The name used in messages.
    pub fn source_name(&self) -> (r: String)
        ensures
            r@ == source_name_spec(self@),
    {
        match &self.name {
            Some(n) => n.clone(),
            None => match &self.origin {
                SourceOrigin::File(p) => p.clone(),
                SourceOrigin::Text { name, .. } => name.clone(),
            },
        }
    }

    /// The file this source reads, if it reads one.
    pub fn watch_path(&self) -> (r: Option<String>)
        ensures
            match self@.origin {
                SourceOriginV::File(p) => r is Some && r->0@ == p,
                SourceOriginV::Text { .. } => r is None,
            },
    {
        match &self.origin {
            SourceOrigin::File(p) => Some(p.clone()),
            SourceOrigin::Text { .. } => None,
        }
    }

    /// The name of the source (as `Source::name` reports it).
    pub fn display_name(&self) -> (r: &str)
        ensures
            r@ == source_name_spec(self@),
    {
        match &self.name {
            Some(n) => n.as_str(),
            None => match &self.origin {
                SourceOrigin::File(p) => p.as_str(),
                SourceOrigin::Text { name, .. } => name.as_str(),
            },
        }
    }

    /// The text to parse, or the final outcome when the file could not be
    /// read (a missing optional file gives no values).
    pub fn fetch<E: ConfigEnv + ?Sized>(&self, env: &E) -> (r: Result<String, Result<ConfigValues, ConfigErrors>>)
        ensures
            match self@.origin {
                SourceOriginV::Text { content, .. } => r matches Ok(s) && s@ == content,
                SourceOriginV::File(p) => exists|read: Result<Seq<char>, (ReadErrorKind, Seq<char>)>|
                    #[trigger] env.reads(p, read) && fetched(
                        read_outcome_spec(read, self@.required, source_name_spec(self@), p),
                        r,
                    ),
            },
    {
        match &self.origin {
            SourceOrigin::Text { content, .. } => Ok(content.clone()),
            SourceOrigin::File(path) => {
                let read = env.read_file(path.as_str());
                let name = self.source_name();
                read_outcome(read, self.required, name.as_str(), path.as_str())
            },
        }
    }
}

} // verus!
