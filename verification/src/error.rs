//! Error types: source locations, error kinds, accumulated error lists and
//! the validation result type.
use vstd::prelude::*;

use crate::assoc::{assoc_find, assoc_get, assoc_insert, keyed, sorted_keys};
use crate::text::{
    concat2, concat3, join_spec, join_strs, nat_decimal, push_char, reverse_vec, string_from,
    u64_to_string, usize_to_string, views, IntoText,
};

verus! {

// ---------------------------------------------------------------------------
// SourceLocation
// ---------------------------------------------------------------------------

/// Location where a configuration value originated.
#[derive(Debug, PartialEq, Eq)]
pub struct SourceLocation {
    /// Name of the source (e.g., "config.toml", "env:APP_HOST")
    pub source: String,
    /// Line number in the source (1-indexed), if applicable
    pub line: Option<u32>,
    /// Column number in the source (1-indexed), if applicable
    pub column: Option<u32>,
}

pub ghost struct SourceLocationV {
    pub source: Seq<char>,
    pub line: Option<u32>,
    pub column: Option<u32>,
}

impl View for SourceLocation {
    type V = SourceLocationV;

    open spec fn view(&self) -> SourceLocationV {
        SourceLocationV { source: self.source@, line: self.line, column: self.column }
    }
}

impl Clone for SourceLocation {
    fn clone(&self) -> (r: Self)
        ensures
            r@ == self@,
    {
        SourceLocation { source: self.source.clone(), line: self.line, column: self.column }
    }
}

/// How `Display` writes a location: `source`, `source:line` or `source:line:column`.
pub open spec fn location_text(l: SourceLocationV) -> Seq<char> {
    match (l.line, l.column) {
        (Some(line), Some(col)) => l.source + seq![':'] + nat_decimal(line as nat) + seq![':']
            + nat_decimal(col as nat),
        (Some(line), None) => l.source + seq![':'] + nat_decimal(line as nat),
        _ => l.source,
    }
}

impl SourceLocation {
    /// Create a new source location with just a source name.
    pub fn new<S: IntoText>(source: S) -> (r: Self)
        ensures
            r@ == (SourceLocationV { source: source.text_view(), line: None, column: None }),
    {
        SourceLocation { source: source.into_text(), line: None, column: None }
    }

    /// Add a line number to this location.
    pub fn with_line(self, line: u32) -> (r: Self)
        ensures
            r@ == (SourceLocationV { line: Some(line), ..self@ }),
    {
        SourceLocation { line: Some(line), ..self }
    }

    /// Add a column number to this location.
    pub fn with_column(self, column: u32) -> (r: Self)
        ensures
            r@ == (SourceLocationV { column: Some(column), ..self@ }),
    {
        SourceLocation { column: Some(column), ..self }
    }

    /// Create a location for an environment variable: `env:NAME`.
    pub fn env(var_name: &str) -> (r: Self)
        ensures
            r@ == (SourceLocationV { source: "env:"@ + var_name@, line: None, column: None }),
    {
        SourceLocation { source: concat2("env:", var_name), line: None, column: None }
    }

    /// Create a location for a file with optional position.
    pub fn file(path: &str, line: Option<u32>, column: Option<u32>) -> (r: Self)
        ensures
            r@ == (SourceLocationV { source: path@, line, column }),
    {
        SourceLocation { source: string_from(path), line, column }
    }

    /// The text that `Display` writes for this location.
    pub fn to_display_string(&self) -> (r: String)
        ensures
            r@ == location_text(self@),
    {
        let mut r = self.source.clone();
        match self.line {
            Some(line) => {
                push_char(&mut r, ':');
                r.append(u64_to_string(line as u64).as_str());
                match self.column {
                    Some(col) => {
                        push_char(&mut r, ':');
                        r.append(u64_to_string(col as u64).as_str());
                    },
                    None => {},
                }
            },
            None => {},
        }
        r
    }
}

// ---------------------------------------------------------------------------
// SourceErrorKind
// ---------------------------------------------------------------------------

/// Kinds of source loading errors.
#[derive(Debug)]
pub enum SourceErrorKind {
    /// Source file was not found
    NotFound { path: String },
    /// Source file could not be read
    IoError { message: String },
    /// Source content could not be parsed
    ParseError { message: String, line: Option<u32>, column: Option<u32> },
    /// Remote source failed to connect
    ConnectionError { message: String },
    /// Other source-specific error
    Other { message: String },
}

pub ghost enum SourceErrorKindV {
    NotFound { path: Seq<char> },
    IoError { message: Seq<char> },
    ParseError { message: Seq<char>, line: Option<u32>, column: Option<u32> },
    ConnectionError { message: Seq<char> },
    Other { message: Seq<char> },
}

impl View for SourceErrorKind {
    type V = SourceErrorKindV;

    open spec fn view(&self) -> SourceErrorKindV {
        match self {
            SourceErrorKind::NotFound { path } => SourceErrorKindV::NotFound { path: path@ },
            SourceErrorKind::IoError { message } => SourceErrorKindV::IoError { message: message@ },
            SourceErrorKind::ParseError { message, line, column } => SourceErrorKindV::ParseError {
                message: message@,
                line: *line,
                column: *column,
            },
            SourceErrorKind::ConnectionError { message } => SourceErrorKindV::ConnectionError {
                message: message@,
            },
            SourceErrorKind::Other { message } => SourceErrorKindV::Other { message: message@ },
        }
    }
}

impl Clone for SourceErrorKind {
    fn clone(&self) -> (r: Self)
        ensures
            r@ == self@,
    {
        match self {
            SourceErrorKind::NotFound { path } => SourceErrorKind::NotFound { path: path.clone() },
            SourceErrorKind::IoError { message } => SourceErrorKind::IoError {
                message: message.clone(),
            },
            SourceErrorKind::ParseError { message, line, column } => SourceErrorKind::ParseError {
                message: message.clone(),
                line: *line,
                column: *column,
            },
            SourceErrorKind::ConnectionError { message } => SourceErrorKind::ConnectionError {
                message: message.clone(),
            },
            SourceErrorKind::Other { message } => SourceErrorKind::Other {
                message: message.clone(),
            },
        }
    }
}

/// `context -> message`
pub open spec fn context_text(context: Seq<char>, message: Seq<char>) -> Seq<char> {
    context + " -> "@ + message
}

pub open spec fn kind_with_context(k: SourceErrorKindV, context: Seq<char>) -> SourceErrorKindV {
    match k {
        SourceErrorKindV::Other { message } => SourceErrorKindV::Other {
            message: context_text(context, message),
        },
        other => other,
    }
}

/// How `Display` writes an error kind.
pub open spec fn kind_text(k: SourceErrorKindV) -> Seq<char> {
    match k {
        SourceErrorKindV::NotFound { path } => "file not found: "@ + path,
        SourceErrorKindV::IoError { message } => "I/O error: "@ + message,
        SourceErrorKindV::ParseError { message, line, column } => match line {
            Some(l) => match column {
                Some(c) => "parse error: "@ + message + " at line "@ + nat_decimal(l as nat)
                    + ", column "@ + nat_decimal(c as nat),
                None => "parse error: "@ + message + " at line "@ + nat_decimal(l as nat),
            },
            None => "parse error: "@ + message,
        },
        SourceErrorKindV::ConnectionError { message } => "connection error: "@ + message,
        SourceErrorKindV::Other { message } => message,
    }
}

fn context_string(context: &str, message: &str) -> (r: String)
    ensures
        r@ == context_text(context@, message@),
{
    concat3(context, " -> ", message)
}

impl SourceErrorKind {
    /// Add context to this error kind (only `Other` carries it).
    pub fn with_context(self, context: &str) -> (r: Self)
        ensures
            r@ == kind_with_context(self@, context@),
    {
        match self {
            SourceErrorKind::Other { message } => SourceErrorKind::Other {
                message: context_string(context, message.as_str()),
            },
            other => other,
        }
    }

    /// The text that `Display` writes for this kind.
    pub fn to_display_string(&self) -> (r: String)
        ensures
            r@ == kind_text(self@),
    {
        match self {
            SourceErrorKind::NotFound { path } => concat2("file not found: ", path.as_str()),
            SourceErrorKind::IoError { message } => concat2("I/O error: ", message.as_str()),
            SourceErrorKind::ParseError { message, line, column } => {
                let mut r = concat2("parse error: ", message.as_str());
                match line {
                    Some(l) => {
                        r.append(" at line ");
                        r.append(u64_to_string(*l as u64).as_str());
                        match column {
                            Some(c) => {
                                r.append(", column ");
                                r.append(u64_to_string(*c as u64).as_str());
                            },
                            None => {},
                        }
                    },
                    None => {},
                }
                r
            },
            SourceErrorKind::ConnectionError { message } => concat2(
                "connection error: ",
                message.as_str(),
            ),
            SourceErrorKind::Other { message } => message.clone(),
        }
    }
}

// ---------------------------------------------------------------------------
// ConfigError
// ---------------------------------------------------------------------------

/// Errors that can occur during configuration loading and validation.
#[derive(Debug)]
pub enum ConfigError {
    /// A configuration source failed to load
    SourceError { source_name: String, kind: SourceErrorKind },
    /// A field failed to parse to the expected type
    ParseError {
        path: String,
        source_location: SourceLocation,
        expected_type: String,
        actual_value: String,
        message: String,
    },
    /// A required field is missing
    MissingField {
        path: String,
        source_location: Option<SourceLocation>,
        searched_sources: Vec<String>,
    },
    /// A validation rule failed
    ValidationError {
        path: String,
        source_location: Option<SourceLocation>,
        value: Option<String>,
        message: String,
    },
    /// Cross-field validation failed
    CrossFieldError { paths: Vec<String>, message: String },
    /// An unknown field was found (when configured to error)
    UnknownField { path: String, source_location: SourceLocation, did_you_mean: Option<String> },
    /// No sources were provided to the builder
    NoSources,
}

pub ghost enum ConfigErrorV {
    SourceError { source_name: Seq<char>, kind: SourceErrorKindV },
    ParseError {
        path: Seq<char>,
        source_location: SourceLocationV,
        expected_type: Seq<char>,
        actual_value: Seq<char>,
        message: Seq<char>,
    },
    MissingField {
        path: Seq<char>,
        source_location: Option<SourceLocationV>,
        searched_sources: Seq<Seq<char>>,
    },
    ValidationError {
        path: Seq<char>,
        source_location: Option<SourceLocationV>,
        value: Option<Seq<char>>,
        message: Seq<char>,
    },
    CrossFieldError { paths: Seq<Seq<char>>, message: Seq<char> },
    UnknownField {
        path: Seq<char>,
        source_location: SourceLocationV,
        did_you_mean: Option<Seq<char>>,
    },
    NoSources,
}

pub open spec fn opt_loc_view(o: Option<SourceLocation>) -> Option<SourceLocationV> {
    match o {
        Some(l) => Some(l@),
        None => None,
    }
}

pub open spec fn opt_text_view(o: Option<String>) -> Option<Seq<char>> {
    match o {
        Some(s) => Some(s@),
        None => None,
    }
}

impl View for ConfigError {
    type V = ConfigErrorV;

    open spec fn view(&self) -> ConfigErrorV {
        match self {
            ConfigError::SourceError { source_name, kind } => ConfigErrorV::SourceError {
                source_name: source_name@,
                kind: kind@,
            },
            ConfigError::ParseError {
                path,
                source_location,
                expected_type,
                actual_value,
                message,
            } => ConfigErrorV::ParseError {
                path: path@,
                source_location: source_location@,
                expected_type: expected_type@,
                actual_value: actual_value@,
                message: message@,
            },
            ConfigError::MissingField { path, source_location, searched_sources } =>
                ConfigErrorV::MissingField {
                path: path@,
                source_location: opt_loc_view(*source_location),
                searched_sources: views(searched_sources@),
            },
            ConfigError::ValidationError { path, source_location, value, message } =>
                ConfigErrorV::ValidationError {
                path: path@,
                source_location: opt_loc_view(*source_location),
                value: opt_text_view(*value),
                message: message@,
            },
            ConfigError::CrossFieldError { paths, message } => ConfigErrorV::CrossFieldError {
                paths: views(paths@),
                message: message@,
            },
            ConfigError::UnknownField { path, source_location, did_you_mean } =>
                ConfigErrorV::UnknownField {
                path: path@,
                source_location: source_location@,
                did_you_mean: opt_text_view(*did_you_mean),
            },
            ConfigError::NoSources => ConfigErrorV::NoSources,
        }
    }
}

pub fn clone_strings(v: &Vec<String>) -> (r: Vec<String>)
    ensures
        views(r@) == views(v@),
{
    let mut r: Vec<String> = Vec::new();
    let mut i: usize = 0;
    while i < v.len()
        invariant
            i <= v.len(),
            views(r@) == views(v@.take(i as int)),
        decreases v.len() - i,
    {
        let c = v[i].clone();
        assert(c@ == v@[i as int]@);
        let ghost before = views(r@);
        r.push(c);
        assert(views(r@) =~= before.push(c@));
        assert(views(v@.take(i + 1)) =~= views(v@.take(i as int)).push(v@[i as int]@));
        i = i + 1;
    }
    assert(v@.take(v.len() as int) =~= v@);
    r
}

fn clone_opt_loc(o: &Option<SourceLocation>) -> (r: Option<SourceLocation>)
    ensures
        opt_loc_view(r) == opt_loc_view(*o),
{
    match o {
        Some(l) => Some(l.clone()),
        None => None,
    }
}

fn clone_opt_text(o: &Option<String>) -> (r: Option<String>)
    ensures
        opt_text_view(r) == opt_text_view(*o),
{
    match o {
        Some(s) => Some(s.clone()),
        None => None,
    }
}

impl Clone for ConfigError {
    fn clone(&self) -> (r: Self)
        ensures
            r@ == self@,
    {
        match self {
            ConfigError::SourceError { source_name, kind } => ConfigError::SourceError {
                source_name: source_name.clone(),
                kind: kind.clone(),
            },
            ConfigError::ParseError {
                path,
                source_location,
                expected_type,
                actual_value,
                message,
            } => ConfigError::ParseError {
                path: path.clone(),
                source_location: source_location.clone(),
                expected_type: expected_type.clone(),
                actual_value: actual_value.clone(),
                message: message.clone(),
            },
            ConfigError::MissingField { path, source_location, searched_sources } =>
                ConfigError::MissingField {
                path: path.clone(),
                source_location: clone_opt_loc(source_location),
                searched_sources: clone_strings(searched_sources),
            },
            ConfigError::ValidationError { path, source_location, value, message } =>
                ConfigError::ValidationError {
                path: path.clone(),
                source_location: clone_opt_loc(source_location),
                value: clone_opt_text(value),
                message: message.clone(),
            },
            ConfigError::CrossFieldError { paths, message } => ConfigError::CrossFieldError {
                paths: clone_strings(paths),
                message: message.clone(),
            },
            ConfigError::UnknownField { path, source_location, did_you_mean } =>
                ConfigError::UnknownField {
                path: path.clone(),
                source_location: source_location.clone(),
                did_you_mean: clone_opt_text(did_you_mean),
            },
            ConfigError::NoSources => ConfigError::NoSources,
        }
    }
}

/// The configuration path an error relates to, if any.
pub open spec fn error_path(e: ConfigErrorV) -> Option<Seq<char>> {
    match e {
        ConfigErrorV::ParseError { path, .. } => Some(path),
        ConfigErrorV::MissingField { path, .. } => Some(path),
        ConfigErrorV::ValidationError { path, .. } => Some(path),
        ConfigErrorV::UnknownField { path, .. } => Some(path),
        _ => None,
    }
}

/// The source location of an error, if any.
pub open spec fn error_location(e: ConfigErrorV) -> Option<SourceLocationV> {
    match e {
        ConfigErrorV::ParseError { source_location, .. } => Some(source_location),
        ConfigErrorV::MissingField { source_location, .. } => source_location,
        ConfigErrorV::ValidationError { source_location, .. } => source_location,
        ConfigErrorV::UnknownField { source_location, .. } => Some(source_location),
        _ => None,
    }
}

pub open spec fn error_suggestion(e: ConfigErrorV) -> Option<Seq<char>> {
    match e {
        ConfigErrorV::UnknownField { did_you_mean: Some(s), path, .. } => Some(
            "Change '"@ + path + "' to '"@ + s + "'"@,
        ),
        ConfigErrorV::MissingField { path, .. } => Some(
            "Add '"@ + path + "' to your configuration"@,
        ),
        _ => None,
    }
}

pub open spec fn error_with_context(e: ConfigErrorV, context: Seq<char>) -> ConfigErrorV {
    match e {
        ConfigErrorV::ValidationError { path, source_location, value, message } =>
            ConfigErrorV::ValidationError {
            path,
            source_location,
            value,
            message: context_text(context, message),
        },
        ConfigErrorV::SourceError { source_name, kind } => ConfigErrorV::SourceError {
            source_name,
            kind: kind_with_context(kind, context),
        },
        other => other,
    }
}

/// A path under a prefix: `prefix` for an empty path, `prefix[i]...` for a path
/// that starts with an index, `prefix.path` otherwise.
pub open spec fn prefixed_path(prefix: Seq<char>, path: Seq<char>) -> Seq<char> {
    if path.len() == 0 {
        prefix
    } else if path[0] == '[' {
        prefix + path
    } else {
        prefix + seq!['.'] + path
    }
}

pub open spec fn prefixed_paths(prefix: Seq<char>, paths: Seq<Seq<char>>) -> Seq<Seq<char>> {
    Seq::new(paths.len(), |i: int| prefixed_path(prefix, paths[i]))
}

pub open spec fn error_with_path_prefix(e: ConfigErrorV, prefix: Seq<char>) -> ConfigErrorV {
    match e {
        ConfigErrorV::ParseError {
            path,
            source_location,
            expected_type,
            actual_value,
            message,
        } => ConfigErrorV::ParseError {
            path: prefixed_path(prefix, path),
            source_location,
            expected_type,
            actual_value,
            message,
        },
        ConfigErrorV::MissingField { path, source_location, searched_sources } =>
            ConfigErrorV::MissingField {
            path: prefixed_path(prefix, path),
            source_location,
            searched_sources,
        },
        ConfigErrorV::ValidationError { path, source_location, value, message } =>
            ConfigErrorV::ValidationError {
            path: prefixed_path(prefix, path),
            source_location,
            value,
            message,
        },
        ConfigErrorV::UnknownField { path, source_location, did_you_mean } =>
            ConfigErrorV::UnknownField {
            path: prefixed_path(prefix, path),
            source_location,
            did_you_mean,
        },
        ConfigErrorV::CrossFieldError { paths, message } => ConfigErrorV::CrossFieldError {
            paths: prefixed_paths(prefix, paths),
            message,
        },
        other => other,
    }
}

pub fn prefix_path(prefix: &str, path: &str) -> (r: String)
    ensures
        r@ == prefixed_path(prefix@, path@),
{
    let n: usize = path.unicode_len();
    if n == 0 {
        string_from(prefix)
    } else if path.get_char(0) == '[' {
        concat2(prefix, path)
    } else {
        let r = concat3(prefix, ".", path);
        proof {
            reveal_strlit(".");
        }
        r
    }
}

fn prefix_paths(prefix: &str, paths: Vec<String>) -> (r: Vec<String>)
    ensures
        views(r@) == prefixed_paths(prefix@, views(paths@)),
{
    let mut r: Vec<String> = Vec::new();
    let mut i: usize = 0;
    while i < paths.len()
        invariant
            i <= paths.len(),
            views(r@) =~= prefixed_paths(prefix@, views(paths@)).take(i as int),
        decreases paths.len() - i,
    {
        let p = prefix_path(prefix, paths[i].as_str());
        let ghost before = views(r@);
        r.push(p);
        assert(views(r@) =~= before.push(p@));
        i = i + 1;
    }
    r
}

impl ConfigError {
    /// The configuration path that this error relates to, if any.
    pub fn path(&self) -> (r: Option<&str>)
        ensures
            match r {
                Some(p) => error_path(self@) == Some(p@),
                None => error_path(self@) is None,
            },
    {
        match self {
            ConfigError::ParseError { path, .. } => Some(path.as_str()),
            ConfigError::MissingField { path, .. } => Some(path.as_str()),
            ConfigError::ValidationError { path, .. } => Some(path.as_str()),
            ConfigError::UnknownField { path, .. } => Some(path.as_str()),
            ConfigError::CrossFieldError { .. } => None,
            ConfigError::SourceError { .. } => None,
            ConfigError::NoSources => None,
        }
    }

    /// The source location of this error, if any.
    pub fn source_location(&self) -> (r: Option<&SourceLocation>)
        ensures
            match r {
                Some(l) => error_location(self@) == Some(l@),
                None => error_location(self@) is None,
            },
    {
        match self {
            ConfigError::ParseError { source_location, .. } => Some(source_location),
            ConfigError::MissingField { source_location, .. } => source_location.as_ref(),
            ConfigError::ValidationError { source_location, .. } => source_location.as_ref(),
            ConfigError::UnknownField { source_location, .. } => Some(source_location),
            _ => None,
        }
    }

    /// Whether this is a validation error (single-field or cross-field).
    pub fn is_validation_error(&self) -> (r: bool)
        ensures
            r == (self@ is ValidationError || self@ is CrossFieldError),
    {
        match self {
            ConfigError::ValidationError { .. } | ConfigError::CrossFieldError { .. } => true,
            _ => false,
        }
    }

    /// A suggestion for fixing this error, if available.
    pub fn suggestion(&self) -> (r: Option<String>)
        ensures
            opt_text_view(r) == error_suggestion(self@),
    {
        match self {
            ConfigError::UnknownField { did_you_mean: Some(s), path, .. } => {
                let mut r = concat3("Change '", path.as_str(), "' to '");
                r.append(s.as_str());
                r.append("'");
                Some(r)
            },
            ConfigError::MissingField { path, .. } => Some(
                concat3("Add '", path.as_str(), "' to your configuration"),
            ),
            _ => None,
        }
    }

    /// Add context to this error (validation messages and `Other` source errors).
    pub fn with_context(self, context: &str) -> (r: Self)
        ensures
            r@ == error_with_context(self@, context@),
    {
        match self {
            ConfigError::ValidationError { path, source_location, value, message } =>
                ConfigError::ValidationError {
                path,
                source_location,
                value,
                message: context_string(context, message.as_str()),
            },
            ConfigError::SourceError { source_name, kind } => ConfigError::SourceError {
                source_name,
                kind: kind.with_context(context),
            },
            other => other,
        }
    }

    /// Put the error's path (or paths) under `prefix`.
    pub fn with_path_prefix(self, prefix: &str) -> (r: Self)
        ensures
            r@ == error_with_path_prefix(self@, prefix@),
    {
        match self {
            ConfigError::ParseError {
                path,
                source_location,
                expected_type,
                actual_value,
                message,
            } => ConfigError::ParseError {
                path: prefix_path(prefix, path.as_str()),
                source_location,
                expected_type,
                actual_value,
                message,
            },
            ConfigError::MissingField { path, source_location, searched_sources } =>
                ConfigError::MissingField {
                path: prefix_path(prefix, path.as_str()),
                source_location,
                searched_sources,
            },
            ConfigError::ValidationError { path, source_location, value, message } =>
                ConfigError::ValidationError {
                path: prefix_path(prefix, path.as_str()),
                source_location,
                value,
                message,
            },
            ConfigError::UnknownField { path, source_location, did_you_mean } =>
                ConfigError::UnknownField {
                path: prefix_path(prefix, path.as_str()),
                source_location,
                did_you_mean,
            },
            ConfigError::CrossFieldError { paths, message } => ConfigError::CrossFieldError {
                paths: prefix_paths(prefix, paths),
                message,
            },
            other => other,
        }
    }
}

// ---------------------------------------------------------------------------
// ConfigErrors
// ---------------------------------------------------------------------------

/// A non-empty collection of configuration errors.
#[derive(Debug)]
pub struct ConfigErrors {
    errors: Vec<ConfigError>,
}

pub open spec fn error_views(v: Seq<ConfigError>) -> Seq<ConfigErrorV> {
    v.map_values(|e: ConfigError| e@)
}

impl View for ConfigErrors {
    type V = Seq<ConfigErrorV>;

    closed spec fn view(&self) -> Seq<ConfigErrorV> {
        error_views(self.errors@)
    }
}

impl ConfigErrors {
    #[verifier::type_invariant]
    spec fn non_empty(self) -> bool {
        self.errors.len() > 0
    }

    /// Create from a single error.
    pub fn single(error: ConfigError) -> (r: Self)
        ensures
            r@ == seq![error@],
    {
        let mut errors: Vec<ConfigError> = Vec::new();
        errors.push(error);
        let r = ConfigErrors { errors };
        assert(r@ =~= seq![error@]);
        r
    }

    /// Create from a vec, or `None` if it is empty.
    pub fn from_vec(errors: Vec<ConfigError>) -> (r: Option<Self>)
        ensures
            errors.len() == 0 <==> r is None,
            r matches Some(e) ==> e@ == error_views(errors@),
    {
        if errors.len() == 0 {
            None
        } else {
            Some(ConfigErrors { errors })
        }
    }

    /// The first error (always exists).
    pub fn first(&self) -> (r: &ConfigError)
        ensures
            self@.len() > 0,
            r@ == self@[0],
    {
        proof {
            use_type_invariant(self);
        }
        &self.errors[0]
    }

    /// All errors, in order.
    pub fn as_slice(&self) -> (r: &[ConfigError])
        ensures
            error_views(r@) == self@,
    {
        self.errors.as_slice()
    }

    /// Number of errors (at least one).
    pub fn len(&self) -> (r: usize)
        ensures
            r == self@.len(),
            r > 0,
    {
        proof {
            use_type_invariant(self);
        }
        self.errors.len()
    }

    /// Always false: there is at least one error.
    pub fn is_empty(&self) -> (r: bool)
        ensures
            r == (self@.len() == 0),
            !r,
    {
        proof {
            use_type_invariant(self);
        }
        false
    }

    /// Iterate over the errors.
    pub fn iter(&self) -> (r: std::slice::Iter<'_, ConfigError>)
        ensures
            vstd::std_specs::iter::IteratorSpec::remaining(&r).map_values(|e: &ConfigError| e@) == self@,
    {
        let sl = self.errors.as_slice();
        let r = sl.iter();
        proof {
            vstd::std_specs::slice::axiom_spec_slice_iter(sl);
            assert(vstd::std_specs::iter::IteratorSpec::remaining(&r).map_values(|e: &ConfigError| e@) =~= self@);
        }
        r
    }

    /// The errors as a vector.
    pub fn into_vec(self) -> (r: Vec<ConfigError>)
        ensures
            error_views(r@) == self@,
            r.len() > 0,
    {
        proof {
            use_type_invariant(&self);
        }
        self.errors
    }

    /// All errors of `self` followed by all errors of `other`.
    pub fn combine(self, other: Self) -> (r: Self)
        ensures
            r@ == self@ + other@,
    {
        proof {
            use_type_invariant(&self);
        }
        let mut errors = self.errors;
        let mut more = other.errors;
        let ghost a = errors@;
        let ghost b = more@;
        errors.append(&mut more);
        let r = ConfigErrors { errors };
        assert(r@ =~= error_views(a) + error_views(b));
        r
    }

    /// Add context to every error.
    pub fn with_context<S: IntoText>(self, context: S) -> (r: Self)
        ensures
            r@ == Seq::new(self@.len(), |i: int| error_with_context(self@[i], context.text_view())),
    {
        proof {
            use_type_invariant(&self);
        }
        let context = context.into_text();
        let ghost old_view = self@;
        let mut out: Vec<ConfigError> = Vec::new();
        let mut rest = self.errors;
        let ghost all = rest@;
        let mut i: usize = 0;
        let n: usize = rest.len();
        let mut rest = reverse_vec(rest);
        while i < n
            invariant
                n == all.len(),
                n > 0,
                i <= n,
                rest@.len() == n - i,
                forall|j: int| 0 <= j < n - i ==> rest@[j] == all[n - 1 - j],
                error_views(out@) =~= Seq::new(
                    i as nat,
                    |j: int| error_with_context(all[j]@, context@),
                ),
                old_view == error_views(all),
            decreases n - i,
        {
            let e = rest.pop().unwrap();
            assert(e == all[i as int]);
            let ghost before = error_views(out@);
            let f = e.with_context(context.as_str());
            out.push(f);
            assert(error_views(out@) =~= before.push(f@));
            i = i + 1;
        }
        ConfigErrors { errors: out }
    }

    /// Put every error's path under `prefix`.
    pub fn with_path_prefix(self, prefix: &str) -> (r: Self)
        ensures
            r@ == Seq::new(self@.len(), |i: int| error_with_path_prefix(self@[i], prefix@)),
    {
        proof {
            use_type_invariant(&self);
        }
        let ghost old_view = self@;
        let mut out: Vec<ConfigError> = Vec::new();
        let mut rest = self.errors;
        let ghost all = rest@;
        let mut i: usize = 0;
        let n: usize = rest.len();
        let mut rest = reverse_vec(rest);
        while i < n
            invariant
                n == all.len(),
                n > 0,
                i <= n,
                rest@.len() == n - i,
                forall|j: int| 0 <= j < n - i ==> rest@[j] == all[n - 1 - j],
                error_views(out@) =~= Seq::new(
                    i as nat,
                    |j: int| error_with_path_prefix(all[j]@, prefix@),
                ),
                old_view == error_views(all),
            decreases n - i,
        {
            let e = rest.pop().unwrap();
            assert(e == all[i as int]);
            let ghost before = error_views(out@);
            let f = e.with_path_prefix(prefix);
            out.push(f);
            assert(error_views(out@) =~= before.push(f@));
            i = i + 1;
        }
        ConfigErrors { errors: out }
    }
}

impl From<ConfigError> for ConfigErrors {
    fn from(error: ConfigError) -> (r: Self) {
        ConfigErrors::single(error)
    }
}

impl vstd::std_specs::convert::FromSpecImpl<ConfigError> for ConfigErrors {
    // The list is held in a `Vec`, which no spec value can name; what `from`
    // gives is stated by `ConfigErrors::single`, which it calls.
    open spec fn obeys_from_spec() -> bool {
        false
    }

    open spec fn from_spec(v: ConfigError) -> Self {
        arbitrary()
    }
}

// ---------------------------------------------------------------------------
// Validation results
// ---------------------------------------------------------------------------

/// The outcome of a validation: a value, or all the errors found.
#[derive(Debug)]
pub enum Validation<T> {
    Success(T),
    Failure(ConfigErrors),
}

/// The standard validation result type.
pub type ConfigValidation<T> = Validation<T>;

impl<T> Validation<T> {
    pub fn is_success(&self) -> (r: bool)
        ensures
            r == (self is Success),
    {
        match self {
            Validation::Success(_) => true,
            Validation::Failure(_) => false,
        }
    }

    pub fn is_failure(&self) -> (r: bool)
        ensures
            r == (self is Failure),
    {
        match self {
            Validation::Success(_) => false,
            Validation::Failure(_) => true,
        }
    }

    /// Convert to a `Result`.
    pub fn into_result(self) -> (r: Result<T, ConfigErrors>)
        ensures
            match self {
                Validation::Success(v) => r == Ok::<T, ConfigErrors>(v),
                Validation::Failure(e) => r == Err::<T, ConfigErrors>(e),
            },
    {
        match self {
            Validation::Success(v) => Ok(v),
            Validation::Failure(e) => Err(e),
        }
    }
}

/// Errors of a list of validations, in order (successes contribute none).
pub open spec fn failures_of<T>(vs: Seq<Validation<T>>) -> Seq<ConfigErrorV>
    decreases vs.len(),
{
    if vs.len() == 0 {
        Seq::empty()
    } else {
        failures_of(vs.drop_last()) + match vs.last() {
            Validation::Success(_) => Seq::empty(),
            Validation::Failure(e) => e@,
        }
    }
}

pub open spec fn all_succeed<T>(vs: Seq<Validation<T>>) -> bool {
    forall|i: int| 0 <= i < vs.len() ==> (#[trigger] vs[i]) is Success
}

pub open spec fn success_value<T>(v: Validation<T>) -> T
    recommends
        v is Success,
{
    match v {
        Validation::Success(x) => x,
        Validation::Failure(_) => arbitrary(),
    }
}

impl<T> Validation<T> {
    /// Run all validations: the values if every one succeeded, otherwise all
    /// errors of all failures, in order.
    pub fn all_vec(vs: Vec<Validation<T>>) -> (r: Validation<Vec<T>>)
        ensures
            all_succeed(vs@) ==> (r matches Validation::Success(xs) && xs@ == Seq::new(
                vs@.len(),
                |i: int| success_value(vs@[i]),
            )),
            !all_succeed(vs@) ==> (r matches Validation::Failure(e) && e@ == failures_of(vs@)),
    {
        let ghost all = vs@;
        let n: usize = vs.len();
        let mut rest = vs;
        let mut rest = reverse_vec(rest);
        let mut values: Vec<T> = Vec::new();
        let mut errors: Vec<ConfigError> = Vec::new();
        let mut i: usize = 0;
        while i < n
            invariant
                n == all.len(),
                i <= n,
                rest@.len() == n - i,
                forall|j: int| 0 <= j < n - i ==> rest@[j] == all[n - 1 - j],
                error_views(errors@) == failures_of(all.take(i as int)),
                all_succeed(all.take(i as int)) ==> values@ =~= Seq::new(
                    i as nat,
                    |j: int| success_value(all[j]),
                ),
                all_succeed(all.take(i as int)) <==> errors@.len() == 0,
            decreases n - i,
        {
            let v = rest.pop().unwrap();
            assert(all.take(i + 1).drop_last() =~= all.take(i as int));
            assert(all.take(i + 1).last() == v);
            match v {
                Validation::Success(x) => {
                    values.push(x);
                    proof {
                    if all_succeed(all.take(i as int)) {
                        assert forall|j: int| 0 <= j < i + 1 implies (#[trigger] all.take(
                            i + 1,
                        )[j]) is Success by {
                            if j < i {
                                assert(all.take(i + 1)[j] == all.take(i as int)[j]);
                            }
                        }
                    } else {
                        let k = choose|k: int| 0 <= k < i && !(all.take(i as int)[k] is Success);
                        assert(all.take(i + 1)[k] == all.take(i as int)[k]);
                    }
                    }
                    assert(error_views(errors@) =~= failures_of(all.take(i + 1)));
                },
                Validation::Failure(e) => {
                    proof {
                        use_type_invariant(&e);
                    }
                    let ghost before = errors@;
                    let mut more = e.errors;
                    errors.append(&mut more);
                    assert(error_views(errors@) =~= error_views(before) + e@);
                    assert(!(all.take(i + 1)[i as int] is Success));
                },
            }
            i = i + 1;
        }
        assert(all.take(n as int) =~= all);
        if errors.len() == 0 {
            Validation::Success(values)
        } else {
            Validation::Failure(ConfigErrors { errors })
        }
    }

    /// A failing validation with a single error.
    pub fn fail_with(error: ConfigError) -> (r: Validation<T>)
        ensures
            (r matches Validation::Failure(e) && e@ == seq![error@]),
    {
        Validation::Failure(ConfigErrors::single(error))
    }
}

/// Creating failing validations.
pub trait ConfigValidationExt<T> {
    /// A failing validation with a single error.
    fn fail_with(error: ConfigError) -> (r: ConfigValidation<T>)
        ensures
            r matches Validation::Failure(e) && e@ == seq![error@],
    ;
}

impl<T> ConfigValidationExt<T> for ConfigValidation<T> {
    fn fail_with(error: ConfigError) -> (r: ConfigValidation<T>) {
        Validation::Failure(ConfigErrors::single(error))
    }
}

// ---------------------------------------------------------------------------
// Display text
// ---------------------------------------------------------------------------

/// How `Display` writes an error.
pub open spec fn error_text(e: ConfigErrorV) -> Seq<char> {
    match e {
        ConfigErrorV::MissingField { path, searched_sources, .. } => "missing required field '"@
            + path + "' (searched: "@ + join_spec(searched_sources, ", "@) + ")"@,
        ConfigErrorV::ParseError { path, source_location, expected_type, actual_value, message } =>
            "["@ + location_text(source_location) + "] '"@ + path + "': expected "@
            + expected_type + ", got \""@ + actual_value + "\": "@ + message,
        ConfigErrorV::ValidationError { path, source_location, message, .. } =>
            match source_location {
            Some(loc) => "["@ + location_text(loc) + "] '"@ + path + "': "@ + message,
            None => "'"@ + path + "': "@ + message,
        },
        ConfigErrorV::CrossFieldError { paths, message } => "["@ + join_spec(paths, ", "@)
            + "]: "@ + message,
        ConfigErrorV::UnknownField { path, source_location, did_you_mean } => "["@
            + location_text(source_location) + "] unknown field '"@ + path + "'"@
            + match did_you_mean {
            Some(s) => "; did you mean '"@ + s + "'?"@,
            None => Seq::empty(),
        },
        ConfigErrorV::SourceError { source_name, kind } => source_name + ": "@ + kind_text(kind),
        ConfigErrorV::NoSources => "no configuration sources provided"@,
    }
}

/// How `Display` writes a list of errors: a header with the count, then
/// each error on an indented line.
pub open spec fn errors_text(es: Seq<ConfigErrorV>) -> Seq<char> {
    "Configuration errors ("@ + nat_decimal(es.len()) + "):\n"@ + error_lines(es)
}

pub open spec fn error_lines(es: Seq<ConfigErrorV>) -> Seq<char>
    decreases es.len(),
{
    if es.len() == 0 {
        Seq::empty()
    } else {
        error_lines(es.drop_last()) + "  "@ + error_text(es.last()) + "\n"@
    }
}

impl ConfigError {
    /// The text that `Display` writes for this error.
    pub fn to_display_string(&self) -> (r: String)
        ensures
            r@ == error_text(self@),
    {
        match self {
            ConfigError::MissingField { path, searched_sources, .. } => {
                let mut r = concat3("missing required field '", path.as_str(), "' (searched: ");
                r.append(join_strs(searched_sources, ", ").as_str());
                r.append(")");
                r
            },
            ConfigError::ParseError {
                path,
                source_location,
                expected_type,
                actual_value,
                message,
            } => {
                let mut r = concat3("[", source_location.to_display_string().as_str(), "] '");
                r.append(path.as_str());
                r.append("': expected ");
                r.append(expected_type.as_str());
                r.append(", got \"");
                r.append(actual_value.as_str());
                r.append("\": ");
                r.append(message.as_str());
                r
            },
            ConfigError::ValidationError { path, source_location, message, .. } => {
                match source_location {
                    Some(loc) => {
                        let mut r = concat3("[", loc.to_display_string().as_str(), "] '");
                        r.append(path.as_str());
                        r.append("': ");
                        r.append(message.as_str());
                        r
                    },
                    None => {
                        let mut r = concat3("'", path.as_str(), "': ");
                        r.append(message.as_str());
                        r
                    },
                }
            },
            ConfigError::CrossFieldError { paths, message } => {
                let mut r = concat3("[", join_strs(paths, ", ").as_str(), "]: ");
                r.append(message.as_str());
                r
            },
            ConfigError::UnknownField { path, source_location, did_you_mean } => {
                let mut r = concat3(
                    "[",
                    source_location.to_display_string().as_str(),
                    "] unknown field '",
                );
                r.append(path.as_str());
                r.append("'");
                match did_you_mean {
                    Some(sug) => {
                        r.append("; did you mean '");
                        r.append(sug.as_str());
                        r.append("'?");
                    },
                    None => {},
                }
                r
            },
            ConfigError::SourceError { source_name, kind } => {
                concat3(source_name.as_str(), ": ", kind.to_display_string().as_str())
            },
            ConfigError::NoSources => string_from("no configuration sources provided"),
        }
    }
}

impl ConfigErrors {
    /// The text that `Display` writes for the errors.
    pub fn to_display_string(&self) -> (r: String)
        ensures
            r@ == errors_text(self@),
    {
        let n = self.len();
        let mut r = string_from("Configuration errors (");
        r.append(usize_to_string(n).as_str());
        r.append("):\n");
        let ghost head = r@;
        let items = self.as_slice();
        let mut i: usize = 0;
        let ghost es = self@;
        assert(es.take(0) =~= Seq::<ConfigErrorV>::empty());
        while i < items.len()
            invariant
                i <= items@.len(),
                error_views(items@) == es,
                r@ == head + error_lines(es.take(i as int)),
            decreases items@.len() - i,
        {
            assert(es.take(i + 1).drop_last() =~= es.take(i as int));
            assert(es[i as int] == items@[i as int]@);
            r.append("  ");
            r.append(items[i].to_display_string().as_str());
            r.append("\n");
            i = i + 1;
        }
        assert(es.take(items@.len() as int) =~= es);
        r
    }
}

/// The group an error is reported under: its source, or `(general)`.
pub open spec fn group_key(e: ConfigErrorV) -> Seq<char> {
    match error_location(e) {
        Some(loc) => loc.source,
        None => "(general)"@,
    }
}

pub open spec fn has_group_key(es: Seq<ConfigErrorV>, k: Seq<char>) -> bool {
    exists|i: int| 0 <= i < es.len() && group_key(#[trigger] es[i]) == k
}

pub open spec fn in_group(k: Seq<char>) -> spec_fn(ConfigErrorV) -> bool {
    |e: ConfigErrorV| group_key(e) == k
}

pub open spec fn ref_views(v: Seq<&ConfigError>) -> Seq<ConfigErrorV> {
    v.map_values(|e: &ConfigError| e@)
}

pub open spec fn group_views(g: Seq<(String, Vec<&ConfigError>)>) -> Seq<(Seq<char>, Seq<ConfigErrorV>)> {
    g.map_values(|p: (String, Vec<&ConfigError>)| (p.0@, ref_views(p.1@)))
}

/// The groups: in key order, each key of some error once, with the errors
/// of that key in their order.
pub open spec fn groups_spec(es: Seq<ConfigErrorV>, g: Seq<(Seq<char>, Seq<ConfigErrorV>)>) -> bool {
    &&& sorted_keys(g)
    &&& forall|k: Seq<char>| #[trigger]
        assoc_get(g, k) == if has_group_key(es, k) {
            Some(es.filter(in_group(k)))
        } else {
            None
        }
}

/// An unknown-field error reports the location it was built with, and a
/// grouping by source files it under that location's source, together with
/// every other error from the same source.
pub proof fn law_unknown_field_grouped_by_its_source(
    es: Seq<ConfigErrorV>,
    g: Seq<(Seq<char>, Seq<ConfigErrorV>)>,
    i: int,
)
    requires
        groups_spec(es, g),
        0 <= i < es.len(),
        es[i] is UnknownField,
    ensures
        error_location(es[i]) == Some(es[i]->UnknownField_source_location),
        assoc_get(g, es[i]->UnknownField_source_location.source) is Some,
        assoc_get(g, es[i]->UnknownField_source_location.source)->0.contains(es[i]),
        forall|j: int|
            0 <= j < es.len() && group_key(#[trigger] es[j])
                == es[i]->UnknownField_source_location.source ==> assoc_get(
                g,
                es[i]->UnknownField_source_location.source,
            )->0.contains(es[j]),
{
    let k = es[i]->UnknownField_source_location.source;
    assert(group_key(es[i]) == k);
    assert(has_group_key(es, k));
    assert forall|j: int| 0 <= j < es.len() && group_key(#[trigger] es[j]) == k implies es.filter(
        in_group(k),
    ).contains(es[j]) by {
        es.lemma_filter_contains(in_group(k), j);
    }
    es.lemma_filter_contains(in_group(k), i);
}

/// Total number of errors over the groups.
pub open spec fn group_sizes(g: Seq<(Seq<char>, Seq<ConfigErrorV>)>) -> int
    decreases g.len(),
{
    if g.len() == 0 {
        0
    } else {
        group_sizes(g.drop_last()) + g.last().1.len()
    }
}

pub proof fn lemma_group_sizes_concat(
    a: Seq<(Seq<char>, Seq<ConfigErrorV>)>,
    b: Seq<(Seq<char>, Seq<ConfigErrorV>)>,
)
    ensures
        group_sizes(a + b) == group_sizes(a) + group_sizes(b),
        group_sizes(a) >= 0,
    decreases b.len(),
{
    if b.len() == 0 {
        assert(a + b =~= a);
        lemma_group_sizes_nonneg(a);
    } else {
        assert((a + b).drop_last() =~= a + b.drop_last());
        lemma_group_sizes_concat(a, b.drop_last());
    }
}

pub proof fn lemma_group_sizes_nonneg(a: Seq<(Seq<char>, Seq<ConfigErrorV>)>)
    ensures
        group_sizes(a) >= 0,
    decreases a.len(),
{
    if a.len() > 0 {
        lemma_group_sizes_nonneg(a.drop_last());
    }
}

proof fn lemma_group_sizes_split(s: Seq<(Seq<char>, Seq<ConfigErrorV>)>, j: int)
    requires
        0 <= j < s.len(),
    ensures
        group_sizes(s) == group_sizes(s.remove(j)) + s[j].1.len(),
{
    assert(s =~= s.take(j) + seq![s[j]] + s.skip(j + 1));
    assert(s.remove(j) =~= s.take(j) + s.skip(j + 1));
    lemma_group_sizes_concat(s.take(j) + seq![s[j]], s.skip(j + 1));
    lemma_group_sizes_concat(s.take(j), seq![s[j]]);
    lemma_group_sizes_concat(s.take(j), s.skip(j + 1));
    assert(seq![s[j]].drop_last() =~= Seq::<(Seq<char>, Seq<ConfigErrorV>)>::empty());
    assert(group_sizes(seq![s[j]]) == s[j].1.len()) by {
        reveal_with_fuel(group_sizes, 2);
    }
}

proof fn lemma_group_sizes_insert(
    g: Seq<(Seq<char>, Seq<ConfigErrorV>)>,
    k: Seq<char>,
    v: Seq<ConfigErrorV>,
)
    requires
        sorted_keys(g),
        assoc_get(g, k) is None,
    ensures
        group_sizes(crate::assoc::sorted_insert(g, k, v)) == group_sizes(g) + v.len(),
{
    crate::assoc::lemma_get_index(g, k);
    let p = crate::assoc::insert_pos(g, k);
    crate::assoc::lemma_map_vals_insert(g, k, v, |x: Seq<ConfigErrorV>| x);
    assert(!(p < g.len() && g[p].0 == k));
    assert(crate::assoc::sorted_insert(g, k, v) =~= g.take(p) + seq![(k, v)] + g.skip(p));
    assert(g =~= g.take(p) + g.skip(p));
    lemma_group_sizes_concat(g.take(p), g.skip(p));
    lemma_group_sizes_concat(g.take(p) + seq![(k, v)], g.skip(p));
    lemma_group_sizes_concat(g.take(p), seq![(k, v)]);
    assert(seq![(k, v)].drop_last() =~= Seq::<(Seq<char>, Seq<ConfigErrorV>)>::empty());
    assert(group_sizes(seq![(k, v)]) == v.len()) by {
        reveal_with_fuel(group_sizes, 2);
    }
}

/// The groups of a list of errors are determined by it.
pub proof fn lemma_groups_unique(
    es: Seq<ConfigErrorV>,
    g1: Seq<(Seq<char>, Seq<ConfigErrorV>)>,
    g2: Seq<(Seq<char>, Seq<ConfigErrorV>)>,
)
    requires
        groups_spec(es, g1),
        groups_spec(es, g2),
    ensures
        g1 == g2,
{
    assert forall|k: Seq<char>| #[trigger] assoc_get(g1, k) == assoc_get(g2, k) by {}
    crate::assoc::lemma_sorted_ext(g1, g2);
}

proof fn lemma_filter_none(s: Seq<ConfigErrorV>, p: spec_fn(ConfigErrorV) -> bool)
    requires
        forall|i: int| 0 <= i < s.len() ==> !p(#[trigger] s[i]),
    ensures
        s.filter(p) == Seq::<ConfigErrorV>::empty(),
    decreases s.len(),
{
    if s.len() == 0 {
        s.lemma_filter_len(p);
        assert(s.filter(p) =~= Seq::<ConfigErrorV>::empty());
    } else {
        let d = s.drop_last();
        assert forall|i: int| 0 <= i < d.len() implies !p(#[trigger] d[i]) by {
            assert(d[i] == s[i]);
        }
        lemma_filter_none(d, p);
        d.lemma_filter_push(s.last(), p);
        assert(d.push(s.last()) =~= s);
    }
}

pub open spec fn members_view(m: Vec<&ConfigError>) -> Seq<ConfigErrorV> {
    ref_views(m@)
}

proof fn lemma_group_views(g: Seq<(String, Vec<&ConfigError>)>)
    ensures
        group_views(g) == crate::assoc::map_vals(keyed(g), |m: Vec<&ConfigError>| members_view(m)),
        sorted_keys(keyed(g)) ==> sorted_keys(group_views(g)),
{
    assert(group_views(g) =~= crate::assoc::map_vals(
        keyed(g),
        |m: Vec<&ConfigError>| members_view(m),
    ));
    if sorted_keys(keyed(g)) {
        assert forall|a: int, b: int| 0 <= a < b < group_views(g).len() implies crate::text::seq_lt(
            #[trigger] group_views(g)[a].0,
            #[trigger] group_views(g)[b].0,
        ) by {
            assert(keyed(g)[a].0 == group_views(g)[a].0);
            assert(keyed(g)[b].0 == group_views(g)[b].0);
        }
    }
}

/// Group errors by their source, in source order.
pub fn group_by_source(errors: &ConfigErrors) -> (r: Vec<(String, Vec<&ConfigError>)>)
    ensures
        groups_spec(errors@, group_views(r@)),
        group_sizes(group_views(r@)) == errors@.len(),
{
    let items = errors.as_slice();
    let ghost es = errors@;
    let mut groups: Vec<(String, Vec<&ConfigError>)> = Vec::new();
    let mut i: usize = 0;
    assert(es.take(0) =~= Seq::<ConfigErrorV>::empty());
    assert(group_views(groups@) =~= Seq::<(Seq<char>, Seq<ConfigErrorV>)>::empty());
    assert(keyed(groups@) =~= Seq::<(Seq<char>, Vec<&ConfigError>)>::empty());
    while i < items.len()
        invariant
            i <= items@.len(),
            error_views(items@) == es,
            sorted_keys(keyed(groups@)),
            groups_spec(es.take(i as int), group_views(groups@)),
            group_sizes(group_views(groups@)) == i,
        decreases items@.len() - i,
    {
        let e = &items[i];
        let ghost pre = es.take(i as int);
        let ghost post = es.take(i + 1);
        assert(post =~= pre.push(e@));
        assert(es[i as int] == e@);
        let key = match e.source_location() {
            Some(loc) => loc.source.clone(),
            None => string_from("(general)"),
        };
        let ghost k = key@;
        assert(k == group_key(e@));
        let ghost f = |m: Vec<&ConfigError>| members_view(m);
        let ghost g0 = groups@;
        proof {
            lemma_group_views(g0);
            crate::source::lemma_get_map_vals(keyed(g0), k, f);
            crate::assoc::lemma_get_index(keyed(g0), k);
        }
        let found = assoc_find(&groups, key.as_str());
        let mut members: Vec<&ConfigError> = match found {
            Some(j) => {
                let (_k, m) = groups.remove(j);
                proof {
                    crate::assoc::lemma_sorted_remove(keyed(g0), j as int);
                    assert(keyed(groups@) =~= keyed(g0).remove(j as int));
                    assert(group_views(groups@) =~= group_views(g0).remove(j as int));
                    lemma_group_sizes_split(group_views(g0), j as int);
                    assert(group_views(g0)[j as int].1 == members_view(m));
                }
                m
            },
            None => Vec::new(),
        };
        let ghost g1 = groups@;
        proof {
            match found {
                Some(j) => {
                    assert(members_view(members) == pre.filter(in_group(k)));
                    assert(has_group_key(pre, k));
                },
                None => {
                    assert(!has_group_key(pre, k));
                    assert forall|t: int| 0 <= t < pre.len() implies !in_group(k)(
                        #[trigger] pre[t],
                    ) by {}
                    lemma_filter_none(pre, in_group(k));
                    assert(members_view(members) =~= pre.filter(in_group(k)));
                },
            }
            pre.lemma_filter_push(e@, in_group(k));
        }
        members.push(e);
        assert(members_view(members) =~= post.filter(in_group(k)));
        let ghost mv = members;
        assoc_insert(&mut groups, key, members);
        proof {
            crate::assoc::lemma_sorted_insert(keyed(g1), k, mv);
            lemma_group_views(groups@);
            lemma_group_views(g1);
            crate::assoc::lemma_map_vals_insert(keyed(g1), k, mv, f);
            crate::source::lemma_get_map_vals(keyed(g1), k, f);
            let gv1 = group_views(g1);
            assert(assoc_get(gv1, k) is None);
            assert(group_views(groups@) == crate::assoc::sorted_insert(gv1, k, members_view(mv)));
            lemma_group_sizes_insert(gv1, k, members_view(mv));
            assert forall|k2: Seq<char>| #[trigger]
                assoc_get(group_views(groups@), k2) == if has_group_key(post, k2) {
                    Some(post.filter(in_group(k2)))
                } else {
                    None
                } by {
                crate::source::lemma_get_map_vals(keyed(groups@), k2, f);
                crate::source::lemma_get_map_vals(keyed(g0), k2, f);
                if k2 == k {
                    assert(post[post.len() - 1] == e@);
                    assert(has_group_key(post, k2));
                } else {
                    assert(assoc_get(keyed(groups@), k2) == assoc_get(keyed(g0), k2));
                    pre.lemma_filter_push(e@, in_group(k2));
                    if has_group_key(post, k2) {
                        let t = choose|t: int| 0 <= t < post.len() && group_key(#[trigger] post[t]) == k2;
                        assert(t < pre.len());
                        assert(pre[t] == post[t]);
                    }
                    if has_group_key(pre, k2) {
                        let t = choose|t: int| 0 <= t < pre.len() && group_key(#[trigger] pre[t]) == k2;
                        assert(pre[t] == post[t]);
                    }
                }
            }
        }
        i = i + 1;
    }
    assert(es.take(items@.len() as int) =~= es);
    groups
}

// ---------------------------------------------------------------------------
// Laws
// ---------------------------------------------------------------------------

/// Combining errors is associative, and keeps every error of both sides.
pub proof fn law_combine_associative(a: ConfigErrors, b: ConfigErrors, c: ConfigErrors)
    ensures
        (a@ + b@) + c@ == a@ + (b@ + c@),
        (a@ + b@).len() == a@.len() + b@.len(),
{
    assert((a@ + b@) + c@ =~= a@ + (b@ + c@));
}

/// A path put under a prefix starts with the prefix and ends with the path:
/// joined by a dot, directly before an index, and the prefix alone for an
/// empty path.
pub proof fn law_prefixed_path_shape(prefix: Seq<char>, path: Seq<char>)
    ensures
        prefixed_path(prefix, path).take(prefix.len() as int) == prefix,
        prefixed_path(prefix, path).skip(prefixed_path(prefix, path).len() - path.len()) == path,
        path.len() == 0 ==> prefixed_path(prefix, path) == prefix,
        path.len() > 0 && path[0] == '[' ==> prefixed_path(prefix, path) == prefix + path,
        path.len() > 0 && path[0] != '[' ==> prefixed_path(prefix, path) == prefix + seq!['.']
            + path,
{
    let r = prefixed_path(prefix, path);
    if path.len() == 0 {
        assert(r.take(prefix.len() as int) =~= prefix);
        assert(r.skip(r.len() - path.len()) =~= path);
    } else if path[0] == '[' {
        assert(r.take(prefix.len() as int) =~= prefix);
        assert(r.skip(r.len() - path.len()) =~= path);
    } else {
        assert(r.take(prefix.len() as int) =~= prefix);
        assert(r.skip(r.len() - path.len()) =~= path);
    }
}

/// After a prefix is put on an error, any path it reports starts with the prefix.
pub proof fn law_prefixed_error_path(e: ConfigErrorV, prefix: Seq<char>)
    ensures
        error_path(error_with_path_prefix(e, prefix)) matches Some(p) ==> p.take(
            prefix.len() as int,
        ) == prefix,
{
    match e {
        ConfigErrorV::ParseError { path, .. } => law_prefixed_path_shape(prefix, path),
        ConfigErrorV::MissingField { path, .. } => law_prefixed_path_shape(prefix, path),
        ConfigErrorV::ValidationError { path, .. } => law_prefixed_path_shape(prefix, path),
        ConfigErrorV::UnknownField { path, .. } => law_prefixed_path_shape(prefix, path),
        _ => {},
    }
}

/// Context on a validation error keeps its message after the context.
pub proof fn law_context_keeps_message(e: ConfigErrorV, context: Seq<char>)
    requires
        e is ValidationError,
    ensures
        error_with_context(e, context) matches ConfigErrorV::ValidationError { message, .. }
            && message == context + " -> "@ + e->ValidationError_message,
{
}

} // verus!
