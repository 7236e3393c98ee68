//! The `#[validate(...)]` attribute language of the `Validate` derive: the
//! validators it names, which of them may stand together, and how a field's
//! or a struct's attributes are read.
//!
//! The attribute tokens themselves are read by the derive's front end; this
//! module works on what that front end hands over (names, literal values and
//! the shape of each argument) and decides everything else.
use vstd::prelude::*;

use crate::error::opt_text_view;
use crate::text::{concat3, str_eq};

pub mod parse;
pub mod plan;

verus! {

/// A parsed field attribute representing a single validation rule.
#[derive(Debug)]
pub enum ValidatorAttr {
    NonEmpty,
    MinLength(usize),
    MaxLength(usize),
    /// (min, max)
    Length(usize, usize),
    Pattern(String),
    Email,
    Url,
    Ip,
    Uuid,
    /// Bounds kept as written; their type is the field's.
    Range(String, String),
    Positive,
    Negative,
    NonZero,
    FileExists,
    DirExists,
    ParentExists,
    Extension(String),
    Nested,
    Each(Box<ValidatorAttr>),
    Skip,
    /// A function name.
    Custom(String),
    /// A condition, and the validator it guards.
    When(String, Box<ValidatorAttr>),
}

/// The mathematical model of a `ValidatorAttr`.
pub ghost enum ValidatorAttrV {
    NonEmpty,
    MinLength(usize),
    MaxLength(usize),
    Length(usize, usize),
    Pattern(Seq<char>),
    Email,
    Url,
    Ip,
    Uuid,
    Range(Seq<char>, Seq<char>),
    Positive,
    Negative,
    NonZero,
    FileExists,
    DirExists,
    ParentExists,
    Extension(Seq<char>),
    Nested,
    Each(Box<ValidatorAttrV>),
    Skip,
    Custom(Seq<char>),
    When(Seq<char>, Box<ValidatorAttrV>),
}

pub open spec fn attr_view(a: ValidatorAttr) -> ValidatorAttrV
    decreases a,
{
    match a {
        ValidatorAttr::NonEmpty => ValidatorAttrV::NonEmpty,
        ValidatorAttr::MinLength(n) => ValidatorAttrV::MinLength(n),
        ValidatorAttr::MaxLength(n) => ValidatorAttrV::MaxLength(n),
        ValidatorAttr::Length(a, b) => ValidatorAttrV::Length(a, b),
        ValidatorAttr::Pattern(p) => ValidatorAttrV::Pattern(p@),
        ValidatorAttr::Email => ValidatorAttrV::Email,
        ValidatorAttr::Url => ValidatorAttrV::Url,
        ValidatorAttr::Ip => ValidatorAttrV::Ip,
        ValidatorAttr::Uuid => ValidatorAttrV::Uuid,
        ValidatorAttr::Range(a, b) => ValidatorAttrV::Range(a@, b@),
        ValidatorAttr::Positive => ValidatorAttrV::Positive,
        ValidatorAttr::Negative => ValidatorAttrV::Negative,
        ValidatorAttr::NonZero => ValidatorAttrV::NonZero,
        ValidatorAttr::FileExists => ValidatorAttrV::FileExists,
        ValidatorAttr::DirExists => ValidatorAttrV::DirExists,
        ValidatorAttr::ParentExists => ValidatorAttrV::ParentExists,
        ValidatorAttr::Extension(e) => ValidatorAttrV::Extension(e@),
        ValidatorAttr::Nested => ValidatorAttrV::Nested,
        ValidatorAttr::Each(inner) => ValidatorAttrV::Each(Box::new(attr_view(*inner))),
        ValidatorAttr::Skip => ValidatorAttrV::Skip,
        ValidatorAttr::Custom(f) => ValidatorAttrV::Custom(f@),
        ValidatorAttr::When(c, inner) => ValidatorAttrV::When(c@, Box::new(attr_view(*inner))),
    }
}

impl View for ValidatorAttr {
    type V = ValidatorAttrV;

    open spec fn view(&self) -> ValidatorAttrV {
        attr_view(*self)
    }
}

pub open spec fn attrs_view(s: Seq<ValidatorAttr>) -> Seq<ValidatorAttrV> {
    s.map_values(|a: ValidatorAttr| a@)
}

/// Custom error message override.
#[derive(Debug)]
pub struct MessageOverride(pub Option<String>);

/// A complete field validation configuration.
#[derive(Debug)]
pub struct FieldValidation {
    pub validators: Vec<ValidatorAttr>,
    pub message: MessageOverride,
    pub sensitive: bool,
}

/// The mathematical model of a `FieldValidation`.
pub ghost struct FieldValidationV {
    pub validators: Seq<ValidatorAttrV>,
    pub message: Option<Seq<char>>,
    pub sensitive: bool,
}

impl View for FieldValidation {
    type V = FieldValidationV;

    open spec fn view(&self) -> FieldValidationV {
        FieldValidationV {
            validators: attrs_view(self.validators@),
            message: opt_text_view(self.message.0),
            sensitive: self.sensitive,
        }
    }
}

/// Struct-level validation configuration.
#[derive(Debug)]
pub struct StructValidation {
    pub custom_fn: Option<String>,
}

impl Default for MessageOverride {
    /// No override.
    fn default() -> (r: Self)
        ensures
            r.0 is None,
    {
        MessageOverride(None)
    }
}

impl Default for FieldValidation {
    /// No validators, no message, not sensitive.
    fn default() -> (r: Self)
        ensures
            r@ == (FieldValidationV { validators: Seq::empty(), message: None, sensitive: false }),
    {
        let r = FieldValidation {
            validators: Vec::new(),
            message: MessageOverride(None),
            sensitive: false,
        };
        assert(attrs_view(r.validators@) =~= Seq::<ValidatorAttrV>::empty());
        r
    }
}

impl Default for StructValidation {
    /// No struct-level function.
    fn default() -> (r: Self)
        ensures
            r.custom_fn is None,
    {
        StructValidation { custom_fn: None }
    }
}

/// The name by which a validator is written, and reported.
pub open spec fn attr_name(a: ValidatorAttrV) -> Seq<char> {
    match a {
        ValidatorAttrV::NonEmpty => "non_empty"@,
        ValidatorAttrV::MinLength(_) => "min_length"@,
        ValidatorAttrV::MaxLength(_) => "max_length"@,
        ValidatorAttrV::Length(_, _) => "length"@,
        ValidatorAttrV::Pattern(_) => "pattern"@,
        ValidatorAttrV::Email => "email"@,
        ValidatorAttrV::Url => "url"@,
        ValidatorAttrV::Ip => "ip"@,
        ValidatorAttrV::Uuid => "uuid"@,
        ValidatorAttrV::Range(_, _) => "range"@,
        ValidatorAttrV::Positive => "positive"@,
        ValidatorAttrV::Negative => "negative"@,
        ValidatorAttrV::NonZero => "non_zero"@,
        ValidatorAttrV::FileExists => "file_exists"@,
        ValidatorAttrV::DirExists => "dir_exists"@,
        ValidatorAttrV::ParentExists => "parent_exists"@,
        ValidatorAttrV::Extension(_) => "extension"@,
        ValidatorAttrV::Nested => "nested"@,
        ValidatorAttrV::Each(_) => "each"@,
        ValidatorAttrV::Skip => "skip"@,
        ValidatorAttrV::Custom(_) => "custom"@,
        ValidatorAttrV::When(_, _) => "when"@,
    }
}

impl ValidatorAttr {
    /// Whether this validator turns off every other check of the field.
    pub fn is_skip(&self) -> (r: bool)
        ensures
            r == (self@ is Skip),
    {
        match self {
            ValidatorAttr::Skip => true,
            _ => false,
        }
    }

    /// Whether this validator hands the field to its own `Validate`.
    pub fn is_nested(&self) -> (r: bool)
        ensures
            r == (self@ is Nested),
    {
        match self {
            ValidatorAttr::Nested => true,
            _ => false,
        }
    }

    /// The validator's name, for error messages.
    pub fn name(&self) -> (r: &'static str)
        ensures
            r@ == attr_name(self@),
    {
        match self {
            ValidatorAttr::NonEmpty => "non_empty",
            ValidatorAttr::MinLength(_) => "min_length",
            ValidatorAttr::MaxLength(_) => "max_length",
            ValidatorAttr::Length(_, _) => "length",
            ValidatorAttr::Pattern(_) => "pattern",
            ValidatorAttr::Email => "email",
            ValidatorAttr::Url => "url",
            ValidatorAttr::Ip => "ip",
            ValidatorAttr::Uuid => "uuid",
            ValidatorAttr::Range(_, _) => "range",
            ValidatorAttr::Positive => "positive",
            ValidatorAttr::Negative => "negative",
            ValidatorAttr::NonZero => "non_zero",
            ValidatorAttr::FileExists => "file_exists",
            ValidatorAttr::DirExists => "dir_exists",
            ValidatorAttr::ParentExists => "parent_exists",
            ValidatorAttr::Extension(_) => "extension",
            ValidatorAttr::Nested => "nested",
            ValidatorAttr::Each(_) => "each",
            ValidatorAttr::Skip => "skip",
            ValidatorAttr::Custom(_) => "custom",
            ValidatorAttr::When(_, _) => "when",
        }
    }
}

/// What may stand beside `nested` on one field.
pub open spec fn nested_compatible(a: ValidatorAttrV) -> bool {
    a is Nested || a is Custom || a is When
}

/// The first position from `i` on whose validator may not stand beside `nested`.
pub open spec fn first_incompatible_from(vs: Seq<ValidatorAttrV>, i: int) -> Option<int>
    decreases vs.len() - i,
{
    if i < 0 || i >= vs.len() {
        None
    } else if !nested_compatible(vs[i]) {
        Some(i)
    } else {
        first_incompatible_from(vs, i + 1)
    }
}

pub open spec fn has_skip(vs: Seq<ValidatorAttrV>) -> bool {
    exists|i: int| 0 <= i < vs.len() && #[trigger] vs[i] is Skip
}

pub open spec fn has_nested(vs: Seq<ValidatorAttrV>) -> bool {
    exists|i: int| 0 <= i < vs.len() && #[trigger] vs[i] is Nested
}

pub open spec fn skip_combined_message() -> Seq<char> {
    "'skip' validator cannot be combined with other validators"@
}

pub open spec fn nested_combined_message(a: ValidatorAttrV) -> Seq<char> {
    "'nested' validator cannot be combined with '"@ + attr_name(a) + "' validator"@
}

/// Why the validators of one attribute may not stand together, if they may not.
pub open spec fn combination_error(vs: Seq<ValidatorAttrV>) -> Option<Seq<char>> {
    if has_skip(vs) && vs.len() > 1 {
        Some(skip_combined_message())
    } else if has_nested(vs) {
        match first_incompatible_from(vs, 0) {
            Some(i) => Some(nested_combined_message(vs[i])),
            None => None,
        }
    } else {
        None
    }
}

/// Check that a set of validators may stand together: `skip` stands alone,
/// and beside `nested` stand only `custom` and conditional validators.
pub fn validate_validator_combination(validators: &[ValidatorAttr]) -> (r: Result<(), String>)
    ensures
        match combination_error(attrs_view(validators@)) {
            Some(m) => r is Err && r->Err_0@ == m,
            None => r is Ok,
        },
{
    let ghost vs = attrs_view(validators@);
    let mut skip = false;
    let mut nested = false;
    let mut i: usize = 0;
    while i < validators.len()
        invariant
            i <= validators.len(),
            vs == attrs_view(validators@),
            skip == (exists|j: int| 0 <= j < i && #[trigger] vs[j] is Skip),
            nested == (exists|j: int| 0 <= j < i && #[trigger] vs[j] is Nested),
        decreases validators.len() - i,
    {
        assert(vs[i as int] == validators@[i as int]@);
        if validators[i].is_skip() {
            skip = true;
        }
        if validators[i].is_nested() {
            nested = true;
        }
        i = i + 1;
    }
    assert(vs.len() == validators@.len());
    assert(skip == has_skip(vs));
    assert(nested == has_nested(vs));
    if skip && validators.len() > 1 {
        return Err(crate::text::string_from("'skip' validator cannot be combined with other validators"));
    }
    if nested {
        let mut k: usize = 0;
        while k < validators.len()
            invariant
                k <= validators.len(),
                vs == attrs_view(validators@),
                first_incompatible_from(vs, 0) == first_incompatible_from(vs, k as int),
                vs.len() == validators@.len(),
                has_nested(vs),
                !(has_skip(vs) && vs.len() > 1),
            decreases validators.len() - k,
        {
            let v = &validators[k];
            assert(vs[k as int] == v@);
            match v {
                ValidatorAttr::Nested | ValidatorAttr::Custom(_) | ValidatorAttr::When(_, _) => {},
                _ => {
                    return Err(
                        concat3("'nested' validator cannot be combined with '", v.name(), "' validator"),
                    );
                },
            }
            k = k + 1;
        }
    }
    Ok(())
}

/// The names that read as a validator inside another validator's brackets.
pub open spec fn is_validator_name_spec(n: Seq<char>) -> bool {
    ||| n == "non_empty"@
    ||| n == "min_length"@
    ||| n == "max_length"@
    ||| n == "length"@
    ||| n == "pattern"@
    ||| n == "email"@
    ||| n == "url"@
    ||| n == "ip"@
    ||| n == "uuid"@
    ||| n == "range"@
    ||| n == "positive"@
    ||| n == "negative"@
    ||| n == "non_zero"@
    ||| n == "file_exists"@
    ||| n == "dir_exists"@
    ||| n == "parent_exists"@
    ||| n == "extension"@
    ||| n == "nested"@
    ||| n == "each"@
    ||| n == "skip"@
    ||| n == "custom"@
}

/// The position of a validator's kind among the kinds.
pub open spec fn attr_kind(a: ValidatorAttrV) -> int {
    match a {
        ValidatorAttrV::NonEmpty => 0,
        ValidatorAttrV::MinLength(_) => 1,
        ValidatorAttrV::MaxLength(_) => 2,
        ValidatorAttrV::Length(_, _) => 3,
        ValidatorAttrV::Pattern(_) => 4,
        ValidatorAttrV::Email => 5,
        ValidatorAttrV::Url => 6,
        ValidatorAttrV::Ip => 7,
        ValidatorAttrV::Uuid => 8,
        ValidatorAttrV::Range(_, _) => 9,
        ValidatorAttrV::Positive => 10,
        ValidatorAttrV::Negative => 11,
        ValidatorAttrV::NonZero => 12,
        ValidatorAttrV::FileExists => 13,
        ValidatorAttrV::DirExists => 14,
        ValidatorAttrV::ParentExists => 15,
        ValidatorAttrV::Extension(_) => 16,
        ValidatorAttrV::Nested => 17,
        ValidatorAttrV::Each(_) => 18,
        ValidatorAttrV::Skip => 19,
        ValidatorAttrV::Custom(_) => 20,
        ValidatorAttrV::When(_, _) => 21,
    }
}

/// A validator's name is fixed by its kind and tells the kinds apart, and
/// it reads as a validator name exactly when the validator is not
/// conditional.
pub proof fn law_name_by_kind(a: ValidatorAttrV, b: ValidatorAttrV)
    ensures
        attr_name(a) == attr_name(b) <==> attr_kind(a) == attr_kind(b),
        is_validator_name_spec(attr_name(a)) <==> !(a is When),
{
    reveal_strlit("non_empty");
    assert("non_empty"@.len() == 9 && "non_empty"@[0] == 'n' && "non_empty"@[1] == 'o');
    reveal_strlit("min_length");
    assert("min_length"@.len() == 10 && "min_length"@[0] == 'm' && "min_length"@[1] == 'i');
    reveal_strlit("max_length");
    assert("max_length"@.len() == 10 && "max_length"@[0] == 'm' && "max_length"@[1] == 'a');
    reveal_strlit("length");
    assert("length"@.len() == 6 && "length"@[0] == 'l' && "length"@[1] == 'e');
    reveal_strlit("pattern");
    assert("pattern"@.len() == 7 && "pattern"@[0] == 'p' && "pattern"@[1] == 'a');
    reveal_strlit("email");
    assert("email"@.len() == 5 && "email"@[0] == 'e' && "email"@[1] == 'm');
    reveal_strlit("url");
    assert("url"@.len() == 3 && "url"@[0] == 'u' && "url"@[1] == 'r');
    reveal_strlit("ip");
    assert("ip"@.len() == 2 && "ip"@[0] == 'i' && "ip"@[1] == 'p');
    reveal_strlit("uuid");
    assert("uuid"@.len() == 4 && "uuid"@[0] == 'u' && "uuid"@[1] == 'u');
    reveal_strlit("range");
    assert("range"@.len() == 5 && "range"@[0] == 'r' && "range"@[1] == 'a');
    reveal_strlit("positive");
    assert("positive"@.len() == 8 && "positive"@[0] == 'p' && "positive"@[1] == 'o');
    reveal_strlit("negative");
    assert("negative"@.len() == 8 && "negative"@[0] == 'n' && "negative"@[1] == 'e');
    reveal_strlit("non_zero");
    assert("non_zero"@.len() == 8 && "non_zero"@[0] == 'n' && "non_zero"@[1] == 'o');
    reveal_strlit("file_exists");
    assert("file_exists"@.len() == 11 && "file_exists"@[0] == 'f' && "file_exists"@[1] == 'i');
    reveal_strlit("dir_exists");
    assert("dir_exists"@.len() == 10 && "dir_exists"@[0] == 'd' && "dir_exists"@[1] == 'i');
    reveal_strlit("parent_exists");
    assert("parent_exists"@.len() == 13 && "parent_exists"@[0] == 'p' && "parent_exists"@[1] == 'a');
    reveal_strlit("extension");
    assert("extension"@.len() == 9 && "extension"@[0] == 'e' && "extension"@[1] == 'x');
    reveal_strlit("nested");
    assert("nested"@.len() == 6 && "nested"@[0] == 'n' && "nested"@[1] == 'e');
    reveal_strlit("each");
    assert("each"@.len() == 4 && "each"@[0] == 'e' && "each"@[1] == 'a');
    reveal_strlit("skip");
    assert("skip"@.len() == 4 && "skip"@[0] == 's' && "skip"@[1] == 'k');
    reveal_strlit("custom");
    assert("custom"@.len() == 6 && "custom"@[0] == 'c' && "custom"@[1] == 'u');
    reveal_strlit("when");
    assert("when"@.len() == 4 && "when"@[0] == 'w' && "when"@[1] == 'h');
}

/// Whether a name looks like a validator name.
pub fn is_validator_name(name: &str) -> (r: bool)
    ensures
        r == is_validator_name_spec(name@),
{
    str_eq(name, "non_empty") || str_eq(name, "min_length") || str_eq(name, "max_length")
        || str_eq(name, "length") || str_eq(name, "pattern") || str_eq(name, "email") || str_eq(
        name,
        "url",
    ) || str_eq(name, "ip") || str_eq(name, "uuid") || str_eq(name, "range") || str_eq(
        name,
        "positive",
    ) || str_eq(name, "negative") || str_eq(name, "non_zero") || str_eq(name, "file_exists")
        || str_eq(name, "dir_exists") || str_eq(name, "parent_exists") || str_eq(name, "extension")
        || str_eq(name, "nested") || str_eq(name, "each") || str_eq(name, "skip") || str_eq(
        name,
        "custom",
    )
}

/// The validator that a common misspelling was meant to name.
pub open spec fn typo_target(n: Seq<char>) -> Option<Seq<char>> {
    if n == "rang"@ {
        Some("range"@)
    } else if n == "nonempty"@ || n == "not_empty"@ {
        Some("non_empty"@)
    } else if n == "nonzero"@ || n == "not_zero"@ {
        Some("non_zero"@)
    } else if n == "minlength"@ || n == "min_len"@ {
        Some("min_length"@)
    } else if n == "maxlength"@ || n == "max_len"@ {
        Some("max_length"@)
    } else {
        None
    }
}

pub open spec fn typo_message(n: Seq<char>, s: Seq<char>) -> Seq<char> {
    "unknown validator '"@ + n + "'; did you mean '"@ + s + "'?"@
}

/// The message for a common misspelling of a validator name, if `name` is one.
pub fn check_typo_suggestion(name: &str) -> (r: Option<String>)
    ensures
        match typo_target(name@) {
            Some(s) => r is Some && r->0@ == typo_message(name@, s),
            None => r is None,
        },
{
    let suggestion: Option<&str> = if str_eq(name, "rang") {
        Some("range")
    } else if str_eq(name, "nonempty") || str_eq(name, "not_empty") {
        Some("non_empty")
    } else if str_eq(name, "nonzero") || str_eq(name, "not_zero") {
        Some("non_zero")
    } else if str_eq(name, "minlength") || str_eq(name, "min_len") {
        Some("min_length")
    } else if str_eq(name, "maxlength") || str_eq(name, "max_len") {
        Some("max_length")
    } else {
        None
    };
    match suggestion {
        Some(s) => {
            let head = concat3("unknown validator '", name, "'; did you mean '");
            Some(concat3(head.as_str(), s, "'?"))
        },
        None => None,
    }
}

} // verus!
