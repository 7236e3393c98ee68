//! Reading validators, attributes, fields and structs from the attribute
//! syntax that the derive's front end hands over.
use vstd::prelude::*;

use crate::attrs::{
    attr_view, attrs_view, combination_error, is_validator_name, is_validator_name_spec,
    typo_message, typo_target, validate_validator_combination, FieldValidation, FieldValidationV,
    MessageOverride, StructValidation, ValidatorAttr, ValidatorAttrV,
};
use crate::error::opt_text_view;
use crate::text::{
    chars_of, concat2, concat3, int_literal_value, is_digit, all_digits, parse_usize,
    parse_usize_spec, str_eq, string_from,
};

verus! {

/// A unary operator in front of an expression.
#[derive(Debug, Clone, Copy, PartialEq, Eq, Structural)]
pub enum UnaryOp {
    Neg,
    Not,
    Deref,
}

/// The expressions that a validator's brackets may hold, as far as the
/// attribute language tells them apart.
#[derive(Debug)]
pub enum AttrExpr {
    /// An integer literal: its base-10 digits, and its text as written.
    Int { digits: String, text: String },
    /// A float literal, as written.
    Float(String),
    /// A string literal's value.
    Str(String),
    Unary(UnaryOp, Box<AttrExpr>),
    Range { start: Option<Box<AttrExpr>>, end: Option<Box<AttrExpr>>, inclusive: bool },
    /// Any other expression.
    Other,
}

/// The mathematical model of an `AttrExpr`.
pub ghost enum AttrExprV {
    Int { digits: Seq<char>, text: Seq<char> },
    Float(Seq<char>),
    Str(Seq<char>),
    Unary(UnaryOp, Box<AttrExprV>),
    Range { start: Option<Box<AttrExprV>>, end: Option<Box<AttrExprV>>, inclusive: bool },
    Other,
}

pub open spec fn expr_view(e: AttrExpr) -> AttrExprV
    decreases e,
{
    match e {
        AttrExpr::Int { digits, text } => AttrExprV::Int { digits: digits@, text: text@ },
        AttrExpr::Float(t) => AttrExprV::Float(t@),
        AttrExpr::Str(s) => AttrExprV::Str(s@),
        AttrExpr::Unary(op, inner) => AttrExprV::Unary(op, Box::new(expr_view(*inner))),
        AttrExpr::Range { start, end, inclusive } => AttrExprV::Range {
            start: match start {
                Some(b) => Some(Box::new(expr_view(*b))),
                None => None,
            },
            end: match end {
                Some(b) => Some(Box::new(expr_view(*b))),
                None => None,
            },
            inclusive,
        },
        AttrExpr::Other => AttrExprV::Other,
    }
}

impl View for AttrExpr {
    type V = AttrExprV;

    open spec fn view(&self) -> AttrExprV {
        expr_view(*self)
    }
}

/// What `str::parse::<usize>` reports for text it refuses.
pub open spec fn int_error_message(s: Seq<char>) -> Seq<char> {
    if s.len() == 0 {
        "cannot parse integer from empty string"@
    } else if int_literal_value(s, false) is None {
        "invalid digit found in string"@
    } else {
        "number too large to fit in target type"@
    }
}

/// An expression read as a `usize` literal.
pub open spec fn usize_expr_spec(e: AttrExprV) -> Result<usize, Seq<char>> {
    match e {
        AttrExprV::Int { digits, .. } => match parse_usize_spec(digits) {
            Some(n) => Ok(n),
            None => Err(int_error_message(digits)),
        },
        _ => Err("expected integer literal"@),
    }
}

/// An expression read as a string literal.
pub open spec fn string_expr_spec(e: AttrExprV) -> Result<Seq<char>, Seq<char>> {
    match e {
        AttrExprV::Str(s) => Ok(s),
        _ => Err("expected string literal"@),
    }
}

/// An expression written back as numeric text.
pub open spec fn expr_text(e: AttrExprV) -> Result<Seq<char>, Seq<char>>
    decreases e,
{
    match e {
        AttrExprV::Int { text, .. } => Ok(text),
        AttrExprV::Float(t) => Ok(t),
        AttrExprV::Unary(op, inner) => match expr_text(*inner) {
            Err(m) => Err(m),
            Ok(t) => if op == UnaryOp::Neg {
                Ok("-"@ + t)
            } else {
                Err("unsupported unary operator"@)
            },
        },
        _ => Err("expected numeric literal in range"@),
    }
}

/// A range of `usize` literals, as (min, max) inclusive; an open end drops
/// one, saturating at zero.
pub open spec fn range_spec(e: AttrExprV) -> Result<(usize, usize), Seq<char>> {
    match e {
        AttrExprV::Range { start, end, inclusive } => {
            let lo: Result<usize, Seq<char>> = match start {
                Some(b) => usize_expr_spec(*b),
                None => Ok(0usize),
            };
            match lo {
                Err(m) => Err(m),
                Ok(lo) => match end {
                    None => Err("range must have an end value"@),
                    Some(b) => match usize_expr_spec(*b) {
                        Err(m) => Err(m),
                        Ok(hi) => if inclusive {
                            Ok((lo, hi))
                        } else if hi == 0 {
                            Ok((lo, 0usize))
                        } else {
                            Ok((lo, (hi - 1) as usize))
                        },
                    },
                },
            }
        },
        _ => Err("expected range expression like 1..=100"@),
    }
}

/// An inclusive range of numeric literals, as the texts of its bounds.
pub open spec fn range_strings_spec(e: AttrExprV) -> Result<(Seq<char>, Seq<char>), Seq<char>> {
    match e {
        AttrExprV::Range { start, end, inclusive } => {
            let lo: Result<Seq<char>, Seq<char>> = match start {
                Some(b) => expr_text(*b),
                None => Ok("0"@),
            };
            match lo {
                Err(m) => Err(m),
                Ok(lo) => match end {
                    None => Err("range must have an end value"@),
                    Some(b) => match expr_text(*b) {
                        Err(m) => Err(m),
                        Ok(hi) => if inclusive {
                            Ok((lo, hi))
                        } else {
                            Err("range validator requires inclusive range (..=), not half-open (..)"@)
                        },
                    },
                },
            }
        },
        _ => Err("expected range expression like 1..=65535"@),
    }
}

pub open spec fn text_result(r: Result<String, String>) -> Result<Seq<char>, Seq<char>> {
    match r {
        Ok(s) => Ok(s@),
        Err(m) => Err(m@),
    }
}

pub open spec fn err_view<T>(r: Result<T, String>) -> Seq<char> {
    match r {
        Err(m) => m@,
        Ok(_) => Seq::empty(),
    }
}

/// Whether `str::parse::<usize>` reads `s` as a number, before range checking.
fn is_unsigned_literal(s: &str) -> (r: bool)
    ensures
        r == (int_literal_value(s@, false) is Some),
{
    let v = chars_of(s);
    let start: usize = if v.len() > 0 && v[0] == '+' {
        1
    } else {
        0
    };
    if v.len() <= start {
        return false;
    }
    let mut i: usize = start;
    while i < v.len()
        invariant
            start <= i <= v.len(),
            v@ == s@,
            start == 0 || start == 1,
            (start == 1) == (s@.len() > 0 && s@[0] == '+'),
            forall|j: int| start <= j < i ==> is_digit(#[trigger] v@[j]),
        decreases v.len() - i,
    {
        if !('0' <= v[i] && v[i] <= '9') {
            proof {
                assert(!is_digit(v@[i as int]));
                if start == 1 {
                    assert(s@.drop_first()[i - 1] == v@[i as int]);
                    assert(!all_digits(s@.drop_first()));
                } else {
                    assert(s@[i as int] == v@[i as int]);
                    assert(!all_digits(s@));
                }
            }
            return false;
        }
        i = i + 1;
    }
    proof {
        if start == 1 {
            assert forall|j: int| 0 <= j < s@.drop_first().len() implies is_digit(
                #[trigger] s@.drop_first()[j],
            ) by {
                assert(s@.drop_first()[j] == v@[j + 1]);
            }
            assert(all_digits(s@.drop_first()));
        } else {
            assert(all_digits(s@));
        }
    }
    true
}

/// Read an integer literal as a `usize`.
pub fn parse_usize_expr(expr: &AttrExpr) -> (r: Result<usize, String>)
    ensures
        match usize_expr_spec(expr@) {
            Ok(n) => r == Ok::<usize, String>(n),
            Err(m) => r is Err && r->Err_0@ == m,
        },
{
    match expr {
        AttrExpr::Int { digits, .. } => match parse_usize(digits.as_str()) {
            Some(n) => Ok(n),
            None => {
                if digits.as_str().unicode_len() == 0 {
                    Err(string_from("cannot parse integer from empty string"))
                } else if !is_unsigned_literal(digits.as_str()) {
                    Err(string_from("invalid digit found in string"))
                } else {
                    Err(string_from("number too large to fit in target type"))
                }
            },
        },
        _ => Err(string_from("expected integer literal")),
    }
}

/// Read a string literal.
pub fn parse_string_expr(expr: &AttrExpr) -> (r: Result<String, String>)
    ensures
        text_result(r) == string_expr_spec(expr@),
{
    match expr {
        AttrExpr::Str(s) => Ok(s.clone()),
        _ => Err(string_from("expected string literal")),
    }
}

/// Write a numeric literal, or a negated one, back as text.
pub fn expr_to_string(expr: &AttrExpr) -> (r: Result<String, String>)
    ensures
        text_result(r) == expr_text(expr@),
    decreases expr,
{
    match expr {
        AttrExpr::Int { text, .. } => Ok(text.clone()),
        AttrExpr::Float(t) => Ok(t.clone()),
        AttrExpr::Unary(op, inner) => {
            let inner_text = match expr_to_string(inner) {
                Ok(t) => t,
                Err(m) => {
                    return Err(m);
                },
            };
            match op {
                UnaryOp::Neg => Ok(concat2("-", inner_text.as_str())),
                _ => Err(string_from("unsupported unary operator")),
            }
        },
        _ => Err(string_from("expected numeric literal in range")),
    }
}

/// Read a range of `usize` literals as (min, max), both inclusive.
pub fn parse_range_expr(expr: &AttrExpr) -> (r: Result<(usize, usize), String>)
    ensures
        match range_spec(expr@) {
            Ok(p) => r == Ok::<(usize, usize), String>(p),
            Err(m) => r is Err && r->Err_0@ == m,
        },
{
    match expr {
        AttrExpr::Range { start, end, inclusive } => {
            let lo: usize = match start {
                Some(b) => match parse_usize_expr(b) {
                    Ok(n) => n,
                    Err(m) => {
                        return Err(m);
                    },
                },
                None => 0,
            };
            let hi: usize = match end {
                Some(b) => match parse_usize_expr(b) {
                    Ok(n) => n,
                    Err(m) => {
                        return Err(m);
                    },
                },
                None => {
                    return Err(string_from("range must have an end value"));
                },
            };
            if *inclusive {
                Ok((lo, hi))
            } else {
                Ok((lo, hi.saturating_sub(1)))
            }
        },
        _ => Err(string_from("expected range expression like 1..=100")),
    }
}

/// Read an inclusive range of numeric literals as the texts of its bounds.
pub fn parse_range_strings(expr: &AttrExpr) -> (r: Result<(String, String), String>)
    ensures
        match range_strings_spec(expr@) {
            Ok(p) => r is Ok && r->Ok_0.0@ == p.0 && r->Ok_0.1@ == p.1,
            Err(m) => r is Err && r->Err_0@ == m,
        },
{
    match expr {
        AttrExpr::Range { start, end, inclusive } => {
            let lo = match start {
                Some(b) => match expr_to_string(b) {
                    Ok(t) => t,
                    Err(m) => {
                        return Err(m);
                    },
                },
                None => string_from("0"),
            };
            let hi = match end {
                Some(b) => match expr_to_string(b) {
                    Ok(t) => t,
                    Err(m) => {
                        return Err(m);
                    },
                },
                None => {
                    return Err(string_from("range must have an end value"));
                },
            };
            if *inclusive {
                Ok((lo, hi))
            } else {
                Err(
                    string_from(
                        "range validator requires inclusive range (..=), not half-open (..)",
                    ),
                )
            }
        },
        _ => Err(string_from("expected range expression like 1..=65535")),
    }
}

/// What stands in a validator's brackets.
#[derive(Debug)]
pub enum ValidatorContent {
    /// `name(expr)`
    SingleArg(AttrExpr),
    /// `name = "value"`
    NameValue(String),
    /// `name(inner)` or `name(inner(expr))`, where `inner` names a validator
    NestedValidator(String, Option<Box<ValidatorContent>>),
}

/// The mathematical model of a `ValidatorContent`.
pub ghost enum ContentV {
    SingleArg(AttrExprV),
    NameValue(Seq<char>),
    NestedValidator(Seq<char>, Option<Box<ContentV>>),
}

pub open spec fn content_view(c: ValidatorContent) -> ContentV
    decreases c,
{
    match c {
        ValidatorContent::SingleArg(e) => ContentV::SingleArg(e@),
        ValidatorContent::NameValue(s) => ContentV::NameValue(s@),
        ValidatorContent::NestedValidator(n, inner) => ContentV::NestedValidator(
            n@,
            match inner {
                Some(b) => Some(Box::new(content_view(*b))),
                None => None,
            },
        ),
    }
}

impl View for ValidatorContent {
    type V = ContentV;

    open spec fn view(&self) -> ContentV {
        content_view(*self)
    }
}

pub open spec fn opt_content_view(c: Option<ValidatorContent>) -> Option<ContentV> {
    match c {
        Some(c) => Some(c@),
        None => None,
    }
}

/// How deeply validators nest inside a content.
pub open spec fn content_depth(c: ContentV) -> nat
    decreases c,
{
    match c {
        ContentV::NestedValidator(_, Some(b)) => 2 + content_depth(*b),
        ContentV::NestedValidator(_, None) => 1,
        _ => 0,
    }
}

pub open spec fn opt_depth(c: Option<ContentV>) -> nat {
    match c {
        Some(c) => 1 + content_depth(c),
        None => 0,
    }
}

pub open spec fn unbox_content(c: Option<Box<ContentV>>) -> Option<ContentV> {
    match c {
        Some(b) => Some(*b),
        None => None,
    }
}

pub open spec fn no_arg(name: Seq<char>, content: Option<ContentV>, v: ValidatorAttrV) -> Result<
    ValidatorAttrV,
    Seq<char>,
> {
    if content is Some {
        Err(name + " takes no arguments"@)
    } else {
        Ok(v)
    }
}

pub open spec fn usize_arg(content: Option<ContentV>, msg: Seq<char>) -> Result<usize, Seq<char>> {
    match content {
        Some(ContentV::SingleArg(e)) => usize_expr_spec(e),
        _ => Err(msg),
    }
}

pub open spec fn string_arg(content: Option<ContentV>, msg: Seq<char>) -> Result<Seq<char>, Seq<char>> {
    match content {
        Some(ContentV::SingleArg(e)) => string_expr_spec(e),
        _ => Err(msg),
    }
}

pub open spec fn usize_range_arg(content: Option<ContentV>, msg: Seq<char>) -> Result<
    (usize, usize),
    Seq<char>,
> {
    match content {
        Some(ContentV::SingleArg(e)) => range_spec(e),
        _ => Err(msg),
    }
}

pub open spec fn string_range_arg(content: Option<ContentV>, msg: Seq<char>) -> Result<
    (Seq<char>, Seq<char>),
    Seq<char>,
> {
    match content {
        Some(ContentV::SingleArg(e)) => range_strings_spec(e),
        _ => Err(msg),
    }
}

pub open spec fn unknown_validator_message(name: Seq<char>) -> Seq<char> {
    match typo_target(name) {
        Some(s) => typo_message(name, s),
        None => "unknown validator '"@ + name + "'"@,
    }
}

/// A validator, read from its name and what stands in its brackets.
pub open spec fn parse_validator_spec(name: Seq<char>, content: Option<ContentV>) -> Result<
    ValidatorAttrV,
    Seq<char>,
>
    decreases opt_depth(content),
{
    if name == "each"@ {
        match content {
            Some(ContentV::NestedValidator(inner, ic)) => {
                match parse_validator_spec(inner, unbox_content(ic)) {
                    Ok(v) => Ok(ValidatorAttrV::Each(Box::new(v))),
                    Err(m) => Err(m),
                }
            },
            _ => Err("each requires a validator argument like each(non_empty)"@),
        }
    } else if name == "non_empty"@ {
        no_arg(name, content, ValidatorAttrV::NonEmpty)
    } else if name == "email"@ {
        no_arg(name, content, ValidatorAttrV::Email)
    } else if name == "url"@ {
        no_arg(name, content, ValidatorAttrV::Url)
    } else if name == "ip"@ {
        no_arg(name, content, ValidatorAttrV::Ip)
    } else if name == "uuid"@ {
        no_arg(name, content, ValidatorAttrV::Uuid)
    } else if name == "positive"@ {
        no_arg(name, content, ValidatorAttrV::Positive)
    } else if name == "negative"@ {
        no_arg(name, content, ValidatorAttrV::Negative)
    } else if name == "non_zero"@ {
        no_arg(name, content, ValidatorAttrV::NonZero)
    } else if name == "file_exists"@ {
        no_arg(name, content, ValidatorAttrV::FileExists)
    } else if name == "dir_exists"@ {
        no_arg(name, content, ValidatorAttrV::DirExists)
    } else if name == "parent_exists"@ {
        no_arg(name, content, ValidatorAttrV::ParentExists)
    } else if name == "nested"@ {
        no_arg(name, content, ValidatorAttrV::Nested)
    } else if name == "skip"@ {
        no_arg(name, content, ValidatorAttrV::Skip)
    } else if name == "min_length"@ {
        match usize_arg(content, "min_length requires a single integer argument"@) {
            Ok(n) => Ok(ValidatorAttrV::MinLength(n)),
            Err(m) => Err(m),
        }
    } else if name == "max_length"@ {
        match usize_arg(content, "max_length requires a single integer argument"@) {
            Ok(n) => Ok(ValidatorAttrV::MaxLength(n)),
            Err(m) => Err(m),
        }
    } else if name == "pattern"@ {
        match string_arg(content, "pattern requires a string argument"@) {
            Ok(p) => Ok(ValidatorAttrV::Pattern(p)),
            Err(m) => Err(m),
        }
    } else if name == "extension"@ {
        match string_arg(content, "extension requires a string argument"@) {
            Ok(p) => Ok(ValidatorAttrV::Extension(p)),
            Err(m) => Err(m),
        }
    } else if name == "length"@ {
        match usize_range_arg(content, "length requires a range argument like 3..=100"@) {
            Ok((lo, hi)) => Ok(ValidatorAttrV::Length(lo, hi)),
            Err(m) => Err(m),
        }
    } else if name == "range"@ {
        match string_range_arg(content, "range requires a range argument like 1..=65535"@) {
            Ok((lo, hi)) => Ok(ValidatorAttrV::Range(lo, hi)),
            Err(m) => Err(m),
        }
    } else if name == "custom"@ {
        match content {
            Some(ContentV::NameValue(f)) => Ok(ValidatorAttrV::Custom(f)),
            _ => Err("custom requires a function name like custom = \"validate_fn\""@),
        }
    } else {
        Err(unknown_validator_message(name))
    }
}

pub open spec fn attr_result(r: Result<ValidatorAttr, String>) -> Result<ValidatorAttrV, Seq<char>> {
    match r {
        Ok(v) => Ok(v@),
        Err(m) => Err(m@),
    }
}

fn no_arg_validator(name: &str, content: &Option<ValidatorContent>, v: ValidatorAttr) -> (r: Result<
    ValidatorAttr,
    String,
>)
    ensures
        attr_result(r) == no_arg(name@, opt_content_view(*content), v@),
{
    if content.is_some() {
        Err(concat2(name, " takes no arguments"))
    } else {
        Ok(v)
    }
}

fn usize_argument(content: &Option<ValidatorContent>, msg: &str) -> (r: Result<usize, String>)
    ensures
        match usize_arg(opt_content_view(*content), msg@) {
            Ok(n) => r == Ok::<usize, String>(n),
            Err(m) => r is Err && r->Err_0@ == m,
        },
{
    match content {
        Some(ValidatorContent::SingleArg(e)) => parse_usize_expr(e),
        _ => Err(string_from(msg)),
    }
}

fn string_argument(content: &Option<ValidatorContent>, msg: &str) -> (r: Result<String, String>)
    ensures
        text_result(r) == string_arg(opt_content_view(*content), msg@),
{
    match content {
        Some(ValidatorContent::SingleArg(e)) => parse_string_expr(e),
        _ => Err(string_from(msg)),
    }
}

/// Read a single validator from its name and the content of its brackets.
pub fn parse_validator(name: &str, content: &Option<ValidatorContent>) -> (r: Result<
    ValidatorAttr,
    String,
>)
    ensures
        attr_result(r) == parse_validator_spec(name@, opt_content_view(*content)),
    decreases opt_depth(opt_content_view(*content)),
{
    let ghost c = opt_content_view(*content);
    if str_eq(name, "each") {
        return match content {
            Some(ValidatorContent::NestedValidator(inner_name, inner_content)) => {
                let inner_opt: Option<ValidatorContent> = match inner_content {
                    Some(b) => Some(clone_content(b)),
                    None => None,
                };
                proof {
                    assert(opt_content_view(inner_opt) == unbox_content(
                        match c { Some(ContentV::NestedValidator(_, ic)) => ic, _ => None },
                    ));
                }
                match parse_validator(inner_name.as_str(), &inner_opt) {
                    Ok(v) => Ok(ValidatorAttr::Each(Box::new(v))),
                    Err(m) => Err(m),
                }
            },
            _ => Err(string_from("each requires a validator argument like each(non_empty)")),
        };
    }
    if str_eq(name, "non_empty") {
        no_arg_validator(name, content, ValidatorAttr::NonEmpty)
    } else if str_eq(name, "email") {
        no_arg_validator(name, content, ValidatorAttr::Email)
    } else if str_eq(name, "url") {
        no_arg_validator(name, content, ValidatorAttr::Url)
    } else if str_eq(name, "ip") {
        no_arg_validator(name, content, ValidatorAttr::Ip)
    } else if str_eq(name, "uuid") {
        no_arg_validator(name, content, ValidatorAttr::Uuid)
    } else if str_eq(name, "positive") {
        no_arg_validator(name, content, ValidatorAttr::Positive)
    } else if str_eq(name, "negative") {
        no_arg_validator(name, content, ValidatorAttr::Negative)
    } else if str_eq(name, "non_zero") {
        no_arg_validator(name, content, ValidatorAttr::NonZero)
    } else if str_eq(name, "file_exists") {
        no_arg_validator(name, content, ValidatorAttr::FileExists)
    } else if str_eq(name, "dir_exists") {
        no_arg_validator(name, content, ValidatorAttr::DirExists)
    } else if str_eq(name, "parent_exists") {
        no_arg_validator(name, content, ValidatorAttr::ParentExists)
    } else if str_eq(name, "nested") {
        no_arg_validator(name, content, ValidatorAttr::Nested)
    } else if str_eq(name, "skip") {
        no_arg_validator(name, content, ValidatorAttr::Skip)
    } else if str_eq(name, "min_length") {
        match usize_argument(content, "min_length requires a single integer argument") {
            Ok(n) => Ok(ValidatorAttr::MinLength(n)),
            Err(m) => Err(m),
        }
    } else if str_eq(name, "max_length") {
        match usize_argument(content, "max_length requires a single integer argument") {
            Ok(n) => Ok(ValidatorAttr::MaxLength(n)),
            Err(m) => Err(m),
        }
    } else if str_eq(name, "pattern") {
        match string_argument(content, "pattern requires a string argument") {
            Ok(p) => Ok(ValidatorAttr::Pattern(p)),
            Err(m) => Err(m),
        }
    } else if str_eq(name, "extension") {
        match string_argument(content, "extension requires a string argument") {
            Ok(p) => Ok(ValidatorAttr::Extension(p)),
            Err(m) => Err(m),
        }
    } else if str_eq(name, "length") {
        match content {
            Some(ValidatorContent::SingleArg(e)) => match parse_range_expr(e) {
                Ok((lo, hi)) => Ok(ValidatorAttr::Length(lo, hi)),
                Err(m) => Err(m),
            },
            _ => Err(string_from("length requires a range argument like 3..=100")),
        }
    } else if str_eq(name, "range") {
        match content {
            Some(ValidatorContent::SingleArg(e)) => match parse_range_strings(e) {
                Ok((lo, hi)) => Ok(ValidatorAttr::Range(lo, hi)),
                Err(m) => Err(m),
            },
            _ => Err(string_from("range requires a range argument like 1..=65535")),
        }
    } else if str_eq(name, "custom") {
        match content {
            Some(ValidatorContent::NameValue(f)) => Ok(ValidatorAttr::Custom(f.clone())),
            _ => Err(string_from("custom requires a function name like custom = \"validate_fn\"")),
        }
    } else {
        match crate::attrs::check_typo_suggestion(name) {
            Some(m) => Err(m),
            None => Err(concat3("unknown validator '", name, "'")),
        }
    }
}

/// A copy of a content.
pub fn clone_content(c: &ValidatorContent) -> (r: ValidatorContent)
    ensures
        r@ == c@,
    decreases c,
{
    match c {
        ValidatorContent::SingleArg(e) => ValidatorContent::SingleArg(clone_expr(e)),
        ValidatorContent::NameValue(s) => ValidatorContent::NameValue(s.clone()),
        ValidatorContent::NestedValidator(n, inner) => ValidatorContent::NestedValidator(
            n.clone(),
            match inner {
                Some(b) => Some(Box::new(clone_content(b))),
                None => None,
            },
        ),
    }
}

/// A copy of an expression.
pub fn clone_expr(e: &AttrExpr) -> (r: AttrExpr)
    ensures
        r@ == e@,
    decreases e,
{
    match e {
        AttrExpr::Int { digits, text } => AttrExpr::Int { digits: digits.clone(), text: text.clone() },
        AttrExpr::Float(t) => AttrExpr::Float(t.clone()),
        AttrExpr::Str(s) => AttrExpr::Str(s.clone()),
        AttrExpr::Unary(op, inner) => AttrExpr::Unary(*op, Box::new(clone_expr(inner))),
        AttrExpr::Range { start, end, inclusive } => AttrExpr::Range {
            start: match start {
                Some(b) => Some(Box::new(clone_expr(b))),
                None => None,
            },
            end: match end {
                Some(b) => Some(Box::new(clone_expr(b))),
                None => None,
            },
            inclusive: *inclusive,
        },
        AttrExpr::Other => AttrExpr::Other,
    }
}

/// A single item within `#[validate(...)]`.
#[derive(Debug)]
pub enum ValidateItem {
    Validator { name: String, content: Option<ValidatorContent> },
    Message(String),
    When(String),
}

/// The mathematical model of a `ValidateItem`.
pub ghost enum ItemV {
    Validator { name: Seq<char>, content: Option<ContentV> },
    Message(Seq<char>),
    When(Seq<char>),
}

impl View for ValidateItem {
    type V = ItemV;

    open spec fn view(&self) -> ItemV {
        match *self {
            ValidateItem::Validator { name, content } => ItemV::Validator {
                name: name@,
                content: opt_content_view(content),
            },
            ValidateItem::Message(m) => ItemV::Message(m@),
            ValidateItem::When(c) => ItemV::When(c@),
        }
    }
}

pub open spec fn items_view(s: Seq<ValidateItem>) -> Seq<ItemV> {
    s.map_values(|i: ValidateItem| i@)
}

/// The shape of one item inside `#[validate(...)]`, as its tokens read.
#[derive(Debug)]
pub enum ItemSyntax {
    /// `name`
    Bare(String),
    /// `name = "value"`
    Assign(String, String),
    /// `name(inner)` or `name(inner(expr))`, where `inner` is an identifier
    /// followed by neither `..` nor `=`
    CallIdent(String, String, Option<AttrExpr>),
    /// `name(expr)`, any other content
    CallExpr(String, AttrExpr),
}

/// The mathematical model of an `ItemSyntax`.
pub ghost enum ItemSyntaxV {
    Bare(Seq<char>),
    Assign(Seq<char>, Seq<char>),
    CallIdent(Seq<char>, Seq<char>, Option<AttrExprV>),
    CallExpr(Seq<char>, AttrExprV),
}

impl View for ItemSyntax {
    type V = ItemSyntaxV;

    open spec fn view(&self) -> ItemSyntaxV {
        match *self {
            ItemSyntax::Bare(n) => ItemSyntaxV::Bare(n@),
            ItemSyntax::Assign(n, v) => ItemSyntaxV::Assign(n@, v@),
            ItemSyntax::CallIdent(n, i, a) => ItemSyntaxV::CallIdent(
                n@,
                i@,
                match a {
                    Some(e) => Some(e@),
                    None => None,
                },
            ),
            ItemSyntax::CallExpr(n, e) => ItemSyntaxV::CallExpr(n@, e@),
        }
    }
}

/// The item that a piece of attribute syntax stands for.
pub open spec fn read_item_spec(s: ItemSyntaxV) -> Result<ItemV, Seq<char>> {
    match s {
        ItemSyntaxV::Bare(n) => Ok(ItemV::Validator { name: n, content: None }),
        ItemSyntaxV::Assign(n, v) => if n == "message"@ {
            Ok(ItemV::Message(v))
        } else if n == "when"@ {
            Ok(ItemV::When(v))
        } else if n == "custom"@ {
            Ok(ItemV::Validator { name: n, content: Some(ContentV::NameValue(v)) })
        } else {
            Err("unexpected = syntax for '"@ + n + "'"@)
        },
        ItemSyntaxV::CallIdent(n, inner, arg) => if is_validator_name_spec(inner) {
            Ok(
                ItemV::Validator {
                    name: n,
                    content: Some(
                        ContentV::NestedValidator(
                            inner,
                            match arg {
                                Some(e) => Some(Box::new(ContentV::SingleArg(e))),
                                None => None,
                            },
                        ),
                    ),
                },
            )
        } else {
            Ok(ItemV::Validator { name: n, content: Some(ContentV::SingleArg(AttrExprV::Other)) })
        },
        ItemSyntaxV::CallExpr(n, e) => Ok(
            ItemV::Validator { name: n, content: Some(ContentV::SingleArg(e)) },
        ),
    }
}

pub open spec fn item_result(r: Result<ValidateItem, String>) -> Result<ItemV, Seq<char>> {
    match r {
        Ok(i) => Ok(i@),
        Err(m) => Err(m@),
    }
}

impl ValidateItem {
    /// Read one item from its syntax: `name = "value"` is a message, a
    /// condition or a custom function; brackets around a validator's name
    /// nest that validator; any other bracketed content is an argument.
    pub fn parse(syntax: ItemSyntax) -> (r: Result<ValidateItem, String>)
        ensures
            item_result(r) == read_item_spec(syntax@),
    {
        match syntax {
            ItemSyntax::Bare(n) => Ok(ValidateItem::Validator { name: n, content: None }),
            ItemSyntax::Assign(n, v) => {
                if str_eq(n.as_str(), "message") {
                    Ok(ValidateItem::Message(v))
                } else if str_eq(n.as_str(), "when") {
                    Ok(ValidateItem::When(v))
                } else if str_eq(n.as_str(), "custom") {
                    Ok(
                        ValidateItem::Validator {
                            name: n,
                            content: Some(ValidatorContent::NameValue(v)),
                        },
                    )
                } else {
                    Err(concat3("unexpected = syntax for '", n.as_str(), "'"))
                }
            },
            ItemSyntax::CallIdent(n, inner, arg) => {
                if is_validator_name(inner.as_str()) {
                    let inner_content = match arg {
                        Some(e) => Some(Box::new(ValidatorContent::SingleArg(e))),
                        None => None,
                    };
                    proof {
                        reveal_with_fuel(content_view, 2);
                    }
                    Ok(
                        ValidateItem::Validator {
                            name: n,
                            content: Some(ValidatorContent::NestedValidator(inner, inner_content)),
                        },
                    )
                } else {
                    Ok(
                        ValidateItem::Validator {
                            name: n,
                            content: Some(ValidatorContent::SingleArg(AttrExpr::Other)),
                        },
                    )
                }
            },
            ItemSyntax::CallExpr(n, e) => Ok(
                ValidateItem::Validator { name: n, content: Some(ValidatorContent::SingleArg(e)) },
            ),
        }
    }
}

/// The validators and message override of one `#[validate(...)]`
/// attribute, read item by item from `acc`, `msg` and `when`: a `when`
/// condition guards every validator that follows it.
pub open spec fn attr_fold(
    items: Seq<ItemV>,
    acc: Seq<ValidatorAttrV>,
    msg: Option<Seq<char>>,
    when: Option<Seq<char>>,
) -> Result<(Seq<ValidatorAttrV>, Option<Seq<char>>), Seq<char>>
    decreases items.len(),
{
    if items.len() == 0 {
        Ok((acc, msg))
    } else {
        match items[0] {
            ItemV::Validator { name, content } => match parse_validator_spec(name, content) {
                Err(m) => Err(m),
                Ok(v) => attr_fold(
                    items.drop_first(),
                    acc.push(
                        match when {
                            Some(c) => ValidatorAttrV::When(c, Box::new(v)),
                            None => v,
                        },
                    ),
                    msg,
                    when,
                ),
            },
            ItemV::Message(m) => attr_fold(items.drop_first(), acc, Some(m), when),
            ItemV::When(c) => attr_fold(items.drop_first(), acc, msg, Some(c)),
        }
    }
}

pub open spec fn parse_validate_attr_spec(items: Seq<ItemV>) -> Result<
    (Seq<ValidatorAttrV>, Option<Seq<char>>),
    Seq<char>,
> {
    attr_fold(items, Seq::empty(), None, None)
}

/// Read a `#[validate(...)]` attribute into validators and an optional message.
pub fn parse_validate_attr(items: &[ValidateItem]) -> (r: Result<
    (Vec<ValidatorAttr>, MessageOverride),
    String,
>)
    ensures
        match parse_validate_attr_spec(items_view(items@)) {
            Ok((vs, m)) => r is Ok && attrs_view(r->Ok_0.0@) == vs && opt_text_view(
                r->Ok_0.1.0,
            ) == m,
            Err(e) => r is Err && r->Err_0@ == e,
        },
{
    let ghost iv = items_view(items@);
    let mut validators: Vec<ValidatorAttr> = Vec::new();
    let mut message: Option<String> = None;
    let mut when_condition: Option<String> = None;
    let mut i: usize = 0;
    assert(iv.skip(0) =~= iv);
    assert(attrs_view(validators@) =~= Seq::<ValidatorAttrV>::empty());
    while i < items.len()
        invariant
            i <= items.len(),
            iv == items_view(items@),
            iv.len() == items@.len(),
            parse_validate_attr_spec(iv) == attr_fold(
                iv.skip(i as int),
                attrs_view(validators@),
                opt_text_view(message),
                opt_text_view(when_condition),
            ),
        decreases items.len() - i,
    {
        let ghost rest = iv.skip(i as int);
        assert(rest[0] == items@[i as int]@);
        assert(rest.drop_first() =~= iv.skip(i + 1));
        match &items[i] {
            ValidateItem::Validator { name, content } => {
                let v = match parse_validator(name.as_str(), content) {
                    Ok(v) => v,
                    Err(m) => {
                        return Err(m);
                    },
                };
                let pushed = match &when_condition {
                    Some(c) => ValidatorAttr::When(c.clone(), Box::new(v)),
                    None => v,
                };
                let ghost before = validators@;
                validators.push(pushed);
                assert(attrs_view(validators@) =~= attrs_view(before).push(pushed@));
            },
            ValidateItem::Message(m) => {
                message = Some(m.clone());
            },
            ValidateItem::When(c) => {
                when_condition = Some(c.clone());
            },
        }
        i = i + 1;
    }
    assert(iv.skip(i as int) =~= Seq::<ItemV>::empty());
    Ok((validators, MessageOverride(message)))
}

pub open spec fn struct_fold(items: Seq<ItemV>, f: Option<Seq<char>>) -> Result<
    Option<Seq<char>>,
    Seq<char>,
>
    decreases items.len(),
{
    if items.len() == 0 {
        Ok(f)
    } else {
        match items[0] {
            ItemV::Validator { name, content } => if name == "custom"@ {
                match content {
                    Some(ContentV::NameValue(v)) => struct_fold(items.drop_first(), Some(v)),
                    _ => Err("struct-level custom requires = \"fn_name\" syntax"@),
                }
            } else {
                Err("unknown struct-level validator '"@ + name + "'; only 'custom' is supported"@)
            },
            ItemV::Message(_) => Err("message is not supported at struct level"@),
            ItemV::When(_) => Err("when is not supported at struct level"@),
        }
    }
}

/// Read a struct-level `#[validate(custom = "fn_name")]` attribute.
pub fn parse_struct_validate_attr(items: &[ValidateItem]) -> (r: Result<StructValidation, String>)
    ensures
        match struct_fold(items_view(items@), None) {
            Ok(f) => r is Ok && opt_text_view(r->Ok_0.custom_fn) == f,
            Err(e) => r is Err && r->Err_0@ == e,
        },
{
    let ghost iv = items_view(items@);
    let mut custom_fn: Option<String> = None;
    let mut i: usize = 0;
    assert(iv.skip(0) =~= iv);
    while i < items.len()
        invariant
            i <= items.len(),
            iv == items_view(items@),
            iv.len() == items@.len(),
            struct_fold(iv, None) == struct_fold(iv.skip(i as int), opt_text_view(custom_fn)),
        decreases items.len() - i,
    {
        let ghost rest = iv.skip(i as int);
        assert(rest[0] == items@[i as int]@);
        assert(rest.drop_first() =~= iv.skip(i + 1));
        match &items[i] {
            ValidateItem::Validator { name, content } => {
                if str_eq(name.as_str(), "custom") {
                    match content {
                        Some(ValidatorContent::NameValue(f)) => {
                            custom_fn = Some(f.clone());
                        },
                        _ => {
                            return Err(
                                string_from("struct-level custom requires = \"fn_name\" syntax"),
                            );
                        },
                    }
                } else {
                    return Err(
                        concat3(
                            "unknown struct-level validator '",
                            name.as_str(),
                            "'; only 'custom' is supported",
                        ),
                    );
                }
            },
            ValidateItem::Message(_) => {
                return Err(string_from("message is not supported at struct level"));
            },
            ValidateItem::When(_) => {
                return Err(string_from("when is not supported at struct level"));
            },
        }
        i = i + 1;
    }
    assert(iv.skip(i as int) =~= Seq::<ItemV>::empty());
    Ok(StructValidation { custom_fn })
}

/// An attribute on a field or a struct, as far as the derive reads it.
#[derive(Debug)]
pub enum Attr {
    /// `#[sensitive]`
    Sensitive,
    /// `#[validate(...)]`, with its items
    Validate(Vec<ValidateItem>),
    /// any other attribute
    Other,
}

/// The mathematical model of an `Attr`.
pub ghost enum AttrV {
    Sensitive,
    Validate(Seq<ItemV>),
    Other,
}

impl View for Attr {
    type V = AttrV;

    open spec fn view(&self) -> AttrV {
        match *self {
            Attr::Sensitive => AttrV::Sensitive,
            Attr::Validate(items) => AttrV::Validate(items_view(items@)),
            Attr::Other => AttrV::Other,
        }
    }
}

pub open spec fn field_attrs_view(s: Seq<Attr>) -> Seq<AttrV> {
    s.map_values(|a: Attr| a@)
}

/// The validators and message of a field, read attribute by attribute; the
/// last message given wins.
pub open spec fn field_fold(
    attrs: Seq<AttrV>,
    acc: Seq<ValidatorAttrV>,
    msg: Option<Seq<char>>,
) -> Result<(Seq<ValidatorAttrV>, Option<Seq<char>>), Seq<char>>
    decreases attrs.len(),
{
    if attrs.len() == 0 {
        Ok((acc, msg))
    } else {
        match attrs[0] {
            AttrV::Validate(items) => match parse_validate_attr_spec(items) {
                Err(e) => Err(e),
                Ok((vs, m)) => match combination_error(vs) {
                    Some(e) => Err(e),
                    None => field_fold(
                        attrs.drop_first(),
                        acc + vs,
                        if m is Some {
                            m
                        } else {
                            msg
                        },
                    ),
                },
            },
            _ => field_fold(attrs.drop_first(), acc, msg),
        }
    }
}

pub open spec fn field_validation_spec(attrs: Seq<AttrV>) -> Result<FieldValidationV, Seq<char>> {
    match field_fold(attrs, Seq::empty(), None) {
        Err(e) => Err(e),
        Ok((vs, m)) => Ok(
            FieldValidationV {
                validators: vs,
                message: m,
                sensitive: exists|i: int| 0 <= i < attrs.len() && #[trigger] attrs[i] is Sensitive,
            },
        ),
    }
}

/// Read the validation of one field from its attributes: `#[sensitive]`
/// marks it, and each `#[validate(...)]` adds validators that must be
/// allowed to stand together.
pub fn field_validation(attrs: &[Attr]) -> (r: Result<FieldValidation, String>)
    ensures
        match field_validation_spec(field_attrs_view(attrs@)) {
            Ok(fv) => r is Ok && r->Ok_0@ == fv,
            Err(e) => r is Err && r->Err_0@ == e,
        },
{
    let ghost av = field_attrs_view(attrs@);
    let mut sensitive = false;
    let mut j: usize = 0;
    while j < attrs.len()
        invariant
            j <= attrs.len(),
            av == field_attrs_view(attrs@),
            sensitive == (exists|k: int| 0 <= k < j && #[trigger] av[k] is Sensitive),
        decreases attrs.len() - j,
    {
        assert(av[j as int] == attrs@[j as int]@);
        if let Attr::Sensitive = &attrs[j] {
            sensitive = true;
        }
        j = j + 1;
    }
    let mut validators: Vec<ValidatorAttr> = Vec::new();
    let mut message: Option<String> = None;
    let mut i: usize = 0;
    assert(av.skip(0) =~= av);
    assert(attrs_view(validators@) =~= Seq::<ValidatorAttrV>::empty());
    while i < attrs.len()
        invariant
            i <= attrs.len(),
            av == field_attrs_view(attrs@),
            av.len() == attrs@.len(),
            field_fold(av, Seq::empty(), None) == field_fold(
                av.skip(i as int),
                attrs_view(validators@),
                opt_text_view(message),
            ),
        decreases attrs.len() - i,
    {
        let ghost rest = av.skip(i as int);
        assert(rest[0] == attrs@[i as int]@);
        assert(rest.drop_first() =~= av.skip(i + 1));
        if let Attr::Validate(items) = &attrs[i] {
            let (mut vs, m) = match parse_validate_attr(items.as_slice()) {
                Ok(p) => p,
                Err(e) => {
                    return Err(e);
                },
            };
            match validate_validator_combination(vs.as_slice()) {
                Ok(()) => {},
                Err(e) => {
                    return Err(e);
                },
            }
            let ghost before = validators@;
            let ghost added = vs@;
            validators.append(&mut vs);
            assert(attrs_view(validators@) =~= attrs_view(before) + attrs_view(added));
            if m.0.is_some() {
                message = m.0;
            }
        }
        i = i + 1;
    }
    assert(av.skip(i as int) =~= Seq::<AttrV>::empty());
    Ok(FieldValidation { validators, message: MessageOverride(message), sensitive })
}

/// The struct-level function named by a struct's attributes; the last one
/// given wins.
pub open spec fn struct_attrs_fold(attrs: Seq<AttrV>, f: Option<Seq<char>>) -> Result<
    Option<Seq<char>>,
    Seq<char>,
>
    decreases attrs.len(),
{
    if attrs.len() == 0 {
        Ok(f)
    } else {
        match attrs[0] {
            AttrV::Validate(items) => match struct_fold(items, None) {
                Err(e) => Err(e),
                Ok(p) => struct_attrs_fold(
                    attrs.drop_first(),
                    if p is Some {
                        p
                    } else {
                        f
                    },
                ),
            },
            _ => struct_attrs_fold(attrs.drop_first(), f),
        }
    }
}

/// Read the struct-level `#[validate(...)]` attributes.
pub fn parse_struct_attrs(attrs: &[Attr]) -> (r: Result<StructValidation, String>)
    ensures
        match struct_attrs_fold(field_attrs_view(attrs@), None) {
            Ok(f) => r is Ok && opt_text_view(r->Ok_0.custom_fn) == f,
            Err(e) => r is Err && r->Err_0@ == e,
        },
{
    let ghost av = field_attrs_view(attrs@);
    let mut custom_fn: Option<String> = None;
    let mut i: usize = 0;
    assert(av.skip(0) =~= av);
    while i < attrs.len()
        invariant
            i <= attrs.len(),
            av == field_attrs_view(attrs@),
            av.len() == attrs@.len(),
            struct_attrs_fold(av, None) == struct_attrs_fold(
                av.skip(i as int),
                opt_text_view(custom_fn),
            ),
        decreases attrs.len() - i,
    {
        let ghost rest = av.skip(i as int);
        assert(rest[0] == attrs@[i as int]@);
        assert(rest.drop_first() =~= av.skip(i + 1));
        if let Attr::Validate(items) = &attrs[i] {
            let parsed = match parse_struct_validate_attr(items.as_slice()) {
                Ok(p) => p,
                Err(e) => {
                    return Err(e);
                },
            };
            if parsed.custom_fn.is_some() {
                custom_fn = parsed.custom_fn;
            }
        }
        i = i + 1;
    }
    assert(av.skip(i as int) =~= Seq::<AttrV>::empty());
    Ok(StructValidation { custom_fn })
}

/// The fields of the type the derive is applied to.
#[derive(Debug)]
pub enum FieldsShape {
    /// Named fields, each with its attributes.
    Named(Vec<(String, Vec<Attr>)>),
    Unnamed,
    Unit,
}

/// The type the derive is applied to.
#[derive(Debug)]
pub enum DeriveShape {
    Struct { attrs: Vec<Attr>, fields: FieldsShape },
    Enum,
    Union,
}

pub open spec fn named_view(s: Seq<(String, Vec<Attr>)>) -> Seq<(Seq<char>, Seq<AttrV>)> {
    s.map_values(|p: (String, Vec<Attr>)| (p.0@, field_attrs_view(p.1@)))
}

pub open spec fn named_fold(
    fields: Seq<(Seq<char>, Seq<AttrV>)>,
    acc: Seq<(Seq<char>, FieldValidationV)>,
) -> Result<Seq<(Seq<char>, FieldValidationV)>, Seq<char>>
    decreases fields.len(),
{
    if fields.len() == 0 {
        Ok(acc)
    } else {
        match field_validation_spec(fields[0].1) {
            Err(e) => Err(e),
            Ok(fv) => named_fold(fields.drop_first(), acc.push((fields[0].0, fv))),
        }
    }
}

/// What the derive makes of a type: its struct-level function, and the
/// validation of each named field in order.
pub open spec fn derive_spec(d: DeriveShape) -> Result<
    (Option<Seq<char>>, Seq<(Seq<char>, FieldValidationV)>),
    Seq<char>,
> {
    match d {
        DeriveShape::Enum => Err("Validate can only be derived for structs, not enums"@),
        DeriveShape::Union => Err("Validate can only be derived for structs, not unions"@),
        DeriveShape::Struct { attrs, fields } => match struct_attrs_fold(
            field_attrs_view(attrs@),
            None,
        ) {
            Err(e) => Err(e),
            Ok(f) => match fields {
                FieldsShape::Named(fs) => match named_fold(named_view(fs@), Seq::empty()) {
                    Err(e) => Err(e),
                    Ok(v) => Ok((f, v)),
                },
                FieldsShape::Unnamed => Err(
                    "Validate does not support tuple structs; use named fields"@,
                ),
                FieldsShape::Unit => Ok((f, Seq::empty())),
            },
        },
    }
}

pub open spec fn planned_view(s: Seq<(String, FieldValidation)>) -> Seq<
    (Seq<char>, FieldValidationV),
> {
    s.map_values(|p: (String, FieldValidation)| (p.0@, p.1@))
}

/// Check the type a `Validate` derive is applied to and read all its
/// validation attributes: the struct-level function, then each named field.
pub fn derive_validate(input: &DeriveShape) -> (r: Result<
    (StructValidation, Vec<(String, FieldValidation)>),
    String,
>)
    ensures
        match derive_spec(*input) {
            Ok((f, fields)) => r is Ok && opt_text_view(r->Ok_0.0.custom_fn) == f && planned_view(
                r->Ok_0.1@,
            ) == fields,
            Err(e) => r is Err && r->Err_0@ == e,
        },
{
    match input {
        DeriveShape::Enum => Err(string_from("Validate can only be derived for structs, not enums")),
        DeriveShape::Union => Err(
            string_from("Validate can only be derived for structs, not unions"),
        ),
        DeriveShape::Struct { attrs, fields } => {
            let sv = match parse_struct_attrs(attrs.as_slice()) {
                Ok(sv) => sv,
                Err(e) => {
                    return Err(e);
                },
            };
            match fields {
                FieldsShape::Named(fs) => {
                    let ghost nv = named_view(fs@);
                    let mut out: Vec<(String, FieldValidation)> = Vec::new();
                    let mut i: usize = 0;
                    assert(nv.skip(0) =~= nv);
                    assert(planned_view(out@) =~= Seq::<(Seq<char>, FieldValidationV)>::empty());
                    assert(derive_spec(*input) == match named_fold(nv, Seq::empty()) {
                        Err(e) => Err(e),
                        Ok(v) => Ok((opt_text_view(sv.custom_fn), v)),
                    });
                    while i < fs.len()
                        invariant
                            i <= fs.len(),
                            derive_spec(*input) == match named_fold(nv, Seq::empty()) {
                                Err(e) => Err(e),
                                Ok(v) => Ok((opt_text_view(sv.custom_fn), v)),
                            },
                            nv == named_view(fs@),
                            nv.len() == fs@.len(),
                            named_fold(nv, Seq::empty()) == named_fold(
                                nv.skip(i as int),
                                planned_view(out@),
                            ),
                        decreases fs.len() - i,
                    {
                        let ghost rest = nv.skip(i as int);
                        assert(rest[0] == (fs@[i as int].0@, field_attrs_view(fs@[i as int].1@)));
                        assert(rest.drop_first() =~= nv.skip(i + 1));
                        let fv = match field_validation(fs[i].1.as_slice()) {
                            Ok(fv) => fv,
                            Err(e) => {
                                return Err(e);
                            },
                        };
                        let ghost before = out@;
                        let entry = (fs[i].0.clone(), fv);
                        out.push(entry);
                        assert(planned_view(out@) =~= planned_view(before).push((entry.0@, entry.1@)));
                        i = i + 1;
                    }
                    assert(nv.skip(i as int) =~= Seq::<(Seq<char>, Seq<AttrV>)>::empty());
                    Ok((sv, out))
                },
                FieldsShape::Unnamed => Err(
                    string_from("Validate does not support tuple structs; use named fields"),
                ),
                FieldsShape::Unit => {
                    let out: Vec<(String, FieldValidation)> = Vec::new();
                    assert(planned_view(out@) =~= Seq::<(Seq<char>, FieldValidationV)>::empty());
                    Ok((sv, out))
                },
            }
        },
    }
}

/// A validator read from a name is reported under that name, and only the
/// names that read as validators inside brackets read as validators at all.
pub proof fn law_parsed_validator_keeps_name(name: Seq<char>, content: Option<ContentV>)
    requires
        parse_validator_spec(name, content) is Ok,
    ensures
        crate::attrs::attr_name(parse_validator_spec(name, content)->Ok_0) == name,
        is_validator_name_spec(name),
{
}

} // verus!
