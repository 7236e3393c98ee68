//! Built-in validators: strings, numbers, collections and file extensions.
use vstd::prelude::*;

use core::ops::RangeInclusive;

use crate::error::{opt_text_view, ConfigError, ConfigErrorV, ConfigValidation, Validation};
use crate::text::{
    concat2, concat3, int_decimal, i64_to_string, i128_to_string, u128_to_string, nat_decimal, string_from, u64_to_string,
    usize_to_string, IntoText,
};
use crate::validate::{all_errors, check_error, combine_results, errors_of, fail_check, Validator};

use vstd::string::StringSliceAdditionalSpecFns;

verus! {

// ---------------------------------------------------------------------------
// Trusted calls
// ---------------------------------------------------------------------------

/// The lower bound of an inclusive range (as `RangeInclusive::start` gives it
/// before the range was iterated to its end).
pub assume_specification<Idx>[ RangeInclusive::<Idx>::start ](r: &RangeInclusive<Idx>) -> (ret:
    &Idx)
    ensures
        !r@.exhausted ==> *ret == r@.start,
;

/// The upper bound of an inclusive range (as `RangeInclusive::end` gives it
/// before the range was iterated to its end).
pub assume_specification<Idx>[ RangeInclusive::<Idx>::end ](r: &RangeInclusive<Idx>) -> (ret:
    &Idx)
    ensures
        !r@.exhausted ==> *ret == r@.end,
;

/// What `regex::Regex::new` reports for a pattern: `None` when it compiles,
/// otherwise the text of its error.
pub uninterp spec fn regex_error_spec(pattern: Seq<char>) -> Option<Seq<char>>;

/// Whether `regex::Regex::is_match` finds a match of the (compiled) pattern
/// in the text.
pub uninterp spec fn regex_match_spec(pattern: Seq<char>, text: Seq<char>) -> bool;

/// What `std::path::Path::extension` gives for a path (its text).
pub uninterp spec fn path_extension_spec(path: Seq<char>) -> Option<Seq<char>>;

/// Compiles the pattern with `regex::Regex::new`; the error's text, if it
/// fails. The result is named `regex_error_spec` of the pattern.
#[verifier::external_body]
fn regex_compile_error(pattern: &str) -> (r: Option<String>)
    ensures
        opt_text_view(r) == regex_error_spec(pattern@),
{
    match regex::Regex::new(pattern) {
        Ok(_) => None,
        Err(e) => Some(e.to_string()),
    }
}

/// Compiles the pattern and runs `regex::Regex::is_match` on the text; for a
/// pattern that compiles the result is named `regex_match_spec`. Nothing is
/// said of a pattern that does not compile (the body then gives `false`).
#[verifier::external_body]
fn regex_is_match(pattern: &str, text: &str) -> (r: bool)
    ensures
        regex_error_spec(pattern@) is None ==> r == regex_match_spec(pattern@, text@),
{
    match regex::Regex::new(pattern) {
        Ok(re) => re.is_match(text),
        Err(_) => false,
    }
}

/// Calls `std::path::Path::extension` on the path; the result is named
/// `path_extension_spec`.
#[verifier::external_body]
fn path_extension(path: &str) -> (r: Option<String>)
    ensures
        opt_text_view(r) == path_extension_spec(path@),
{
    std::path::Path::new(path).extension().map(|e| e.to_string_lossy().into_owned())
}

/// Length of a text in UTF-8 bytes (what `str::len` counts).
pub open spec fn byte_len(s: Seq<char>) -> int {
    vstd::utf8::encode_utf8(s).len() as int
}

/// The outcome of a single check: success when it holds, otherwise the one
/// validation error.
pub open spec fn check_outcome(
    holds: bool,
    path: Seq<char>,
    value: Option<Seq<char>>,
    message: Seq<char>,
) -> Seq<ConfigErrorV> {
    if holds {
        Seq::empty()
    } else {
        seq![check_error(path, value, message)]
    }
}

// ---------------------------------------------------------------------------
// String validators
// ---------------------------------------------------------------------------

/// The string must not be empty.
#[derive(Debug, Clone, Copy)]
pub struct NonEmpty;

impl Validator<str> for NonEmpty {
    open spec fn gives(&self, value: &str, path: Seq<char>, r: ConfigValidation<()>) -> bool {
        &&& errors_of(r) == check_outcome(
            value@.len() > 0,
            path,
            Some(Seq::empty()),
            "value cannot be empty"@,
        )
    }

    fn validate(&self, value: &str, path: &str) -> (r: ConfigValidation<()>)
    {
        if value.is_empty() {
            let r = fail_check(path, Some(String::new()), string_from("value cannot be empty"));
            r
        } else {
            Validation::Success(())
        }
    }
}

impl Validator<String> for NonEmpty {
    open spec fn gives(&self, value: &String, path: Seq<char>, r: ConfigValidation<()>) -> bool {
        &&& errors_of(r) == check_outcome(
            value@.len() > 0,
            path,
            Some(Seq::empty()),
            "value cannot be empty"@,
        )
    }

    fn validate(&self, value: &String, path: &str) -> (r: ConfigValidation<()>)
    {
        <NonEmpty as Validator<str>>::validate(self, value.as_str(), path)
    }
}

/// Message for a string shorter than the minimum (lengths in bytes).
pub open spec fn min_length_message(len: int, min: int) -> Seq<char> {
    "length "@ + nat_decimal(len as nat) + " is less than minimum "@ + nat_decimal(min as nat)
}

/// The string must have at least this many bytes.
#[derive(Debug, Clone, Copy)]
pub struct MinLength(pub usize);

impl Validator<str> for MinLength {
    open spec fn gives(&self, value: &str, path: Seq<char>, r: ConfigValidation<()>) -> bool {
        &&& errors_of(r) == check_outcome(
            byte_len(value@) >= self.0,
            path,
            Some(value@),
            min_length_message(byte_len(value@) as int, self.0 as int),
        )
    }

    fn validate(&self, value: &str, path: &str) -> (r: ConfigValidation<()>)
    {
        let len = value.as_bytes().len();
        if len < self.0 {
            let mut m = concat3("length ", usize_to_string(len).as_str(), " is less than minimum ");
            m.append(usize_to_string(self.0).as_str());
            fail_check(path, Some(string_from(value)), m)
        } else {
            Validation::Success(())
        }
    }
}

impl Validator<String> for MinLength {
    open spec fn gives(&self, value: &String, path: Seq<char>, r: ConfigValidation<()>) -> bool {
        &&& errors_of(r) == check_outcome(
            byte_len(value@) >= self.0,
            path,
            Some(value@),
            min_length_message(byte_len(value@) as int, self.0 as int),
        )
    }

    fn validate(&self, value: &String, path: &str) -> (r: ConfigValidation<()>)
    {
        <MinLength as Validator<str>>::validate(self, value.as_str(), path)
    }
}

/// Message for a string longer than the maximum (lengths in bytes).
pub open spec fn max_length_message(len: int, max: int) -> Seq<char> {
    "length "@ + nat_decimal(len as nat) + " exceeds maximum "@ + nat_decimal(max as nat)
}

/// The string must have at most this many bytes.
#[derive(Debug, Clone, Copy)]
pub struct MaxLength(pub usize);

impl Validator<str> for MaxLength {
    open spec fn gives(&self, value: &str, path: Seq<char>, r: ConfigValidation<()>) -> bool {
        &&& errors_of(r) == check_outcome(
            byte_len(value@) <= self.0,
            path,
            Some(value@),
            max_length_message(byte_len(value@) as int, self.0 as int),
        )
    }

    fn validate(&self, value: &str, path: &str) -> (r: ConfigValidation<()>)
    {
        let len = value.as_bytes().len();
        if len > self.0 {
            let mut m = concat3("length ", usize_to_string(len).as_str(), " exceeds maximum ");
            m.append(usize_to_string(self.0).as_str());
            fail_check(path, Some(string_from(value)), m)
        } else {
            Validation::Success(())
        }
    }
}

impl Validator<String> for MaxLength {
    open spec fn gives(&self, value: &String, path: Seq<char>, r: ConfigValidation<()>) -> bool {
        &&& errors_of(r) == check_outcome(
            byte_len(value@) <= self.0,
            path,
            Some(value@),
            max_length_message(byte_len(value@) as int, self.0 as int),
        )
    }

    fn validate(&self, value: &String, path: &str) -> (r: ConfigValidation<()>)
    {
        <MaxLength as Validator<str>>::validate(self, value.as_str(), path)
    }
}

/// Message for a length outside a range.
pub open spec fn length_range_message(len: int, start: int, end: int) -> Seq<char> {
    "length "@ + nat_decimal(len as nat) + " is not in range "@ + nat_decimal(start as nat)
        + "..="@ + nat_decimal(end as nat)
}

/// The string's length in bytes must lie in the range.
#[derive(Debug)]
pub struct Length(pub RangeInclusive<usize>);

impl Validator<str> for Length {
    open spec fn gives(&self, value: &str, path: Seq<char>, r: ConfigValidation<()>) -> bool {
        &&& !self.0@.exhausted ==> errors_of(r) == check_outcome(
            self.0@.start <= byte_len(value@) <= self.0@.end,
            path,
            Some(value@),
            length_range_message(
                byte_len(value@) as int,
                self.0@.start as int,
                self.0@.end as int,
            ),
        )
    }

    /// For a range that was not iterated to its end.
    fn validate(&self, value: &str, path: &str) -> (r: ConfigValidation<()>)
    {
        let len = value.as_bytes().len();
        let start = *self.0.start();
        let end = *self.0.end();
        if !(start <= len && len <= end) {
            let mut m = concat3("length ", usize_to_string(len).as_str(), " is not in range ");
            m.append(usize_to_string(start).as_str());
            m.append("..=");
            m.append(usize_to_string(end).as_str());
            fail_check(path, Some(string_from(value)), m)
        } else {
            Validation::Success(())
        }
    }
}

impl Validator<String> for Length {
    open spec fn gives(&self, value: &String, path: Seq<char>, r: ConfigValidation<()>) -> bool {
        &&& !self.0@.exhausted ==> errors_of(r) == check_outcome(
            self.0@.start <= byte_len(value@) <= self.0@.end,
            path,
            Some(value@),
            length_range_message(
                byte_len(value@) as int,
                self.0@.start as int,
                self.0@.end as int,
            ),
        )
    }

    fn validate(&self, value: &String, path: &str) -> (r: ConfigValidation<()>)
    {
        <Length as Validator<str>>::validate(self, value.as_str(), path)
    }
}

/// The string must match a regular expression.
#[derive(Debug, Clone)]
pub struct Pattern(pub String);

impl Pattern {
    pub fn new<S: IntoText>(pattern: S) -> (r: Self)
        ensures
            r.0@ == pattern.text_view(),
    {
        Pattern(pattern.into_text())
    }
}

/// The errors of a pattern check: an invalid pattern is reported as such.
pub open spec fn pattern_outcome(pattern: Seq<char>, value: Seq<char>, path: Seq<char>) -> Seq<
    ConfigErrorV,
> {
    match regex_error_spec(pattern) {
        Some(e) => seq![
            check_error(path, Some(value), "invalid pattern '"@ + pattern + "': "@ + e),
        ],
        None => check_outcome(
            regex_match_spec(pattern, value),
            path,
            Some(value),
            "value does not match pattern '"@ + pattern + "'"@,
        ),
    }
}

impl Validator<str> for Pattern {
    open spec fn gives(&self, value: &str, path: Seq<char>, r: ConfigValidation<()>) -> bool {
        &&& errors_of(r) == pattern_outcome(self.0@, value@, path)
    }

    fn validate(&self, value: &str, path: &str) -> (r: ConfigValidation<()>)
    {
        match regex_compile_error(self.0.as_str()) {
            None => {
                if regex_is_match(self.0.as_str(), value) {
                    Validation::Success(())
                } else {
                    let mut m = concat3("value does not match pattern '", self.0.as_str(), "'");
                    fail_check(path, Some(string_from(value)), m)
                }
            },
            Some(e) => {
                let mut m = concat3("invalid pattern '", self.0.as_str(), "': ");
                m.append(e.as_str());
                fail_check(path, Some(string_from(value)), m)
            },
        }
    }
}

impl Validator<String> for Pattern {
    open spec fn gives(&self, value: &String, path: Seq<char>, r: ConfigValidation<()>) -> bool {
        &&& errors_of(r) == pattern_outcome(self.0@, value@, path)
    }

    fn validate(&self, value: &String, path: &str) -> (r: ConfigValidation<()>)
    {
        <Pattern as Validator<str>>::validate(self, value.as_str(), path)
    }
}

/// The pattern an email address must match.
pub const EMAIL_PATTERN: &'static str = "^[a-zA-Z0-9._%+-]+@[a-zA-Z0-9.-]+\\.[a-zA-Z]{2,}$";

/// The pattern a URL must match.
pub const URL_PATTERN: &'static str = "^(https?|ftp)://[^\\s/$.?#].[^\\s]*$";

/// The string must look like an email address.
#[derive(Debug, Clone, Copy)]
pub struct Email;

impl Validator<str> for Email {
    open spec fn gives(&self, value: &str, path: Seq<char>, r: ConfigValidation<()>) -> bool {
        &&& regex_error_spec(EMAIL_PATTERN@) is None ==> errors_of(r) == check_outcome(
            regex_match_spec(EMAIL_PATTERN@, value@),
            path,
            Some(value@),
            "value is not a valid email address"@,
        )
    }

    /// Given that the built-in pattern compiles.
    fn validate(&self, value: &str, path: &str) -> (r: ConfigValidation<()>)
    {
        if regex_is_match(EMAIL_PATTERN, value) {
            Validation::Success(())
        } else {
            fail_check(path, Some(string_from(value)), string_from("value is not a valid email address"))
        }
    }
}

impl Validator<String> for Email {
    open spec fn gives(&self, value: &String, path: Seq<char>, r: ConfigValidation<()>) -> bool {
        &&& regex_error_spec(EMAIL_PATTERN@) is None ==> errors_of(r) == check_outcome(
            regex_match_spec(EMAIL_PATTERN@, value@),
            path,
            Some(value@),
            "value is not a valid email address"@,
        )
    }

    fn validate(&self, value: &String, path: &str) -> (r: ConfigValidation<()>)
    {
        <Email as Validator<str>>::validate(self, value.as_str(), path)
    }
}

/// The string must look like an http, https or ftp URL.
#[derive(Debug, Clone, Copy)]
pub struct Url;

impl Validator<str> for Url {
    open spec fn gives(&self, value: &str, path: Seq<char>, r: ConfigValidation<()>) -> bool {
        &&& regex_error_spec(URL_PATTERN@) is None ==> errors_of(r) == check_outcome(
            regex_match_spec(URL_PATTERN@, value@),
            path,
            Some(value@),
            "value is not a valid URL"@,
        )
    }

    /// Given that the built-in pattern compiles.
    fn validate(&self, value: &str, path: &str) -> (r: ConfigValidation<()>)
    {
        if regex_is_match(URL_PATTERN, value) {
            Validation::Success(())
        } else {
            fail_check(path, Some(string_from(value)), string_from("value is not a valid URL"))
        }
    }
}

impl Validator<String> for Url {
    open spec fn gives(&self, value: &String, path: Seq<char>, r: ConfigValidation<()>) -> bool {
        &&& regex_error_spec(URL_PATTERN@) is None ==> errors_of(r) == check_outcome(
            regex_match_spec(URL_PATTERN@, value@),
            path,
            Some(value@),
            "value is not a valid URL"@,
        )
    }

    fn validate(&self, value: &String, path: &str) -> (r: ConfigValidation<()>)
    {
        <Url as Validator<str>>::validate(self, value.as_str(), path)
    }
}

// ---------------------------------------------------------------------------
// Numeric validators
// ---------------------------------------------------------------------------

/// Integers that the numeric validators check: their value, order and
/// decimal text.
pub trait IntValue {
    spec fn int_of(&self) -> int;

    fn int_le(&self, other: &Self) -> (r: bool)
        ensures
            r == (self.int_of() <= other.int_of()),
    ;

    /// -1, 0 or 1 by the sign of the value.
    fn int_sign(&self) -> (r: i8)
        ensures
            r == (if self.int_of() > 0 {
                1i8
            } else if self.int_of() < 0 {
                -1i8
            } else {
                0i8
            }),
    ;

    /// The value as `Display` writes it.
    fn decimal(&self) -> (r: String)
        ensures
            r@ == int_decimal(self.int_of()),
    ;
}

/// Signed integers (the only ones that can be negative).
pub trait SignedIntValue: IntValue {

}

impl IntValue for i8 {
    open spec fn int_of(&self) -> int {
        *self as int
    }

    fn int_le(&self, other: &Self) -> (r: bool) {
        *self <= *other
    }

    fn int_sign(&self) -> (r: i8) {
        if *self > 0 {
            1
        } else if *self < 0 {
            -1
        } else {
            0
        }
    }

    fn decimal(&self) -> (r: String) {
        i64_to_string(*self as i64)
    }
}

impl SignedIntValue for i8 {

}

impl IntValue for i16 {
    open spec fn int_of(&self) -> int {
        *self as int
    }

    fn int_le(&self, other: &Self) -> (r: bool) {
        *self <= *other
    }

    fn int_sign(&self) -> (r: i8) {
        if *self > 0 {
            1
        } else if *self < 0 {
            -1
        } else {
            0
        }
    }

    fn decimal(&self) -> (r: String) {
        i64_to_string(*self as i64)
    }
}

impl SignedIntValue for i16 {

}

impl IntValue for i32 {
    open spec fn int_of(&self) -> int {
        *self as int
    }

    fn int_le(&self, other: &Self) -> (r: bool) {
        *self <= *other
    }

    fn int_sign(&self) -> (r: i8) {
        if *self > 0 {
            1
        } else if *self < 0 {
            -1
        } else {
            0
        }
    }

    fn decimal(&self) -> (r: String) {
        i64_to_string(*self as i64)
    }
}

impl SignedIntValue for i32 {

}

impl IntValue for i64 {
    open spec fn int_of(&self) -> int {
        *self as int
    }

    fn int_le(&self, other: &Self) -> (r: bool) {
        *self <= *other
    }

    fn int_sign(&self) -> (r: i8) {
        if *self > 0 {
            1
        } else if *self < 0 {
            -1
        } else {
            0
        }
    }

    fn decimal(&self) -> (r: String) {
        i64_to_string(*self)
    }
}

impl SignedIntValue for i64 {

}

impl IntValue for isize {
    open spec fn int_of(&self) -> int {
        *self as int
    }

    fn int_le(&self, other: &Self) -> (r: bool) {
        *self <= *other
    }

    fn int_sign(&self) -> (r: i8) {
        if *self > 0 {
            1
        } else if *self < 0 {
            -1
        } else {
            0
        }
    }

    fn decimal(&self) -> (r: String) {
        i64_to_string(*self as i64)
    }
}

impl SignedIntValue for isize {

}

impl IntValue for u8 {
    open spec fn int_of(&self) -> int {
        *self as int
    }

    fn int_le(&self, other: &Self) -> (r: bool) {
        *self <= *other
    }

    fn int_sign(&self) -> (r: i8) {
        if *self > 0 {
            1
        } else {
            0
        }
    }

    fn decimal(&self) -> (r: String) {
        u64_to_string(*self as u64)
    }
}

impl IntValue for u16 {
    open spec fn int_of(&self) -> int {
        *self as int
    }

    fn int_le(&self, other: &Self) -> (r: bool) {
        *self <= *other
    }

    fn int_sign(&self) -> (r: i8) {
        if *self > 0 {
            1
        } else {
            0
        }
    }

    fn decimal(&self) -> (r: String) {
        u64_to_string(*self as u64)
    }
}

impl IntValue for u32 {
    open spec fn int_of(&self) -> int {
        *self as int
    }

    fn int_le(&self, other: &Self) -> (r: bool) {
        *self <= *other
    }

    fn int_sign(&self) -> (r: i8) {
        if *self > 0 {
            1
        } else {
            0
        }
    }

    fn decimal(&self) -> (r: String) {
        u64_to_string(*self as u64)
    }
}

impl IntValue for u64 {
    open spec fn int_of(&self) -> int {
        *self as int
    }

    fn int_le(&self, other: &Self) -> (r: bool) {
        *self <= *other
    }

    fn int_sign(&self) -> (r: i8) {
        if *self > 0 {
            1
        } else {
            0
        }
    }

    fn decimal(&self) -> (r: String) {
        u64_to_string(*self)
    }
}

impl IntValue for i128 {
    open spec fn int_of(&self) -> int {
        *self as int
    }

    fn int_le(&self, other: &Self) -> (r: bool) {
        *self <= *other
    }

    fn int_sign(&self) -> (r: i8) {
        if *self > 0 {
            1
        } else if *self < 0 {
            -1
        } else {
            0
        }
    }

    fn decimal(&self) -> (r: String) {
        i128_to_string(*self)
    }
}

impl SignedIntValue for i128 {

}

impl IntValue for u128 {
    open spec fn int_of(&self) -> int {
        *self as int
    }

    fn int_le(&self, other: &Self) -> (r: bool) {
        *self <= *other
    }

    fn int_sign(&self) -> (r: i8) {
        if *self > 0 {
            1
        } else {
            0
        }
    }

    fn decimal(&self) -> (r: String) {
        u128_to_string(*self)
    }
}

impl IntValue for usize {
    open spec fn int_of(&self) -> int {
        *self as int
    }

    fn int_le(&self, other: &Self) -> (r: bool) {
        *self <= *other
    }

    fn int_sign(&self) -> (r: i8) {
        if *self > 0 {
            1
        } else {
            0
        }
    }

    fn decimal(&self) -> (r: String) {
        usize_to_string(*self)
    }
}

/// Message for a value outside a range.
pub open spec fn range_message(v: int, start: int, end: int) -> Seq<char> {
    "value "@ + int_decimal(v) + " is not in range "@ + int_decimal(start) + "..="@ + int_decimal(
        end,
    )
}

/// The value must lie in the inclusive range.
#[derive(Debug)]
pub struct Range<T>(pub RangeInclusive<T>);

impl<T: IntValue> Validator<T> for Range<T> {
    open spec fn gives(&self, value: &T, path: Seq<char>, r: ConfigValidation<()>) -> bool {
        &&& !self.0@.exhausted ==> errors_of(r) == check_outcome(
            self.0@.start.int_of() <= value.int_of() <= self.0@.end.int_of(),
            path,
            Some(int_decimal(value.int_of())),
            range_message(value.int_of(), self.0@.start.int_of(), self.0@.end.int_of()),
        )
    }

    /// For a range that was not iterated to its end.
    fn validate(&self, value: &T, path: &str) -> (r: ConfigValidation<()>)
    {
        let start = self.0.start();
        let end = self.0.end();
        if !(start.int_le(value) && value.int_le(end)) {
            let mut m = concat3("value ", value.decimal().as_str(), " is not in range ");
            m.append(start.decimal().as_str());
            m.append("..=");
            m.append(end.decimal().as_str());
            fail_check(path, Some(value.decimal()), m)
        } else {
            Validation::Success(())
        }
    }
}

/// The range validator's bounds are both inclusive: on a range not iterated
/// to its end, it gives no error exactly when the value lies between the
/// start and the end, the end included, and otherwise the one error that
/// names the value and the range.
pub proof fn law_range_inclusive<T: IntValue>(
    rg: Range<T>,
    v: T,
    path: Seq<char>,
    r: ConfigValidation<()>,
)
    requires
        !rg.0@.exhausted,
        rg.gives(&v, path, r),
    ensures
        errors_of(r).len() == 0 <==> rg.0@.start.int_of() <= v.int_of() <= rg.0@.end.int_of(),
        v.int_of() == rg.0@.end.int_of() && rg.0@.start.int_of() <= rg.0@.end.int_of()
            ==> errors_of(r).len() == 0,
        !(rg.0@.start.int_of() <= v.int_of() <= rg.0@.end.int_of()) ==> errors_of(r) == seq![
            check_error(
                path,
                Some(int_decimal(v.int_of())),
                range_message(v.int_of(), rg.0@.start.int_of(), rg.0@.end.int_of()),
            ),
        ],
{
}

/// The value must be greater than zero.
#[derive(Debug, Clone, Copy)]
pub struct Positive;

impl<T: IntValue> Validator<T> for Positive {
    open spec fn gives(&self, value: &T, path: Seq<char>, r: ConfigValidation<()>) -> bool {
        &&& errors_of(r) == check_outcome(
            value.int_of() > 0,
            path,
            Some(int_decimal(value.int_of())),
            "value must be positive"@,
        )
    }

    fn validate(&self, value: &T, path: &str) -> (r: ConfigValidation<()>)
    {
        if value.int_sign() > 0 {
            Validation::Success(())
        } else {
            fail_check(path, Some(value.decimal()), string_from("value must be positive"))
        }
    }
}

/// The value must be less than zero.
#[derive(Debug, Clone, Copy)]
pub struct Negative;

impl<T: SignedIntValue> Validator<T> for Negative {
    open spec fn gives(&self, value: &T, path: Seq<char>, r: ConfigValidation<()>) -> bool {
        &&& errors_of(r) == check_outcome(
            value.int_of() < 0,
            path,
            Some(int_decimal(value.int_of())),
            "value must be negative"@,
        )
    }

    fn validate(&self, value: &T, path: &str) -> (r: ConfigValidation<()>)
    {
        if value.int_sign() < 0 {
            Validation::Success(())
        } else {
            fail_check(path, Some(value.decimal()), string_from("value must be negative"))
        }
    }
}

/// The value must not be zero.
#[derive(Debug, Clone, Copy)]
pub struct NonZero;

impl<T: IntValue> Validator<T> for NonZero {
    open spec fn gives(&self, value: &T, path: Seq<char>, r: ConfigValidation<()>) -> bool {
        &&& errors_of(r) == check_outcome(
            value.int_of() != 0,
            path,
            Some(int_decimal(value.int_of())),
            "value cannot be zero"@,
        )
    }

    fn validate(&self, value: &T, path: &str) -> (r: ConfigValidation<()>)
    {
        if value.int_sign() != 0 {
            Validation::Success(())
        } else {
            fail_check(path, Some(value.decimal()), string_from("value cannot be zero"))
        }
    }
}

// ---------------------------------------------------------------------------
// Collection validators
// ---------------------------------------------------------------------------

fn empty_collection_failure(path: &str) -> (r: ConfigValidation<()>)
    ensures
        errors_of(r) == seq![check_error(path@, Some("[]"@), "collection cannot be empty"@)],
{
    fail_check(path, Some(string_from("[]")), string_from("collection cannot be empty"))
}

/// The collection must not be empty.
#[derive(Debug, Clone, Copy)]
pub struct NonEmptyCollection;

impl<T> Validator<Vec<T>> for NonEmptyCollection {
    open spec fn gives(&self, value: &Vec<T>, path: Seq<char>, r: ConfigValidation<()>) -> bool {
        &&& errors_of(r) == check_outcome(
            value@.len() > 0,
            path,
            Some("[]"@),
            "collection cannot be empty"@,
        )
    }

    fn validate(&self, value: &Vec<T>, path: &str) -> (r: ConfigValidation<()>)
    {
        if value.len() == 0 {
            empty_collection_failure(path)
        } else {
            Validation::Success(())
        }
    }
}

impl<T> Validator<[T]> for NonEmptyCollection {
    open spec fn gives(&self, value: &[T], path: Seq<char>, r: ConfigValidation<()>) -> bool {
        &&& errors_of(r) == check_outcome(
            value@.len() > 0,
            path,
            Some("[]"@),
            "collection cannot be empty"@,
        )
    }

    fn validate(&self, value: &[T], path: &str) -> (r: ConfigValidation<()>)
    {
        if value.len() == 0 {
            empty_collection_failure(path)
        } else {
            Validation::Success(())
        }
    }
}

/// `[n items]`
pub open spec fn items_text(n: int) -> Seq<char> {
    "["@ + nat_decimal(n as nat) + " items]"@
}

pub open spec fn items_message(n: int, bound: int, minimum: bool) -> Seq<char> {
    "collection has "@ + nat_decimal(n as nat) + if minimum {
        " items, minimum is "@
    } else {
        " items, maximum is "@
    } + nat_decimal(bound as nat)
}

fn items_failure(path: &str, n: usize, bound: usize, minimum: bool) -> (r: ConfigValidation<()>)
    ensures
        errors_of(r) == seq![
            check_error(
                path@,
                Some(items_text(n as int)),
                items_message(n as int, bound as int, minimum),
            ),
        ],
{
    let count = usize_to_string(n);
    let v = concat3("[", count.as_str(), " items]");
    let mut m = concat3(
        "collection has ",
        count.as_str(),
        if minimum {
            " items, minimum is "
        } else {
            " items, maximum is "
        },
    );
    m.append(usize_to_string(bound).as_str());
    fail_check(path, Some(v), m)
}

/// The collection must have at least this many items.
#[derive(Debug, Clone, Copy)]
pub struct MinItems(pub usize);

impl<T> Validator<Vec<T>> for MinItems {
    open spec fn gives(&self, value: &Vec<T>, path: Seq<char>, r: ConfigValidation<()>) -> bool {
        &&& errors_of(r) == check_outcome(
            value@.len() >= self.0,
            path,
            Some(items_text(value@.len() as int)),
            items_message(value@.len() as int, self.0 as int, true),
        )
    }

    fn validate(&self, value: &Vec<T>, path: &str) -> (r: ConfigValidation<()>)
    {
        if value.len() < self.0 {
            items_failure(path, value.len(), self.0, true)
        } else {
            Validation::Success(())
        }
    }
}

impl<T> Validator<[T]> for MinItems {
    open spec fn gives(&self, value: &[T], path: Seq<char>, r: ConfigValidation<()>) -> bool {
        &&& errors_of(r) == check_outcome(
            value@.len() >= self.0,
            path,
            Some(items_text(value@.len() as int)),
            items_message(value@.len() as int, self.0 as int, true),
        )
    }

    fn validate(&self, value: &[T], path: &str) -> (r: ConfigValidation<()>)
    {
        if value.len() < self.0 {
            items_failure(path, value.len(), self.0, true)
        } else {
            Validation::Success(())
        }
    }
}

/// The collection must have at most this many items.
#[derive(Debug, Clone, Copy)]
pub struct MaxItems(pub usize);

impl<T> Validator<Vec<T>> for MaxItems {
    open spec fn gives(&self, value: &Vec<T>, path: Seq<char>, r: ConfigValidation<()>) -> bool {
        &&& errors_of(r) == check_outcome(
            value@.len() <= self.0,
            path,
            Some(items_text(value@.len() as int)),
            items_message(value@.len() as int, self.0 as int, false),
        )
    }

    fn validate(&self, value: &Vec<T>, path: &str) -> (r: ConfigValidation<()>)
    {
        if value.len() > self.0 {
            items_failure(path, value.len(), self.0, false)
        } else {
            Validation::Success(())
        }
    }
}

impl<T> Validator<[T]> for MaxItems {
    open spec fn gives(&self, value: &[T], path: Seq<char>, r: ConfigValidation<()>) -> bool {
        &&& errors_of(r) == check_outcome(
            value@.len() <= self.0,
            path,
            Some(items_text(value@.len() as int)),
            items_message(value@.len() as int, self.0 as int, false),
        )
    }

    fn validate(&self, value: &[T], path: &str) -> (r: ConfigValidation<()>)
    {
        if value.len() > self.0 {
            items_failure(path, value.len(), self.0, false)
        } else {
            Validation::Success(())
        }
    }
}

/// The path of item `i` of the collection at `path`: `path[i]`.
pub open spec fn item_path(path: Seq<char>, i: int) -> Seq<char> {
    path + "["@ + nat_decimal(i as nat) + "]"@
}

fn item_path_exec(path: &str, i: usize) -> (r: String)
    ensures
        r@ == item_path(path@, i as int),
{
    let mut r = concat3(path, "[", usize_to_string(i).as_str());
    r.append("]");
    r
}

/// Every item must pass the inner validator (at `path[i]`).
#[derive(Debug, Clone)]
pub struct Each<V>(pub V);

/// The outcome of checking every element with `v`: each element's outcome
/// at its indexed path, their errors accumulated in order.
pub open spec fn each_gives<V: Validator<T>, T>(
    v: V,
    items: Seq<T>,
    path: Seq<char>,
    r: ConfigValidation<()>,
) -> bool {
    exists|outs: Seq<ConfigValidation<()>>|
        {
            &&& outs.len() == items.len()
            &&& forall|i: int|
                0 <= i < items.len() ==> v.gives(&items[i], item_path(path, i), #[trigger] outs[i])
            &&& errors_of(r) == all_errors(outs)
        }
}

impl<V: Validator<T>, T> Validator<Vec<T>> for Each<V> {
    open spec fn gives(&self, value: &Vec<T>, path: Seq<char>, r: ConfigValidation<()>) -> bool {
        each_gives(self.0, value@, path, r)
    }

    fn validate(&self, value: &Vec<T>, path: &str) -> (r: ConfigValidation<()>) {
        <Each<V> as Validator<[T]>>::validate(self, value.as_slice(), path)
    }
}

impl<V: Validator<T>, T> Validator<[T]> for Each<V> {
    open spec fn gives(&self, value: &[T], path: Seq<char>, r: ConfigValidation<()>) -> bool {
        each_gives(self.0, value@, path, r)
    }

    fn validate(&self, value: &[T], path: &str) -> (r: ConfigValidation<()>) {
        let mut results: Vec<ConfigValidation<()>> = Vec::new();
        let mut i: usize = 0;
        while i < value.len()
            invariant
                i <= value@.len(),
                results@.len() == i,
                forall|j: int|
                    0 <= j < i ==> self.0.gives(&value@[j], item_path(path@, j), #[trigger] results@[j]),
            decreases value@.len() - i,
        {
            let p = item_path_exec(path, i);
            let out = self.0.validate(&value[i], p.as_str());
            results.push(out);
            i = i + 1;
        }
        let ghost outs = results@;
        let r = combine_results(results);
        assert(errors_of(r) == all_errors(outs));
        r
    }
}

// ---------------------------------------------------------------------------
// File extensions
// ---------------------------------------------------------------------------

/// The errors of an extension check.
pub open spec fn extension_outcome(expected: Seq<char>, value: Seq<char>, path: Seq<char>) -> Seq<
    ConfigErrorV,
> {
    match path_extension_spec(value) {
        Some(ext) => check_outcome(
            ext == expected,
            path,
            Some(value),
            "expected extension '"@ + expected + "', found '"@ + ext + "'"@,
        ),
        None => seq![
            check_error(
                path,
                Some(value),
                "expected extension '"@ + expected + "', found none"@,
            ),
        ],
    }
}

/// The path must have this extension.
#[derive(Debug, Clone)]
pub struct Extension(pub String);

impl Extension {
    pub fn new<S: IntoText>(ext: S) -> (r: Self)
        ensures
            r.0@ == ext.text_view(),
    {
        Extension(ext.into_text())
    }
}

impl Validator<str> for Extension {
    open spec fn gives(&self, value: &str, path: Seq<char>, r: ConfigValidation<()>) -> bool {
        &&& errors_of(r) == extension_outcome(self.0@, value@, path)
    }

    fn validate(&self, value: &str, path: &str) -> (r: ConfigValidation<()>)
    {
        match path_extension(value) {
            Some(ext) => {
                if crate::text::str_eq(ext.as_str(), self.0.as_str()) {
                    Validation::Success(())
                } else {
                    let mut m = concat3("expected extension '", self.0.as_str(), "', found '");
                    m.append(ext.as_str());
                    m.append("'");
                    fail_check(path, Some(string_from(value)), m)
                }
            },
            None => {
                let m = concat3("expected extension '", self.0.as_str(), "', found none");
                fail_check(path, Some(string_from(value)), m)
            },
        }
    }
}

impl Validator<String> for Extension {
    open spec fn gives(&self, value: &String, path: Seq<char>, r: ConfigValidation<()>) -> bool {
        &&& errors_of(r) == extension_outcome(self.0@, value@, path)
    }

    fn validate(&self, value: &String, path: &str) -> (r: ConfigValidation<()>)
    {
        <Extension as Validator<str>>::validate(self, value.as_str(), path)
    }
}

// ---------------------------------------------------------------------------
// File system checks (the file system is asked by the caller)
// ---------------------------------------------------------------------------

/// The outcome of a file check, given whether the path names an existing
/// file; `shown` is the path as the error shows it.
pub fn file_check(path: &str, shown: String, is_file: bool) -> (r: ConfigValidation<()>)
    ensures
        errors_of(r) == check_outcome(is_file, path@, Some(shown@), "file does not exist"@),
        r is Success <==> is_file,
{
    if is_file {
        Validation::Success(())
    } else {
        fail_check(path, Some(shown), string_from("file does not exist"))
    }
}

/// The outcome of a directory check, given whether the path names an
/// existing directory.
pub fn dir_check(path: &str, shown: String, is_dir: bool) -> (r: ConfigValidation<()>)
    ensures
        errors_of(r) == check_outcome(is_dir, path@, Some(shown@), "directory does not exist"@),
        r is Success <==> is_dir,
{
    if is_dir {
        Validation::Success(())
    } else {
        fail_check(path, Some(shown), string_from("directory does not exist"))
    }
}

/// What the file system says of a path's parent directory.
#[derive(Debug, Clone, Copy, PartialEq, Eq, Structural)]
pub enum ParentDir {
    /// The path has no parent (a root, or empty).
    NoParent,
    /// The parent is the empty path: the current directory.
    Current,
    /// The parent is an existing directory.
    Exists,
    /// The parent is not an existing directory.
    Missing,
}

/// The errors of a parent-directory check.
pub open spec fn parent_outcome(path: Seq<char>, shown: Seq<char>, parent: ParentDir) -> Seq<ConfigErrorV> {
    match parent {
        ParentDir::NoParent => seq![check_error(path, Some(shown), "path has no parent directory"@)],
        ParentDir::Missing => seq![check_error(path, Some(shown), "parent directory does not exist"@)],
        _ => Seq::empty(),
    }
}

/// The outcome of a parent-directory check: an existing parent, or the
/// current directory, passes.
pub fn parent_check(path: &str, shown: String, parent: ParentDir) -> (r: ConfigValidation<()>)
    ensures
        errors_of(r) == parent_outcome(path@, shown@, parent),
        r is Success <==> (parent == ParentDir::Exists || parent == ParentDir::Current),
{
    match parent {
        ParentDir::NoParent => fail_check(path, Some(shown), string_from("path has no parent directory")),
        ParentDir::Missing => fail_check(path, Some(shown), string_from("parent directory does not exist")),
        _ => Validation::Success(()),
    }
}

} // verus!
