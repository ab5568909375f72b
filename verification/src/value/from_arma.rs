//! Reading Rust values from the text Arma passes to an extension.

use vstd::prelude::*;
use vstd::std_specs::cmp::PartialEqSpec;

use crate::text::{
    chars_of, copy_range, join_elements, lemma_escape_plain, lemma_plain_element_of,
    lemma_split_joined_elements, lemma_trim_quotes_literal, literal, nat_text, plain_element,
    spec_split_array, spec_strip_brackets, split_array, string_from_chars, strip_brackets,
    trim_bounds, trim_quotes,
};
use crate::value::number::{
    int_from_arma, int_from_arma_wide, int_text, signed_of, is_digit, lemma_int_from_arma_text, lemma_nat_text_digits,
    spec_int_from_arma, IntError, NumError,
};

verus! {

/// Error type for [`FromArma`]
#[derive(Debug)]
pub enum FromArmaError<S = String> {
    /// Invalid [`crate::Value`]
    ValueInvalid(S),
    /// Invalid primitive value
    PrimitiveParseError(S),
    /// Missing base in exponential notation
    NumberMissingBase,
    /// Missing exponent in exponential notation
    NumberMissingExponent,
    /// Missing array/tuple bracket (`true` for the opening one)
    ArrayMissingBracket(bool),
    /// Missing field in map
    MapMissingField(S),
    /// Unknown field in map
    MapUnknownField(S),
    /// Collection size mismatch
    SizeMismatch {
        /// Expected size
        expected: usize,
        /// Actual size
        actual: usize,
    },
    /// Custom error message
    Custom(S),
}

/// The error with each message taken as its characters
pub type ErrorView = FromArmaError<Seq<char>>;

impl DeepView for FromArmaError {
    type V = ErrorView;

    open spec fn deep_view(&self) -> ErrorView {
        match self {
            FromArmaError::ValueInvalid(s) => FromArmaError::ValueInvalid(s@),
            FromArmaError::PrimitiveParseError(s) => FromArmaError::PrimitiveParseError(s@),
            FromArmaError::NumberMissingBase => FromArmaError::NumberMissingBase,
            FromArmaError::NumberMissingExponent => FromArmaError::NumberMissingExponent,
            FromArmaError::ArrayMissingBracket(b) => FromArmaError::ArrayMissingBracket(*b),
            FromArmaError::MapMissingField(s) => FromArmaError::MapMissingField(s@),
            FromArmaError::MapUnknownField(s) => FromArmaError::MapUnknownField(s@),
            FromArmaError::SizeMismatch { expected, actual } => FromArmaError::SizeMismatch {
                expected: *expected,
                actual: *actual,
            },
            FromArmaError::Custom(s) => FromArmaError::Custom(s@),
        }
    }
}

impl FromArmaError {
    /// Creates a new [`FromArmaError::Custom`]
    pub fn custom(s: &str) -> (r: Self)
        ensures
            r.deep_view() == FromArmaError::<Seq<char>>::Custom(s@),
    {
        FromArmaError::Custom(String::from_str(s))
    }
}

/// A parse result taken by its deep view
pub open spec fn result_view<T: DeepView>(r: Result<T, FromArmaError>) -> Result<
    T::V,
    ErrorView,
> {
    match r {
        Ok(v) => Ok(v.deep_view()),
        Err(e) => Err(e.deep_view()),
    }
}

/// A trait for converting a value from Arma to a Rust value.
pub trait FromArma: Sized + DeepView {
    /// What reading `s` gives
    spec fn spec_from_arma(s: Seq<char>) -> Result<<Self as DeepView>::V, ErrorView>;

    /// Converts a value from Arma to a Rust value.
    /// # Errors
    /// Will return an error if the value cannot be converted.
    fn from_arma(s: String) -> (r: Result<Self, FromArmaError>)
        ensures
            result_view(r) == Self::spec_from_arma(s@),
    ;
}

/// Reads a value from characters.
pub fn from_arma_chars<T: FromArma>(s: &[char]) -> (r: Result<T, FromArmaError>)
    ensures
        result_view(r) == T::spec_from_arma(s@),
{
    T::from_arma(string_from_chars(s))
}

impl FromArma for String {
    /// Surrounding double quotes are removed; the rest is kept as it is.
    open spec fn spec_from_arma(s: Seq<char>) -> Result<Seq<char>, ErrorView> {
        Ok(trim_quotes(s))
    }

    fn from_arma(s: String) -> (r: Result<Self, FromArmaError>) {
        let c = chars_of(s.as_str());
        let (i, j) = trim_bounds(c.as_slice(), true);
        let t = copy_range(c.as_slice(), i, j);
        Ok(string_from_chars(t.as_slice()))
    }
}

/// A tuple written as an array of `n` plain elements is split into those elements.
pub proof fn lemma_tuple_parts_of_array(parts: Seq<Seq<char>>)
    requires
        forall|i: int| 0 <= i < parts.len() ==> plain_element(#[trigger] parts[i]),
    ensures
        spec_tuple_parts(array_text(parts), parts.len()) == Ok::<Seq<Seq<char>>, ErrorView>(parts),
{
    let t = array_text(parts);
    assert(t.subrange(1, t.len() - 1) =~= join_elements(parts));
    lemma_split_joined_elements(parts);
}

/// Arma's literal of a text without double quotes, commas or brackets is a plain element.
pub proof fn lemma_plain_literal(s: Seq<char>)
    requires
        !s.contains('"'),
        !s.contains(','),
        !s.contains('['),
        !s.contains(']'),
    ensures
        plain_element(literal(s)),
{
    lemma_escape_plain(s);
    let q: Seq<char> = seq!['"'];
    let lit = q + s + q;
    assert(lit[0] == '"' && lit.last() == '"');
    assert forall|c: char| c == '[' || c == ']' || c == ',' implies !lit.contains(c) by {
        if lit.contains(c) {
            let j = choose|j: int| 0 <= j < lit.len() && lit[j] == c;
            if 0 < j < lit.len() - 1 {
                assert(lit[j] == s[j - 1]);
                assert(s.contains(c));
            }
        }
    }
    lemma_plain_element_of(lit);
}

/// The decimal text of an integer is a plain element.
pub proof fn lemma_plain_int_text(v: int)
    ensures
        plain_element(int_text(v)),
{
    let t = int_text(v);
    let n = if v < 0 {
        (-v) as nat
    } else {
        v as nat
    };
    lemma_nat_text_digits(n);
    let d = nat_text(n);
    assert forall|i: int| 0 <= i < t.len() implies #[trigger] t[i] == '-' || is_digit(t[i]) by {
        if v < 0 && i > 0 {
            assert(t[i] == d[i - 1]);
        }
    }
    assert(is_digit(t.last())) by {
        assert(t.last() == d.last());
        assert(is_digit(d[d.len() - 1]));
    }
    assert forall|c: char| c == '[' || c == ']' || c == ',' implies !t.contains(c) by {
        if t.contains(c) {
            let j = choose|j: int| 0 <= j < t.len() && t[j] == c;
            assert(t[j] == '-' || is_digit(t[j]));
        }
    }
    assert(t[0] == '-' || is_digit(t[0]));
    lemma_plain_element_of(t);
}

/// Texts that each read as the matching value read together as all the values.
pub proof fn lemma_parse_all_of<T: FromArma>(texts: Seq<Seq<char>>, vals: Seq<T::V>)
    requires
        texts.len() == vals.len(),
        forall|i: int|
            0 <= i < texts.len() ==> T::spec_from_arma(#[trigger] texts[i]) == Ok::<T::V, ErrorView>(
                vals[i],
            ),
    ensures
        spec_parse_all::<T>(texts) == Ok::<Seq<T::V>, ErrorView>(vals),
    decreases texts.len(),
{
    if texts.len() > 0 {
        let td = texts.drop_last();
        let vd = vals.drop_last();
        assert forall|i: int| 0 <= i < td.len() implies T::spec_from_arma(#[trigger] td[i]) == Ok::<
            T::V,
            ErrorView,
        >(vd[i]) by {
            assert(td[i] == texts[i]);
        }
        lemma_parse_all_of::<T>(td, vd);
        assert(T::spec_from_arma(texts[texts.len() - 1]) == Ok::<T::V, ErrorView>(
            vals[vals.len() - 1],
        ));
        assert(vd.push(vals.last()) =~= vals);
    } else {
        assert(vals =~= Seq::<T::V>::empty());
    }
}

/// The string literal of a text without double quotes reads back as that text.
pub proof fn lemma_string_literal_round_trip(s: Seq<char>)
    requires
        !s.contains('"'),
    ensures
        <String as FromArma>::spec_from_arma(literal(s)) == Ok::<
            Seq<char>,
            ErrorView,
        >(s),
{
    lemma_trim_quotes_literal(s);
}

/// The message of `core::str::ParseBoolError`
pub open spec fn bool_error_message() -> Seq<char> {
    "provided string was not `true` or `false`"@
}

impl FromArma for bool {
    /// `true` and `false` exactly, as `str::parse` reads them
    open spec fn spec_from_arma(s: Seq<char>) -> Result<bool, ErrorView> {
        if s == "true"@ {
            Ok(true)
        } else if s == "false"@ {
            Ok(false)
        } else {
            Err(FromArmaError::PrimitiveParseError(bool_error_message()))
        }
    }

    fn from_arma(s: String) -> (r: Result<Self, FromArmaError>) {
        let t = String::from_str("true");
        let f = String::from_str("false");
        if s == t {
            Ok(true)
        } else if s == f {
            Ok(false)
        } else {
            Err(
                FromArmaError::PrimitiveParseError(
                    String::from_str("provided string was not `true` or `false`"),
                ),
            )
        }
    }
}

/// The message of `core::char::ParseCharError` for empty text
pub open spec fn char_empty_message() -> Seq<char> {
    "cannot parse char from empty string"@
}

/// The message of `core::char::ParseCharError` for text of several characters
pub open spec fn char_many_message() -> Seq<char> {
    "too many characters in string"@
}

impl FromArma for char {
    /// Exactly one character, as `str::parse` reads it
    open spec fn spec_from_arma(s: Seq<char>) -> Result<char, ErrorView> {
        if s.len() == 0 {
            Err(FromArmaError::PrimitiveParseError(char_empty_message()))
        } else if s.len() > 1 {
            Err(FromArmaError::PrimitiveParseError(char_many_message()))
        } else {
            Ok(s[0])
        }
    }

    fn from_arma(s: String) -> (r: Result<Self, FromArmaError>) {
        let c = chars_of(s.as_str());
        if c.len() == 0 {
            Err(
                FromArmaError::PrimitiveParseError(
                    String::from_str("cannot parse char from empty string"),
                ),
            )
        } else if c.len() > 1 {
            Err(
                FromArmaError::PrimitiveParseError(
                    String::from_str("too many characters in string"),
                ),
            )
        } else {
            Ok(c[0])
        }
    }
}

/// The message of `core::num::ParseIntError` for each kind
pub open spec fn int_error_message(k: IntError) -> Seq<char> {
    match k {
        IntError::Empty => "cannot parse integer from empty string"@,
        IntError::InvalidDigit => "invalid digit found in string"@,
        IntError::PosOverflow => "number too large to fit in target type"@,
        IntError::NegOverflow => "number too small to fit in target type"@,
    }
}

/// The message of `core::num::ParseFloatError` for text that is not a number
pub open spec fn float_error_message() -> Seq<char> {
    "invalid float literal"@
}

/// The error that reading a number reports
pub open spec fn num_error_view(e: NumError) -> ErrorView {
    match e {
        NumError::Int(k) => FromArmaError::PrimitiveParseError(int_error_message(k)),
        NumError::Float => FromArmaError::PrimitiveParseError(float_error_message()),
        NumError::MissingBase => FromArmaError::NumberMissingBase,
        NumError::MissingExponent => FromArmaError::NumberMissingExponent,
    }
}

fn num_error(e: NumError) -> (r: FromArmaError)
    ensures
        r.deep_view() == num_error_view(e),
{
    match e {
        NumError::Int(k) => {
            let msg = match k {
                IntError::Empty => String::from_str("cannot parse integer from empty string"),
                IntError::InvalidDigit => String::from_str("invalid digit found in string"),
                IntError::PosOverflow => String::from_str("number too large to fit in target type"),
                IntError::NegOverflow => String::from_str("number too small to fit in target type"),
            };
            FromArmaError::PrimitiveParseError(msg)
        },
        NumError::Float => FromArmaError::PrimitiveParseError(String::from_str("invalid float literal")),
        NumError::MissingBase => FromArmaError::NumberMissingBase,
        NumError::MissingExponent => FromArmaError::NumberMissingExponent,
    }
}

/// Reading an integer type of range `[lo, hi]`
pub open spec fn spec_integer_from_arma(s: Seq<char>, lo: int, hi: int, signed: bool) -> Result<
    int,
    ErrorView,
> {
    match spec_int_from_arma(s, lo, hi, signed) {
        Ok(v) => Ok(v),
        Err(e) => Err(num_error_view(e)),
    }
}

/// An integer type whose values are `[lo, hi]` reads back the decimal text of
/// each of its values unchanged.
pub proof fn lemma_integer_text_round_trip(v: int, lo: int, hi: int, signed: bool)
    requires
        lo <= v <= hi,
        lo <= 0 <= hi,
        v < 0 ==> signed,
    ensures
        spec_integer_from_arma(int_text(v), lo, hi, signed) == Ok::<int, ErrorView>(v),
{
    lemma_int_from_arma_text(v, lo, hi, signed);
}

/// Every `i32` is read back from its decimal text.
pub proof fn lemma_i32_text_round_trip(v: i32)
    ensures
        <i32 as FromArma>::spec_from_arma(int_text(v as int)) == Ok::<i32, ErrorView>(v),
{
    lemma_integer_text_round_trip(v as int, -0x8000_0000, 0x7fff_ffff, true);
}

/// Every `u64` is read back from its decimal text.
pub proof fn lemma_u64_text_round_trip(v: u64)
    ensures
        <u64 as FromArma>::spec_from_arma(int_text(v as int)) == Ok::<u64, ErrorView>(v),
{
    lemma_integer_text_round_trip(v as int, 0, 0xffff_ffff_ffff_ffff, false);
}

/// Every `i8` is read back from its decimal text.
pub proof fn lemma_i8_text_round_trip(v: i8)
    ensures
        <i8 as FromArma>::spec_from_arma(int_text(v as int)) == Ok::<i8, ErrorView>(v),
{
    lemma_integer_text_round_trip(v as int, -128, 127, true);
}

/// Every `i16` is read back from its decimal text.
pub proof fn lemma_i16_text_round_trip(v: i16)
    ensures
        <i16 as FromArma>::spec_from_arma(int_text(v as int)) == Ok::<i16, ErrorView>(v),
{
    lemma_integer_text_round_trip(v as int, -32768, 32767, true);
}

/// Every `i64` is read back from its decimal text.
pub proof fn lemma_i64_text_round_trip(v: i64)
    ensures
        <i64 as FromArma>::spec_from_arma(int_text(v as int)) == Ok::<i64, ErrorView>(v),
{
    lemma_integer_text_round_trip(v as int, -0x8000_0000_0000_0000, 0x7fff_ffff_ffff_ffff, true);
}

/// Every `isize` is read back from its decimal text.
pub proof fn lemma_isize_text_round_trip(v: isize)
    ensures
        <isize as FromArma>::spec_from_arma(int_text(v as int)) == Ok::<isize, ErrorView>(v),
{
    lemma_integer_text_round_trip(v as int, isize::MIN as int, isize::MAX as int, true);
}

/// Every `i128` is read back from its decimal text.
pub proof fn lemma_i128_text_round_trip(v: i128)
    ensures
        <i128 as FromArma>::spec_from_arma(int_text(v as int)) == Ok::<i128, ErrorView>(v),
{
    lemma_integer_text_round_trip(v as int, -0x8000_0000_0000_0000_0000_0000_0000_0000, 0x7fff_ffff_ffff_ffff_ffff_ffff_ffff_ffff, true);
}

/// Every `u8` is read back from its decimal text.
pub proof fn lemma_u8_text_round_trip(v: u8)
    ensures
        <u8 as FromArma>::spec_from_arma(int_text(v as int)) == Ok::<u8, ErrorView>(v),
{
    lemma_integer_text_round_trip(v as int, 0, 255, false);
}

/// Every `u16` is read back from its decimal text.
pub proof fn lemma_u16_text_round_trip(v: u16)
    ensures
        <u16 as FromArma>::spec_from_arma(int_text(v as int)) == Ok::<u16, ErrorView>(v),
{
    lemma_integer_text_round_trip(v as int, 0, 65535, false);
}

/// Every `u32` is read back from its decimal text.
pub proof fn lemma_u32_text_round_trip(v: u32)
    ensures
        <u32 as FromArma>::spec_from_arma(int_text(v as int)) == Ok::<u32, ErrorView>(v),
{
    lemma_integer_text_round_trip(v as int, 0, 0xffff_ffff, false);
}

/// Every `usize` is read back from its decimal text.
pub proof fn lemma_usize_text_round_trip(v: usize)
    ensures
        <usize as FromArma>::spec_from_arma(int_text(v as int)) == Ok::<usize, ErrorView>(v),
{
    lemma_integer_text_round_trip(v as int, 0, usize::MAX as int, false);
}

/// Every `u128` is read back from its decimal text.
pub proof fn lemma_u128_text_round_trip(v: u128)
    ensures
        <u128 as FromArma>::spec_from_arma(int_text(v as int)) == Ok::<u128, ErrorView>(v),
{
    lemma_integer_text_round_trip(v as int, 0, 0xffff_ffff_ffff_ffff_ffff_ffff_ffff_ffff, false);
}

fn integer_from_arma(s: String, lo: i128, hi: i128, signed: bool) -> (r: Result<i128, FromArmaError>)
    requires
        -0x8000_0000_0000_0000 <= lo <= 0 <= hi < 0x1_0000_0000_0000_0000,
    ensures
        match r {
            Ok(v) => spec_integer_from_arma(s@, lo as int, hi as int, signed) == Ok::<int, ErrorView>(v as int)
                && lo <= v <= hi,
            Err(e) => spec_integer_from_arma(s@, lo as int, hi as int, signed) == Err::<int, ErrorView>(e.deep_view()),
        },
{
    let c = chars_of(s.as_str());
    match int_from_arma(c.as_slice(), lo, hi, signed) {
        Ok(v) => Ok(v),
        Err(e) => Err(num_error(e)),
    }
}

impl FromArma for u8 {
    /// A decimal integer in the range of `u8`, or exponential notation; see `spec_int_from_arma`
    open spec fn spec_from_arma(s: Seq<char>) -> Result<u8, ErrorView> {
        match spec_integer_from_arma(s, 0, 255, false) {
            Ok(v) => Ok(v as u8),
            Err(e) => Err(e),
        }
    }

    fn from_arma(s: String) -> (r: Result<Self, FromArmaError>) {
        match integer_from_arma(s, 0, 255, false) {
            Ok(v) => Ok(v as u8),
            Err(e) => Err(e),
        }
    }
}

impl FromArma for u16 {
    /// A decimal integer in the range of `u16`, or exponential notation; see `spec_int_from_arma`
    open spec fn spec_from_arma(s: Seq<char>) -> Result<u16, ErrorView> {
        match spec_integer_from_arma(s, 0, 65535, false) {
            Ok(v) => Ok(v as u16),
            Err(e) => Err(e),
        }
    }

    fn from_arma(s: String) -> (r: Result<Self, FromArmaError>) {
        match integer_from_arma(s, 0, 65535, false) {
            Ok(v) => Ok(v as u16),
            Err(e) => Err(e),
        }
    }
}

fn integer_from_arma_wide(s: String, lo_mag: u128, hi: u128, signed: bool) -> (r: Result<
    (bool, u128),
    FromArmaError,
>)
    requires
        lo_mag <= 0x8000_0000_0000_0000_0000_0000_0000_0000,
    ensures
        match r {
            Ok((neg, m)) => spec_integer_from_arma(s@, -(lo_mag as int), hi as int, signed)
                == Ok::<int, ErrorView>(signed_of(neg, m as int)) && -(lo_mag as int) <= signed_of(
                neg,
                m as int,
            ) <= hi,
            Err(e) => spec_integer_from_arma(s@, -(lo_mag as int), hi as int, signed) == Err::<
                int,
                ErrorView,
            >(e.deep_view()),
        },
{
    let c = chars_of(s.as_str());
    match int_from_arma_wide(c.as_slice(), lo_mag, hi, signed) {
        Ok(v) => Ok(v),
        Err(e) => Err(num_error(e)),
    }
}

impl FromArma for i128 {
    /// A decimal integer in the range of `i128`, or exponential notation; see `spec_int_from_arma`
    open spec fn spec_from_arma(s: Seq<char>) -> Result<i128, ErrorView> {
        match spec_integer_from_arma(
            s,
            -0x8000_0000_0000_0000_0000_0000_0000_0000,
            0x7fff_ffff_ffff_ffff_ffff_ffff_ffff_ffff,
            true,
        ) {
            Ok(v) => Ok(v as i128),
            Err(e) => Err(e),
        }
    }

    fn from_arma(s: String) -> (r: Result<Self, FromArmaError>) {
        match integer_from_arma_wide(
            s,
            0x8000_0000_0000_0000_0000_0000_0000_0000,
            0x7fff_ffff_ffff_ffff_ffff_ffff_ffff_ffff,
            true,
        ) {
            Ok((neg, m)) => {
                if !neg {
                    Ok(m as i128)
                } else if m == 0x8000_0000_0000_0000_0000_0000_0000_0000 {
                    Ok(i128::MIN)
                } else {
                    Ok(-(m as i128))
                }
            },
            Err(e) => Err(e),
        }
    }
}

impl FromArma for u128 {
    /// A decimal integer in the range of `u128`, or exponential notation; see `spec_int_from_arma`
    open spec fn spec_from_arma(s: Seq<char>) -> Result<u128, ErrorView> {
        match spec_integer_from_arma(s, 0, 0xffff_ffff_ffff_ffff_ffff_ffff_ffff_ffff, false) {
            Ok(v) => Ok(v as u128),
            Err(e) => Err(e),
        }
    }

    fn from_arma(s: String) -> (r: Result<Self, FromArmaError>) {
        match integer_from_arma_wide(s, 0, 0xffff_ffff_ffff_ffff_ffff_ffff_ffff_ffff, false) {
            Ok((neg, m)) => {
                if neg {
                    Ok(0)
                } else {
                    Ok(m)
                }
            },
            Err(e) => Err(e),
        }
    }
}

/// The index of the first entry with key `k`; the length when there is none
pub open spec fn first_key<K, T>(e: Seq<(K, T)>, k: K) -> int
    decreases e.len(),
{
    if e.len() == 0 {
        0
    } else if e[0].0 == k {
        0
    } else {
        1 + first_key(e.drop_first(), k)
    }
}

/// `e` with `(k, v)` stored: in place of the first entry keyed `k`, else at the end
pub open spec fn store_keyed<K, T>(e: Seq<(K, T)>, k: K, v: T) -> Seq<(K, T)> {
    let i = first_key(e, k);
    if 0 <= i < e.len() {
        e.update(i, (k, v))
    } else {
        e.push((k, v))
    }
}

/// Key and value pairs stored one after another, as inserting them into a map
/// does: each key once, at its first place, with the value of its last pair
pub open spec fn keyed<K, T>(pairs: Seq<(K, T)>) -> Seq<(K, T)>
    decreases pairs.len(),
{
    if pairs.len() == 0 {
        Seq::empty()
    } else {
        store_keyed(keyed(pairs.drop_last()), pairs.last().0, pairs.last().1)
    }
}

pub(crate) proof fn lemma_first_key_bound<K, T>(e: Seq<(K, T)>, k: K)
    ensures
        0 <= first_key(e, k) <= e.len(),
    decreases e.len(),
{
    if e.len() > 0 && e[0].0 != k {
        lemma_first_key_bound(e.drop_first(), k);
    }
}

/// Reads an array of `[key, value]` pairs into the entries of a map keyed by
/// text: each key once, in the order keys first appear, with the value of its
/// last pair, as inserting the pairs into a `HashMap` one after another does.
pub fn keyed_from_arma<V: FromArma>(s: String) -> (r: Result<Vec<(String, V)>, FromArmaError>)
    ensures
        match (r, <Vec<(String, V)> as FromArma>::spec_from_arma(s@)) {
            (Ok(m), Ok(p)) => m.deep_view() == keyed(p),
            (Err(e), Err(f)) => e.deep_view() == f,
            _ => false,
        },
{
    let mut pairs: Vec<(String, V)> = match <Vec<(String, V)> as FromArma>::from_arma(s) {
        Ok(p) => p,
        Err(e) => return Err(e),
    };
    let ghost p = pairs.deep_view();
    let mut out: Vec<(String, V)> = Vec::new();
    let ghost mut k: int = 0;
    assert(p.skip(0) =~= p);
    assert(p.take(0) =~= Seq::<(Seq<char>, V::V)>::empty());
    assert(out.deep_view() =~= Seq::<(Seq<char>, V::V)>::empty());
    while pairs.len() > 0
        invariant
            0 <= k <= p.len(),
            pairs.deep_view() == p.skip(k),
            out.deep_view() == keyed(p.take(k)),
        decreases pairs@.len(),
    {
        let ghost before = out.deep_view();
        let ghost rest = pairs.deep_view();
        assert(rest.len() == pairs@.len());
        let (key, val) = pairs.remove(0);
        proof {
            assert(rest[0] == (key@, val.deep_view()));
            assert(pairs.deep_view() =~= rest.drop_first());
            assert(p.skip(k + 1) =~= p.skip(k).drop_first());
            assert(p[k] == rest[0]);
            assert(p.take(k + 1).drop_last() =~= p.take(k));
            assert(p.take(k + 1).last() == p[k]);
        }
        let mut j: usize = 0;
        assert(before.skip(0) =~= before);
        while j < out.len()
            invariant
                j <= out@.len(),
                before == out.deep_view(),
                first_key(before, key@) == j + first_key(before.skip(j as int), key@),
            ensures
                j <= out@.len(),
                before == out.deep_view(),
                first_key(before, key@) == j + first_key(before.skip(j as int), key@),
                j < out@.len() ==> before[j as int].0 == key@,
            decreases out@.len() - j,
        {
            assert(before[j as int] == (out[j as int].0@, out[j as int].1.deep_view()));
            if out[j].0 == key {
                break;
            }
            assert(before.skip(j as int).drop_first() =~= before.skip(j + 1));
            j = j + 1;
        }
        proof {
            lemma_first_key_bound(before, key@);
            if j < out@.len() {
                assert(before[j as int].0 == key@);
            }
            assert(first_key(before, key@) == j);
        }
        if j < out.len() {
            out.set(j, (key, val));
            assert(out.deep_view() =~= before.update(j as int, (key@, val.deep_view())));
        } else {
            out.push((key, val));
            assert(out.deep_view() =~= before.push((key@, val.deep_view())));
        }
        proof {
            k = k + 1;
        }
    }
    assert(p.take(p.len() as int) =~= p);
    Ok(out)
}

/// Reads an array of `[key, value]` pairs into the entries of a map whose keys
/// are compared by value, as those of the integer types are: each key once, in
/// the order keys first appear, with the value of its last pair, as inserting
/// the pairs into a `HashMap` one after another does.
pub fn value_keyed_from_arma<K: FromArma + PartialEq, V: FromArma>(s: String) -> (r: Result<
    Vec<(K, V)>,
    FromArmaError,
>)
    requires
        K::obeys_eq_spec(),
        forall|a: K, b: K| #[trigger] a.eq_spec(&b) <==> a.deep_view() == b.deep_view(),
    ensures
        match (r, <Vec<(K, V)> as FromArma>::spec_from_arma(s@)) {
            (Ok(m), Ok(p)) => m.deep_view() == keyed(p),
            (Err(e), Err(f)) => e.deep_view() == f,
            _ => false,
        },
{
    let mut pairs: Vec<(K, V)> = match <Vec<(K, V)> as FromArma>::from_arma(s) {
        Ok(p) => p,
        Err(e) => return Err(e),
    };
    let ghost p = pairs.deep_view();
    let mut out: Vec<(K, V)> = Vec::new();
    let ghost mut k: int = 0;
    assert(p.skip(0) =~= p);
    assert(p.take(0) =~= Seq::<(K::V, V::V)>::empty());
    assert(out.deep_view() =~= Seq::<(K::V, V::V)>::empty());
    while pairs.len() > 0
        invariant
            K::obeys_eq_spec(),
            forall|a: K, b: K| #[trigger] a.eq_spec(&b) <==> a.deep_view() == b.deep_view(),
            0 <= k <= p.len(),
            pairs.deep_view() == p.skip(k),
            out.deep_view() == keyed(p.take(k)),
        decreases pairs@.len(),
    {
        let ghost before = out.deep_view();
        let ghost rest = pairs.deep_view();
        assert(rest.len() == pairs@.len());
        let (key, val) = pairs.remove(0);
        proof {
            assert(rest[0] == (key.deep_view(), val.deep_view()));
            assert(pairs.deep_view() =~= rest.drop_first());
            assert(p.skip(k + 1) =~= p.skip(k).drop_first());
            assert(p[k] == rest[0]);
            assert(p.take(k + 1).drop_last() =~= p.take(k));
            assert(p.take(k + 1).last() == p[k]);
        }
        let mut j: usize = 0;
        assert(before.skip(0) =~= before);
        while j < out.len()
            invariant
                K::obeys_eq_spec(),
                forall|a: K, b: K| #[trigger] a.eq_spec(&b) <==> a.deep_view() == b.deep_view(),
                j <= out@.len(),
                before == out.deep_view(),
                first_key(before, key.deep_view()) == j + first_key(before.skip(j as int), key.deep_view()),
            ensures
                j <= out@.len(),
                before == out.deep_view(),
                first_key(before, key.deep_view()) == j + first_key(before.skip(j as int), key.deep_view()),
                j < out@.len() ==> before[j as int].0 == key.deep_view(),
            decreases out@.len() - j,
        {
            assert(before[j as int] == (out[j as int].0.deep_view(), out[j as int].1.deep_view()));
            if out[j].0 == key {
                break;
            }
            assert(before.skip(j as int).drop_first() =~= before.skip(j + 1));
            j = j + 1;
        }
        proof {
            lemma_first_key_bound(before, key.deep_view());
            if j < out@.len() {
                assert(before[j as int].0 == key.deep_view());
            }
            assert(first_key(before, key.deep_view()) == j);
        }
        if j < out.len() {
            out.set(j, (key, val));
            assert(out.deep_view() =~= before.update(j as int, (key.deep_view(), val.deep_view())));
        } else {
            out.push((key, val));
            assert(out.deep_view() =~= before.push((key.deep_view(), val.deep_view())));
        }
        proof {
            k = k + 1;
        }
    }
    assert(p.take(p.len() as int) =~= p);
    Ok(out)
}

impl FromArma for u32 {
    /// A decimal integer in the range of `u32`, or exponential notation; see `spec_int_from_arma`
    open spec fn spec_from_arma(s: Seq<char>) -> Result<u32, ErrorView> {
        match spec_integer_from_arma(s, 0, 0xffff_ffff, false) {
            Ok(v) => Ok(v as u32),
            Err(e) => Err(e),
        }
    }

    fn from_arma(s: String) -> (r: Result<Self, FromArmaError>) {
        match integer_from_arma(s, 0, 0xffff_ffff, false) {
            Ok(v) => Ok(v as u32),
            Err(e) => Err(e),
        }
    }
}

impl FromArma for u64 {
    /// A decimal integer in the range of `u64`, or exponential notation; see `spec_int_from_arma`
    open spec fn spec_from_arma(s: Seq<char>) -> Result<u64, ErrorView> {
        match spec_integer_from_arma(s, 0, 0xffff_ffff_ffff_ffff, false) {
            Ok(v) => Ok(v as u64),
            Err(e) => Err(e),
        }
    }

    fn from_arma(s: String) -> (r: Result<Self, FromArmaError>) {
        match integer_from_arma(s, 0, 0xffff_ffff_ffff_ffff, false) {
            Ok(v) => Ok(v as u64),
            Err(e) => Err(e),
        }
    }
}

impl FromArma for usize {
    /// A decimal integer in the range of `usize`, or exponential notation; see `spec_int_from_arma`
    open spec fn spec_from_arma(s: Seq<char>) -> Result<usize, ErrorView> {
        match spec_integer_from_arma(s, 0, usize::MAX as int, false) {
            Ok(v) => Ok(v as usize),
            Err(e) => Err(e),
        }
    }

    fn from_arma(s: String) -> (r: Result<Self, FromArmaError>) {
        match integer_from_arma(s, 0, usize::MAX as i128, false) {
            Ok(v) => Ok(v as usize),
            Err(e) => Err(e),
        }
    }
}

impl FromArma for i8 {
    /// A decimal integer in the range of `i8`, or exponential notation; see `spec_int_from_arma`
    open spec fn spec_from_arma(s: Seq<char>) -> Result<i8, ErrorView> {
        match spec_integer_from_arma(s, -128, 127, true) {
            Ok(v) => Ok(v as i8),
            Err(e) => Err(e),
        }
    }

    fn from_arma(s: String) -> (r: Result<Self, FromArmaError>) {
        match integer_from_arma(s, -128, 127, true) {
            Ok(v) => Ok(v as i8),
            Err(e) => Err(e),
        }
    }
}

impl FromArma for i16 {
    /// A decimal integer in the range of `i16`, or exponential notation; see `spec_int_from_arma`
    open spec fn spec_from_arma(s: Seq<char>) -> Result<i16, ErrorView> {
        match spec_integer_from_arma(s, -32768, 32767, true) {
            Ok(v) => Ok(v as i16),
            Err(e) => Err(e),
        }
    }

    fn from_arma(s: String) -> (r: Result<Self, FromArmaError>) {
        match integer_from_arma(s, -32768, 32767, true) {
            Ok(v) => Ok(v as i16),
            Err(e) => Err(e),
        }
    }
}

impl FromArma for i32 {
    /// A decimal integer in the range of `i32`, or exponential notation; see `spec_int_from_arma`
    open spec fn spec_from_arma(s: Seq<char>) -> Result<i32, ErrorView> {
        match spec_integer_from_arma(s, -0x8000_0000, 0x7fff_ffff, true) {
            Ok(v) => Ok(v as i32),
            Err(e) => Err(e),
        }
    }

    fn from_arma(s: String) -> (r: Result<Self, FromArmaError>) {
        match integer_from_arma(s, -0x8000_0000, 0x7fff_ffff, true) {
            Ok(v) => Ok(v as i32),
            Err(e) => Err(e),
        }
    }
}

impl FromArma for i64 {
    /// A decimal integer in the range of `i64`, or exponential notation; see `spec_int_from_arma`
    open spec fn spec_from_arma(s: Seq<char>) -> Result<i64, ErrorView> {
        match spec_integer_from_arma(s, -0x8000_0000_0000_0000, 0x7fff_ffff_ffff_ffff, true) {
            Ok(v) => Ok(v as i64),
            Err(e) => Err(e),
        }
    }

    fn from_arma(s: String) -> (r: Result<Self, FromArmaError>) {
        match integer_from_arma(s, -0x8000_0000_0000_0000, 0x7fff_ffff_ffff_ffff, true) {
            Ok(v) => Ok(v as i64),
            Err(e) => Err(e),
        }
    }
}

impl FromArma for isize {
    /// A decimal integer in the range of `isize`, or exponential notation; see `spec_int_from_arma`
    open spec fn spec_from_arma(s: Seq<char>) -> Result<isize, ErrorView> {
        match spec_integer_from_arma(s, isize::MIN as int, isize::MAX as int, true) {
            Ok(v) => Ok(v as isize),
            Err(e) => Err(e),
        }
    }

    fn from_arma(s: String) -> (r: Result<Self, FromArmaError>) {
        match integer_from_arma(s, isize::MIN as i128, isize::MAX as i128, true) {
            Ok(v) => Ok(v as isize),
            Err(e) => Err(e),
        }
    }
}

/// The elements of an array text of `n` elements
pub open spec fn spec_tuple_parts(s: Seq<char>, n: nat) -> Result<Seq<Seq<char>>, ErrorView> {
    match spec_strip_brackets(s) {
        Err(b) => Err(FromArmaError::ArrayMissingBracket(b)),
        Ok(inner) => {
            let p = spec_split_array(inner);
            if p.len() == n {
                Ok(p)
            } else {
                Err(FromArmaError::SizeMismatch { expected: n as usize, actual: p.len() as usize })
            }
        },
    }
}

/// The elements of an array text; see `spec_tuple_parts`.
pub fn tuple_parts(s: &String, n: usize) -> (r: Result<Vec<Vec<char>>, FromArmaError>)
    ensures
        match r {
            Ok(p) => spec_tuple_parts(s@, n as nat) == Ok::<Seq<Seq<char>>, ErrorView>(p.deep_view())
                && p.len() == n,
            Err(e) => spec_tuple_parts(s@, n as nat) == Err::<Seq<Seq<char>>, ErrorView>(e.deep_view()),
        },
{
    let c = chars_of(s.as_str());
    match strip_brackets(c.as_slice()) {
        Err(b) => Err(FromArmaError::ArrayMissingBracket(b)),
        Ok(inner) => {
            let p = split_array(inner.as_slice());
            if p.len() == n {
                Ok(p)
            } else {
                Err(FromArmaError::SizeMismatch { expected: n, actual: p.len() })
            }
        },
    }
}

/// Reads element `i` of split array elements.
fn parse_part<T: FromArma>(p: &Vec<Vec<char>>, i: usize) -> (r: Result<T, FromArmaError>)
    requires
        i < p.len(),
    ensures
        result_view(r) == T::spec_from_arma(p.deep_view()[i as int]),
{
    assert(p.deep_view()[i as int] =~= p[i as int]@);
    from_arma_chars(p[i].as_slice())
}

impl<A: FromArma, B: FromArma> FromArma for (A, B) {
    /// An array of exactly 2 elements, each read as its type; the first failing element decides the error
    open spec fn spec_from_arma(s: Seq<char>) -> Result<(A::V, B::V), ErrorView> {
        match spec_tuple_parts(s, 2) {
            Err(e) => Err(e),
            Ok(p) => {
                match A::spec_from_arma(p[0]) {
                    Err(e) => Err(e),
                    Ok(v0) => {
                        match B::spec_from_arma(p[1]) {
                            Err(e) => Err(e),
                            Ok(v1) => {
                                Ok((v0, v1))
                            },
                        }
                    },
                }
            },
        }
    }

    fn from_arma(s: String) -> (r: Result<Self, FromArmaError>) {
        let p = match tuple_parts(&s, 2) {
            Ok(p) => p,
            Err(e) => return Err(e),
        };
        let v0: A = match parse_part(&p, 0) {
            Ok(v) => v,
            Err(e) => return Err(e),
        };
        let v1: B = match parse_part(&p, 1) {
            Ok(v) => v,
            Err(e) => return Err(e),
        };
        Ok((v0, v1))
    }
}

impl<A: FromArma, B: FromArma, C: FromArma> FromArma for (A, B, C) {
    /// An array of exactly 3 elements, each read as its type; the first failing element decides the error
    open spec fn spec_from_arma(s: Seq<char>) -> Result<(A::V, B::V, C::V), ErrorView> {
        match spec_tuple_parts(s, 3) {
            Err(e) => Err(e),
            Ok(p) => {
                match A::spec_from_arma(p[0]) {
                    Err(e) => Err(e),
                    Ok(v0) => {
                        match B::spec_from_arma(p[1]) {
                            Err(e) => Err(e),
                            Ok(v1) => {
                                match C::spec_from_arma(p[2]) {
                                    Err(e) => Err(e),
                                    Ok(v2) => {
                                        Ok((v0, v1, v2))
                                    },
                                }
                            },
                        }
                    },
                }
            },
        }
    }

    fn from_arma(s: String) -> (r: Result<Self, FromArmaError>) {
        let p = match tuple_parts(&s, 3) {
            Ok(p) => p,
            Err(e) => return Err(e),
        };
        let v0: A = match parse_part(&p, 0) {
            Ok(v) => v,
            Err(e) => return Err(e),
        };
        let v1: B = match parse_part(&p, 1) {
            Ok(v) => v,
            Err(e) => return Err(e),
        };
        let v2: C = match parse_part(&p, 2) {
            Ok(v) => v,
            Err(e) => return Err(e),
        };
        Ok((v0, v1, v2))
    }
}

impl<A: FromArma, B: FromArma, C: FromArma, D: FromArma> FromArma for (A, B, C, D) {
    /// An array of exactly 4 elements, each read as its type; the first failing element decides the error
    open spec fn spec_from_arma(s: Seq<char>) -> Result<(A::V, B::V, C::V, D::V), ErrorView> {
        match spec_tuple_parts(s, 4) {
            Err(e) => Err(e),
            Ok(p) => {
                match A::spec_from_arma(p[0]) {
                    Err(e) => Err(e),
                    Ok(v0) => {
                        match B::spec_from_arma(p[1]) {
                            Err(e) => Err(e),
                            Ok(v1) => {
                                match C::spec_from_arma(p[2]) {
                                    Err(e) => Err(e),
                                    Ok(v2) => {
                                        match D::spec_from_arma(p[3]) {
                                            Err(e) => Err(e),
                                            Ok(v3) => {
                                                Ok((v0, v1, v2, v3))
                                            },
                                        }
                                    },
                                }
                            },
                        }
                    },
                }
            },
        }
    }

    fn from_arma(s: String) -> (r: Result<Self, FromArmaError>) {
        let p = match tuple_parts(&s, 4) {
            Ok(p) => p,
            Err(e) => return Err(e),
        };
        let v0: A = match parse_part(&p, 0) {
            Ok(v) => v,
            Err(e) => return Err(e),
        };
        let v1: B = match parse_part(&p, 1) {
            Ok(v) => v,
            Err(e) => return Err(e),
        };
        let v2: C = match parse_part(&p, 2) {
            Ok(v) => v,
            Err(e) => return Err(e),
        };
        let v3: D = match parse_part(&p, 3) {
            Ok(v) => v,
            Err(e) => return Err(e),
        };
        Ok((v0, v1, v2, v3))
    }
}

impl<A: FromArma, B: FromArma, C: FromArma, D: FromArma, E: FromArma> FromArma for (A, B, C, D, E) {
    /// An array of exactly 5 elements, each read as its type; the first failing element decides the error
    open spec fn spec_from_arma(s: Seq<char>) -> Result<(A::V, B::V, C::V, D::V, E::V), ErrorView> {
        match spec_tuple_parts(s, 5) {
            Err(e) => Err(e),
            Ok(p) => {
                match A::spec_from_arma(p[0]) {
                    Err(e) => Err(e),
                    Ok(v0) => {
                        match B::spec_from_arma(p[1]) {
                            Err(e) => Err(e),
                            Ok(v1) => {
                                match C::spec_from_arma(p[2]) {
                                    Err(e) => Err(e),
                                    Ok(v2) => {
                                        match D::spec_from_arma(p[3]) {
                                            Err(e) => Err(e),
                                            Ok(v3) => {
                                                match E::spec_from_arma(p[4]) {
                                                    Err(e) => Err(e),
                                                    Ok(v4) => {
                                                        Ok((v0, v1, v2, v3, v4))
                                                    },
                                                }
                                            },
                                        }
                                    },
                                }
                            },
                        }
                    },
                }
            },
        }
    }

    fn from_arma(s: String) -> (r: Result<Self, FromArmaError>) {
        let p = match tuple_parts(&s, 5) {
            Ok(p) => p,
            Err(e) => return Err(e),
        };
        let v0: A = match parse_part(&p, 0) {
            Ok(v) => v,
            Err(e) => return Err(e),
        };
        let v1: B = match parse_part(&p, 1) {
            Ok(v) => v,
            Err(e) => return Err(e),
        };
        let v2: C = match parse_part(&p, 2) {
            Ok(v) => v,
            Err(e) => return Err(e),
        };
        let v3: D = match parse_part(&p, 3) {
            Ok(v) => v,
            Err(e) => return Err(e),
        };
        let v4: E = match parse_part(&p, 4) {
            Ok(v) => v,
            Err(e) => return Err(e),
        };
        Ok((v0, v1, v2, v3, v4))
    }
}

impl<A: FromArma, B: FromArma, C: FromArma, D: FromArma, E: FromArma, F: FromArma> FromArma for (A, B, C, D, E, F) {
    /// An array of exactly 6 elements, each read as its type; the first failing element decides the error
    open spec fn spec_from_arma(s: Seq<char>) -> Result<(A::V, B::V, C::V, D::V, E::V, F::V), ErrorView> {
        match spec_tuple_parts(s, 6) {
            Err(e) => Err(e),
            Ok(p) => {
                match A::spec_from_arma(p[0]) {
                    Err(e) => Err(e),
                    Ok(v0) => {
                        match B::spec_from_arma(p[1]) {
                            Err(e) => Err(e),
                            Ok(v1) => {
                                match C::spec_from_arma(p[2]) {
                                    Err(e) => Err(e),
                                    Ok(v2) => {
                                        match D::spec_from_arma(p[3]) {
                                            Err(e) => Err(e),
                                            Ok(v3) => {
                                                match E::spec_from_arma(p[4]) {
                                                    Err(e) => Err(e),
                                                    Ok(v4) => {
                                                        match F::spec_from_arma(p[5]) {
                                                            Err(e) => Err(e),
                                                            Ok(v5) => {
                                                                Ok((v0, v1, v2, v3, v4, v5))
                                                            },
                                                        }
                                                    },
                                                }
                                            },
                                        }
                                    },
                                }
                            },
                        }
                    },
                }
            },
        }
    }

    fn from_arma(s: String) -> (r: Result<Self, FromArmaError>) {
        let p = match tuple_parts(&s, 6) {
            Ok(p) => p,
            Err(e) => return Err(e),
        };
        let v0: A = match parse_part(&p, 0) {
            Ok(v) => v,
            Err(e) => return Err(e),
        };
        let v1: B = match parse_part(&p, 1) {
            Ok(v) => v,
            Err(e) => return Err(e),
        };
        let v2: C = match parse_part(&p, 2) {
            Ok(v) => v,
            Err(e) => return Err(e),
        };
        let v3: D = match parse_part(&p, 3) {
            Ok(v) => v,
            Err(e) => return Err(e),
        };
        let v4: E = match parse_part(&p, 4) {
            Ok(v) => v,
            Err(e) => return Err(e),
        };
        let v5: F = match parse_part(&p, 5) {
            Ok(v) => v,
            Err(e) => return Err(e),
        };
        Ok((v0, v1, v2, v3, v4, v5))
    }
}

impl<A: FromArma, B: FromArma, C: FromArma, D: FromArma, E: FromArma, F: FromArma, G: FromArma> FromArma for (A, B, C, D, E, F, G) {
    /// An array of exactly 7 elements, each read as its type; the first failing element decides the error
    open spec fn spec_from_arma(s: Seq<char>) -> Result<(A::V, B::V, C::V, D::V, E::V, F::V, G::V), ErrorView> {
        match spec_tuple_parts(s, 7) {
            Err(e) => Err(e),
            Ok(p) => {
                match A::spec_from_arma(p[0]) {
                    Err(e) => Err(e),
                    Ok(v0) => {
                        match B::spec_from_arma(p[1]) {
                            Err(e) => Err(e),
                            Ok(v1) => {
                                match C::spec_from_arma(p[2]) {
                                    Err(e) => Err(e),
                                    Ok(v2) => {
                                        match D::spec_from_arma(p[3]) {
                                            Err(e) => Err(e),
                                            Ok(v3) => {
                                                match E::spec_from_arma(p[4]) {
                                                    Err(e) => Err(e),
                                                    Ok(v4) => {
                                                        match F::spec_from_arma(p[5]) {
                                                            Err(e) => Err(e),
                                                            Ok(v5) => {
                                                                match G::spec_from_arma(p[6]) {
                                                                    Err(e) => Err(e),
                                                                    Ok(v6) => {
                                                                        Ok((v0, v1, v2, v3, v4, v5, v6))
                                                                    },
                                                                }
                                                            },
                                                        }
                                                    },
                                                }
                                            },
                                        }
                                    },
                                }
                            },
                        }
                    },
                }
            },
        }
    }

    fn from_arma(s: String) -> (r: Result<Self, FromArmaError>) {
        let p = match tuple_parts(&s, 7) {
            Ok(p) => p,
            Err(e) => return Err(e),
        };
        let v0: A = match parse_part(&p, 0) {
            Ok(v) => v,
            Err(e) => return Err(e),
        };
        let v1: B = match parse_part(&p, 1) {
            Ok(v) => v,
            Err(e) => return Err(e),
        };
        let v2: C = match parse_part(&p, 2) {
            Ok(v) => v,
            Err(e) => return Err(e),
        };
        let v3: D = match parse_part(&p, 3) {
            Ok(v) => v,
            Err(e) => return Err(e),
        };
        let v4: E = match parse_part(&p, 4) {
            Ok(v) => v,
            Err(e) => return Err(e),
        };
        let v5: F = match parse_part(&p, 5) {
            Ok(v) => v,
            Err(e) => return Err(e),
        };
        let v6: G = match parse_part(&p, 6) {
            Ok(v) => v,
            Err(e) => return Err(e),
        };
        Ok((v0, v1, v2, v3, v4, v5, v6))
    }
}

impl<A: FromArma, B: FromArma, C: FromArma, D: FromArma, E: FromArma, F: FromArma, G: FromArma, H: FromArma> FromArma for (A, B, C, D, E, F, G, H) {
    /// An array of exactly 8 elements, each read as its type; the first failing element decides the error
    open spec fn spec_from_arma(s: Seq<char>) -> Result<(A::V, B::V, C::V, D::V, E::V, F::V, G::V, H::V), ErrorView> {
        match spec_tuple_parts(s, 8) {
            Err(e) => Err(e),
            Ok(p) => {
                match A::spec_from_arma(p[0]) {
                    Err(e) => Err(e),
                    Ok(v0) => {
                        match B::spec_from_arma(p[1]) {
                            Err(e) => Err(e),
                            Ok(v1) => {
                                match C::spec_from_arma(p[2]) {
                                    Err(e) => Err(e),
                                    Ok(v2) => {
                                        match D::spec_from_arma(p[3]) {
                                            Err(e) => Err(e),
                                            Ok(v3) => {
                                                match E::spec_from_arma(p[4]) {
                                                    Err(e) => Err(e),
                                                    Ok(v4) => {
                                                        match F::spec_from_arma(p[5]) {
                                                            Err(e) => Err(e),
                                                            Ok(v5) => {
                                                                match G::spec_from_arma(p[6]) {
                                                                    Err(e) => Err(e),
                                                                    Ok(v6) => {
                                                                        match H::spec_from_arma(p[7]) {
                                                                            Err(e) => Err(e),
                                                                            Ok(v7) => {
                                                                                Ok((v0, v1, v2, v3, v4, v5, v6, v7))
                                                                            },
                                                                        }
                                                                    },
                                                                }
                                                            },
                                                        }
                                                    },
                                                }
                                            },
                                        }
                                    },
                                }
                            },
                        }
                    },
                }
            },
        }
    }

    fn from_arma(s: String) -> (r: Result<Self, FromArmaError>) {
        let p = match tuple_parts(&s, 8) {
            Ok(p) => p,
            Err(e) => return Err(e),
        };
        let v0: A = match parse_part(&p, 0) {
            Ok(v) => v,
            Err(e) => return Err(e),
        };
        let v1: B = match parse_part(&p, 1) {
            Ok(v) => v,
            Err(e) => return Err(e),
        };
        let v2: C = match parse_part(&p, 2) {
            Ok(v) => v,
            Err(e) => return Err(e),
        };
        let v3: D = match parse_part(&p, 3) {
            Ok(v) => v,
            Err(e) => return Err(e),
        };
        let v4: E = match parse_part(&p, 4) {
            Ok(v) => v,
            Err(e) => return Err(e),
        };
        let v5: F = match parse_part(&p, 5) {
            Ok(v) => v,
            Err(e) => return Err(e),
        };
        let v6: G = match parse_part(&p, 6) {
            Ok(v) => v,
            Err(e) => return Err(e),
        };
        let v7: H = match parse_part(&p, 7) {
            Ok(v) => v,
            Err(e) => return Err(e),
        };
        Ok((v0, v1, v2, v3, v4, v5, v6, v7))
    }
}

impl<A: FromArma, B: FromArma, C: FromArma, D: FromArma, E: FromArma, F: FromArma, G: FromArma, H: FromArma, I: FromArma> FromArma for (A, B, C, D, E, F, G, H, I) {
    /// An array of exactly 9 elements, each read as its type; the first failing element decides the error
    open spec fn spec_from_arma(s: Seq<char>) -> Result<(A::V, B::V, C::V, D::V, E::V, F::V, G::V, H::V, I::V), ErrorView> {
        match spec_tuple_parts(s, 9) {
            Err(e) => Err(e),
            Ok(p) => {
                match A::spec_from_arma(p[0]) {
                    Err(e) => Err(e),
                    Ok(v0) => {
                        match B::spec_from_arma(p[1]) {
                            Err(e) => Err(e),
                            Ok(v1) => {
                                match C::spec_from_arma(p[2]) {
                                    Err(e) => Err(e),
                                    Ok(v2) => {
                                        match D::spec_from_arma(p[3]) {
                                            Err(e) => Err(e),
                                            Ok(v3) => {
                                                match E::spec_from_arma(p[4]) {
                                                    Err(e) => Err(e),
                                                    Ok(v4) => {
                                                        match F::spec_from_arma(p[5]) {
                                                            Err(e) => Err(e),
                                                            Ok(v5) => {
                                                                match G::spec_from_arma(p[6]) {
                                                                    Err(e) => Err(e),
                                                                    Ok(v6) => {
                                                                        match H::spec_from_arma(p[7]) {
                                                                            Err(e) => Err(e),
                                                                            Ok(v7) => {
                                                                                match I::spec_from_arma(p[8]) {
                                                                                    Err(e) => Err(e),
                                                                                    Ok(v8) => {
                                                                                        Ok((v0, v1, v2, v3, v4, v5, v6, v7, v8))
                                                                                    },
                                                                                }
                                                                            },
                                                                        }
                                                                    },
                                                                }
                                                            },
                                                        }
                                                    },
                                                }
                                            },
                                        }
                                    },
                                }
                            },
                        }
                    },
                }
            },
        }
    }

    fn from_arma(s: String) -> (r: Result<Self, FromArmaError>) {
        let p = match tuple_parts(&s, 9) {
            Ok(p) => p,
            Err(e) => return Err(e),
        };
        let v0: A = match parse_part(&p, 0) {
            Ok(v) => v,
            Err(e) => return Err(e),
        };
        let v1: B = match parse_part(&p, 1) {
            Ok(v) => v,
            Err(e) => return Err(e),
        };
        let v2: C = match parse_part(&p, 2) {
            Ok(v) => v,
            Err(e) => return Err(e),
        };
        let v3: D = match parse_part(&p, 3) {
            Ok(v) => v,
            Err(e) => return Err(e),
        };
        let v4: E = match parse_part(&p, 4) {
            Ok(v) => v,
            Err(e) => return Err(e),
        };
        let v5: F = match parse_part(&p, 5) {
            Ok(v) => v,
            Err(e) => return Err(e),
        };
        let v6: G = match parse_part(&p, 6) {
            Ok(v) => v,
            Err(e) => return Err(e),
        };
        let v7: H = match parse_part(&p, 7) {
            Ok(v) => v,
            Err(e) => return Err(e),
        };
        let v8: I = match parse_part(&p, 8) {
            Ok(v) => v,
            Err(e) => return Err(e),
        };
        Ok((v0, v1, v2, v3, v4, v5, v6, v7, v8))
    }
}

impl<A: FromArma, B: FromArma, C: FromArma, D: FromArma, E: FromArma, F: FromArma, G: FromArma, H: FromArma, I: FromArma, J: FromArma> FromArma for (A, B, C, D, E, F, G, H, I, J) {
    /// An array of exactly 10 elements, each read as its type; the first failing element decides the error
    open spec fn spec_from_arma(s: Seq<char>) -> Result<(A::V, B::V, C::V, D::V, E::V, F::V, G::V, H::V, I::V, J::V), ErrorView> {
        match spec_tuple_parts(s, 10) {
            Err(e) => Err(e),
            Ok(p) => {
                match A::spec_from_arma(p[0]) {
                    Err(e) => Err(e),
                    Ok(v0) => {
                        match B::spec_from_arma(p[1]) {
                            Err(e) => Err(e),
                            Ok(v1) => {
                                match C::spec_from_arma(p[2]) {
                                    Err(e) => Err(e),
                                    Ok(v2) => {
                                        match D::spec_from_arma(p[3]) {
                                            Err(e) => Err(e),
                                            Ok(v3) => {
                                                match E::spec_from_arma(p[4]) {
                                                    Err(e) => Err(e),
                                                    Ok(v4) => {
                                                        match F::spec_from_arma(p[5]) {
                                                            Err(e) => Err(e),
                                                            Ok(v5) => {
                                                                match G::spec_from_arma(p[6]) {
                                                                    Err(e) => Err(e),
                                                                    Ok(v6) => {
                                                                        match H::spec_from_arma(p[7]) {
                                                                            Err(e) => Err(e),
                                                                            Ok(v7) => {
                                                                                match I::spec_from_arma(p[8]) {
                                                                                    Err(e) => Err(e),
                                                                                    Ok(v8) => {
                                                                                        match J::spec_from_arma(p[9]) {
                                                                                            Err(e) => Err(e),
                                                                                            Ok(v9) => {
                                                                                                Ok((v0, v1, v2, v3, v4, v5, v6, v7, v8, v9))
                                                                                            },
                                                                                        }
                                                                                    },
                                                                                }
                                                                            },
                                                                        }
                                                                    },
                                                                }
                                                            },
                                                        }
                                                    },
                                                }
                                            },
                                        }
                                    },
                                }
                            },
                        }
                    },
                }
            },
        }
    }

    fn from_arma(s: String) -> (r: Result<Self, FromArmaError>) {
        let p = match tuple_parts(&s, 10) {
            Ok(p) => p,
            Err(e) => return Err(e),
        };
        let v0: A = match parse_part(&p, 0) {
            Ok(v) => v,
            Err(e) => return Err(e),
        };
        let v1: B = match parse_part(&p, 1) {
            Ok(v) => v,
            Err(e) => return Err(e),
        };
        let v2: C = match parse_part(&p, 2) {
            Ok(v) => v,
            Err(e) => return Err(e),
        };
        let v3: D = match parse_part(&p, 3) {
            Ok(v) => v,
            Err(e) => return Err(e),
        };
        let v4: E = match parse_part(&p, 4) {
            Ok(v) => v,
            Err(e) => return Err(e),
        };
        let v5: F = match parse_part(&p, 5) {
            Ok(v) => v,
            Err(e) => return Err(e),
        };
        let v6: G = match parse_part(&p, 6) {
            Ok(v) => v,
            Err(e) => return Err(e),
        };
        let v7: H = match parse_part(&p, 7) {
            Ok(v) => v,
            Err(e) => return Err(e),
        };
        let v8: I = match parse_part(&p, 8) {
            Ok(v) => v,
            Err(e) => return Err(e),
        };
        let v9: J = match parse_part(&p, 9) {
            Ok(v) => v,
            Err(e) => return Err(e),
        };
        Ok((v0, v1, v2, v3, v4, v5, v6, v7, v8, v9))
    }
}

impl<A: FromArma, B: FromArma, C: FromArma, D: FromArma, E: FromArma, F: FromArma, G: FromArma, H: FromArma, I: FromArma, J: FromArma, K: FromArma> FromArma for (A, B, C, D, E, F, G, H, I, J, K) {
    /// An array of exactly 11 elements, each read as its type; the first failing element decides the error
    open spec fn spec_from_arma(s: Seq<char>) -> Result<(A::V, B::V, C::V, D::V, E::V, F::V, G::V, H::V, I::V, J::V, K::V), ErrorView> {
        match spec_tuple_parts(s, 11) {
            Err(e) => Err(e),
            Ok(p) => {
                match A::spec_from_arma(p[0]) {
                    Err(e) => Err(e),
                    Ok(v0) => {
                        match B::spec_from_arma(p[1]) {
                            Err(e) => Err(e),
                            Ok(v1) => {
                                match C::spec_from_arma(p[2]) {
                                    Err(e) => Err(e),
                                    Ok(v2) => {
                                        match D::spec_from_arma(p[3]) {
                                            Err(e) => Err(e),
                                            Ok(v3) => {
                                                match E::spec_from_arma(p[4]) {
                                                    Err(e) => Err(e),
                                                    Ok(v4) => {
                                                        match F::spec_from_arma(p[5]) {
                                                            Err(e) => Err(e),
                                                            Ok(v5) => {
                                                                match G::spec_from_arma(p[6]) {
                                                                    Err(e) => Err(e),
                                                                    Ok(v6) => {
                                                                        match H::spec_from_arma(p[7]) {
                                                                            Err(e) => Err(e),
                                                                            Ok(v7) => {
                                                                                match I::spec_from_arma(p[8]) {
                                                                                    Err(e) => Err(e),
                                                                                    Ok(v8) => {
                                                                                        match J::spec_from_arma(p[9]) {
                                                                                            Err(e) => Err(e),
                                                                                            Ok(v9) => {
                                                                                                match K::spec_from_arma(p[10]) {
                                                                                                    Err(e) => Err(e),
                                                                                                    Ok(v10) => {
                                                                                                        Ok((v0, v1, v2, v3, v4, v5, v6, v7, v8, v9, v10))
                                                                                                    },
                                                                                                }
                                                                                            },
                                                                                        }
                                                                                    },
                                                                                }
                                                                            },
                                                                        }
                                                                    },
                                                                }
                                                            },
                                                        }
                                                    },
                                                }
                                            },
                                        }
                                    },
                                }
                            },
                        }
                    },
                }
            },
        }
    }

    fn from_arma(s: String) -> (r: Result<Self, FromArmaError>) {
        let p = match tuple_parts(&s, 11) {
            Ok(p) => p,
            Err(e) => return Err(e),
        };
        let v0: A = match parse_part(&p, 0) {
            Ok(v) => v,
            Err(e) => return Err(e),
        };
        let v1: B = match parse_part(&p, 1) {
            Ok(v) => v,
            Err(e) => return Err(e),
        };
        let v2: C = match parse_part(&p, 2) {
            Ok(v) => v,
            Err(e) => return Err(e),
        };
        let v3: D = match parse_part(&p, 3) {
            Ok(v) => v,
            Err(e) => return Err(e),
        };
        let v4: E = match parse_part(&p, 4) {
            Ok(v) => v,
            Err(e) => return Err(e),
        };
        let v5: F = match parse_part(&p, 5) {
            Ok(v) => v,
            Err(e) => return Err(e),
        };
        let v6: G = match parse_part(&p, 6) {
            Ok(v) => v,
            Err(e) => return Err(e),
        };
        let v7: H = match parse_part(&p, 7) {
            Ok(v) => v,
            Err(e) => return Err(e),
        };
        let v8: I = match parse_part(&p, 8) {
            Ok(v) => v,
            Err(e) => return Err(e),
        };
        let v9: J = match parse_part(&p, 9) {
            Ok(v) => v,
            Err(e) => return Err(e),
        };
        let v10: K = match parse_part(&p, 10) {
            Ok(v) => v,
            Err(e) => return Err(e),
        };
        Ok((v0, v1, v2, v3, v4, v5, v6, v7, v8, v9, v10))
    }
}

impl<A: FromArma, B: FromArma, C: FromArma, D: FromArma, E: FromArma, F: FromArma, G: FromArma, H: FromArma, I: FromArma, J: FromArma, K: FromArma, L: FromArma> FromArma for (A, B, C, D, E, F, G, H, I, J, K, L) {
    /// An array of exactly 12 elements, each read as its type; the first failing element decides the error
    open spec fn spec_from_arma(s: Seq<char>) -> Result<(A::V, B::V, C::V, D::V, E::V, F::V, G::V, H::V, I::V, J::V, K::V, L::V), ErrorView> {
        match spec_tuple_parts(s, 12) {
            Err(e) => Err(e),
            Ok(p) => {
                match A::spec_from_arma(p[0]) {
                    Err(e) => Err(e),
                    Ok(v0) => {
                        match B::spec_from_arma(p[1]) {
                            Err(e) => Err(e),
                            Ok(v1) => {
                                match C::spec_from_arma(p[2]) {
                                    Err(e) => Err(e),
                                    Ok(v2) => {
                                        match D::spec_from_arma(p[3]) {
                                            Err(e) => Err(e),
                                            Ok(v3) => {
                                                match E::spec_from_arma(p[4]) {
                                                    Err(e) => Err(e),
                                                    Ok(v4) => {
                                                        match F::spec_from_arma(p[5]) {
                                                            Err(e) => Err(e),
                                                            Ok(v5) => {
                                                                match G::spec_from_arma(p[6]) {
                                                                    Err(e) => Err(e),
                                                                    Ok(v6) => {
                                                                        match H::spec_from_arma(p[7]) {
                                                                            Err(e) => Err(e),
                                                                            Ok(v7) => {
                                                                                match I::spec_from_arma(p[8]) {
                                                                                    Err(e) => Err(e),
                                                                                    Ok(v8) => {
                                                                                        match J::spec_from_arma(p[9]) {
                                                                                            Err(e) => Err(e),
                                                                                            Ok(v9) => {
                                                                                                match K::spec_from_arma(p[10]) {
                                                                                                    Err(e) => Err(e),
                                                                                                    Ok(v10) => {
                                                                                                        match L::spec_from_arma(p[11]) {
                                                                                                            Err(e) => Err(e),
                                                                                                            Ok(v11) => {
                                                                                                                Ok((v0, v1, v2, v3, v4, v5, v6, v7, v8, v9, v10, v11))
                                                                                                            },
                                                                                                        }
                                                                                                    },
                                                                                                }
                                                                                            },
                                                                                        }
                                                                                    },
                                                                                }
                                                                            },
                                                                        }
                                                                    },
                                                                }
                                                            },
                                                        }
                                                    },
                                                }
                                            },
                                        }
                                    },
                                }
                            },
                        }
                    },
                }
            },
        }
    }

    fn from_arma(s: String) -> (r: Result<Self, FromArmaError>) {
        let p = match tuple_parts(&s, 12) {
            Ok(p) => p,
            Err(e) => return Err(e),
        };
        let v0: A = match parse_part(&p, 0) {
            Ok(v) => v,
            Err(e) => return Err(e),
        };
        let v1: B = match parse_part(&p, 1) {
            Ok(v) => v,
            Err(e) => return Err(e),
        };
        let v2: C = match parse_part(&p, 2) {
            Ok(v) => v,
            Err(e) => return Err(e),
        };
        let v3: D = match parse_part(&p, 3) {
            Ok(v) => v,
            Err(e) => return Err(e),
        };
        let v4: E = match parse_part(&p, 4) {
            Ok(v) => v,
            Err(e) => return Err(e),
        };
        let v5: F = match parse_part(&p, 5) {
            Ok(v) => v,
            Err(e) => return Err(e),
        };
        let v6: G = match parse_part(&p, 6) {
            Ok(v) => v,
            Err(e) => return Err(e),
        };
        let v7: H = match parse_part(&p, 7) {
            Ok(v) => v,
            Err(e) => return Err(e),
        };
        let v8: I = match parse_part(&p, 8) {
            Ok(v) => v,
            Err(e) => return Err(e),
        };
        let v9: J = match parse_part(&p, 9) {
            Ok(v) => v,
            Err(e) => return Err(e),
        };
        let v10: K = match parse_part(&p, 10) {
            Ok(v) => v,
            Err(e) => return Err(e),
        };
        let v11: L = match parse_part(&p, 11) {
            Ok(v) => v,
            Err(e) => return Err(e),
        };
        Ok((v0, v1, v2, v3, v4, v5, v6, v7, v8, v9, v10, v11))
    }
}

/// Reading each of `parts` as a `T`, stopping at the first that fails
pub open spec fn spec_parse_all<T: FromArma>(parts: Seq<Seq<char>>) -> Result<Seq<T::V>, ErrorView>
    decreases parts.len(),
{
    if parts.len() == 0 {
        Ok(Seq::empty())
    } else {
        match spec_parse_all::<T>(parts.drop_last()) {
            Err(e) => Err(e),
            Ok(vs) => match T::spec_from_arma(parts.last()) {
                Err(e) => Err(e),
                Ok(v) => Ok(vs.push(v)),
            },
        }
    }
}

proof fn lemma_parse_all_err_prefix<T: FromArma>(parts: Seq<Seq<char>>, j: int)
    requires
        0 <= j <= parts.len(),
        spec_parse_all::<T>(parts.take(j)) is Err,
    ensures
        spec_parse_all::<T>(parts) == spec_parse_all::<T>(parts.take(j)),
    decreases parts.len() - j,
{
    if j < parts.len() {
        assert(parts.drop_last().take(j) =~= parts.take(j));
        lemma_parse_all_err_prefix::<T>(parts.drop_last(), j);
    } else {
        assert(parts.take(j) =~= parts);
    }
}

/// Reads each element of split array elements.
fn parse_all<T: FromArma>(p: &Vec<Vec<char>>) -> (r: Result<Vec<T>, FromArmaError>)
    ensures
        result_view(r) == spec_parse_all::<T>(p.deep_view()),
{
    let ghost parts = p.deep_view();
    let mut out: Vec<T> = Vec::new();
    let mut k: usize = 0;
    assert(parts.take(0) =~= Seq::<Seq<char>>::empty());
    assert(out.deep_view() =~= Seq::<T::V>::empty());
    while k < p.len()
        invariant
            k <= p@.len(),
            parts == p.deep_view(),
            spec_parse_all::<T>(parts.take(k as int)) == Ok::<Seq<T::V>, ErrorView>(out.deep_view()),
        decreases p@.len() - k,
    {
        assert(parts.take(k + 1).drop_last() =~= parts.take(k as int));
        assert(parts.take(k + 1).last() == parts[k as int]);
        match parse_part::<T>(p, k) {
            Ok(v) => {
                let ghost old_out = out.deep_view();
                out.push(v);
                assert(out.deep_view() =~= old_out.push(v.deep_view()));
            },
            Err(e) => {
                proof {
                    lemma_parse_all_err_prefix::<T>(parts, k + 1);
                }
                return Err(e);
            },
        }
        k = k + 1;
    }
    assert(parts.take(p@.len() as int) =~= parts);
    Ok(out)
}

/// An array written as its elements between brackets, separated by commas
pub open spec fn array_text(parts: Seq<Seq<char>>) -> Seq<char> {
    seq!['['] + join_elements(parts) + seq![']']
}

/// Writes an array of the given elements: `[`, the elements with a comma
/// between each two, `]`.
pub fn write_array(parts: &Vec<Vec<char>>) -> (r: Vec<char>)
    ensures
        r@ == array_text(parts.deep_view()),
{
    let ghost ps = parts.deep_view();
    let mut out: Vec<char> = Vec::new();
    out.push('[');
    let mut k: usize = 0;
    assert(ps.take(0) =~= Seq::<Seq<char>>::empty());
    assert(out@ =~= seq!['['] + join_elements(ps.take(0)));
    while k < parts.len()
        invariant
            k <= parts@.len(),
            ps == parts.deep_view(),
            out@ == seq!['['] + join_elements(ps.take(k as int)),
        decreases parts@.len() - k,
    {
        let ghost before = out@;
        assert(ps.take(k + 1).drop_last() =~= ps.take(k as int));
        assert(ps.take(k + 1).last() == ps[k as int]);
        assert(ps[k as int] == parts[k as int]@);
        if k > 0 {
            out.push(',');
        }
        let mut j: usize = 0;
        let ghost mid = out@;
        while j < parts[k].len()
            invariant
                k < parts@.len(),
                j <= parts[k as int]@.len(),
                out@ == mid + parts[k as int]@.take(j as int),
            decreases parts[k as int]@.len() - j,
        {
            out.push(parts[k][j]);
            assert(out@ =~= mid + parts[k as int]@.take(j + 1));
            j = j + 1;
        }
        assert(parts[k as int]@.take(j as int) =~= parts[k as int]@);
        if k == 0 {
            assert(ps.take(1) =~= seq![ps[0]]);
            assert(out@ =~= seq!['['] + join_elements(ps.take(1)));
        } else {
            assert(out@ =~= seq!['['] + join_elements(ps.take(k + 1)));
        }
        k = k + 1;
    }
    assert(ps.take(parts@.len() as int) =~= ps);
    out.push(']');
    assert(out@ =~= array_text(ps));
    out
}

/// Writes Arma's string literal for `s`.
pub fn literal_chars(s: &str) -> (r: Vec<char>)
    ensures
        r@ == literal(s@),
{
    let q = crate::text::quote(s);
    chars_of(q.as_str())
}

/// Writes the decimal text of `n`.
pub fn int_chars(n: u32) -> (r: Vec<char>)
    ensures
        r@ == int_text(n as int),
{
    let mut out: Vec<char> = Vec::new();
    crate::text::push_decimal(&mut out, n as u64);
    assert(out@ =~= nat_text(n as nat));
    out
}

/// An array whose elements are written plainly is read element by element:
/// the vector of what each element reads as, or the first element's error.
pub proof fn lemma_vec_reads_elements<T: FromArma>(parts: Seq<Seq<char>>)
    requires
        forall|i: int| 0 <= i < parts.len() ==> plain_element(#[trigger] parts[i]),
    ensures
        <Vec<T> as FromArma>::spec_from_arma(array_text(parts)) == spec_parse_all::<T>(parts),
{
    let t = array_text(parts);
    assert(t.subrange(1, t.len() - 1) =~= join_elements(parts));
    lemma_split_joined_elements(parts);
}

impl<T: FromArma> FromArma for Vec<T> {
    /// An array: every element read as a `T`, the first failing element deciding the error
    open spec fn spec_from_arma(s: Seq<char>) -> Result<Seq<T::V>, ErrorView> {
        match spec_strip_brackets(s) {
            Err(b) => Err(FromArmaError::ArrayMissingBracket(b)),
            Ok(inner) => spec_parse_all::<T>(spec_split_array(inner)),
        }
    }

    fn from_arma(s: String) -> (r: Result<Self, FromArmaError>) {
        let c = chars_of(s.as_str());
        match strip_brackets(c.as_slice()) {
            Err(b) => Err(FromArmaError::ArrayMissingBracket(b)),
            Ok(inner) => {
                let p = split_array(inner.as_slice());
                parse_all(&p)
            },
        }
    }
}

/// `<[T; N]>::try_from` on a `Vec<T>`: as its documentation says, the array of
/// the same elements in the same order when the vector holds exactly `N` of
/// them, else an error (here `None`).
#[verifier::external_body]
fn vec_into_array<T, const N: usize>(v: Vec<T>) -> (r: Option<[T; N]>)
    ensures
        r is Some <==> v@.len() == N,
        r matches Some(a) ==> a@ == v@,
{
    match <[T; N]>::try_from(v) {
        Ok(a) => Some(a),
        Err(_) => None,
    }
}

impl<T: FromArma, const N: usize> FromArma for [T; N] {
    /// An array of exactly `N` elements, each read as a `T`
    open spec fn spec_from_arma(s: Seq<char>) -> Result<Seq<T::V>, ErrorView> {
        match <Vec<T> as FromArma>::spec_from_arma(s) {
            Err(e) => Err(e),
            Ok(v) => if v.len() == N {
                Ok(v)
            } else {
                Err(FromArmaError::SizeMismatch { expected: N, actual: v.len() as usize })
            },
        }
    }

    fn from_arma(s: String) -> (r: Result<Self, FromArmaError>) {
        let v: Vec<T> = match <Vec<T> as FromArma>::from_arma(s) {
            Ok(v) => v,
            Err(e) => return Err(e),
        };
        let len = v.len();
        let ghost dv = v.deep_view();
        let ghost vv = v@;
        match vec_into_array::<T, N>(v) {
            Some(a) => {
                assert(a.deep_view() =~= dv);
                Ok(a)
            },
            None => Err(FromArmaError::SizeMismatch { expected: N, actual: len }),
        }
    }
}

} // verus!
