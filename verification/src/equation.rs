//! Equations as the user types them: from a text such as `3x^2 - x + 4` to the
//! terms it is made of, and from terms to a list of coefficients.
//!
//! The text is cut into terms by the `regex` crate. What that crate finds is taken
//! on trust; what is made of it is not.
use vstd::prelude::*;

verus! {

/// The kinds of equation a curve can be drawn from. Only polynomials are drawn so
/// far.
pub enum EquationType {
    Polynomial,
    Exponential,
    Trigonometric,
    Circle,
}

/// Whether a character is white space, as the standard library tells it.
pub uninterp spec fn is_whitespace(c: char) -> bool;

/// The white space of ASCII: the space, and the five characters from the tab to
/// the carriage return.
pub open spec fn is_ascii_white_space(c: char) -> bool {
    c == ' ' || ('\t' <= c && c <= '\r')
}

/// Whether a character is white space: for a character of ASCII as listed, for
/// any other as the standard library tells it.
pub open spec fn is_white_space(c: char) -> bool {
    if (c as u32) < 128 {
        is_ascii_white_space(c)
    } else {
        is_whitespace(c)
    }
}

/// `char::is_whitespace` of the standard library, which goes by the Unicode
/// property `White_Space`. The property is a fixed set of characters. Its members
/// within ASCII are the space and the characters from the tab to the carriage
/// return, and are stated; the rest of the set is named, not spelled out.
pub assume_specification[ char::is_whitespace ](c: char) -> (white: bool)
    ensures
        white == is_whitespace(c),
        (c as u32) < 128 ==> white == is_ascii_white_space(c),
;

/// `String::push` of the standard library: appends the character to the end of
/// the string.
pub assume_specification[ String::push ](s: &mut String, c: char)
    ensures
        final(s)@ == old(s)@.push(c),
;

/// The text without its white space.
pub open spec fn strip(text: Seq<char>) -> Seq<char> {
    text.filter(|c: char| !is_white_space(c))
}

/// The text without its white space.
pub fn strip_whitespace(text: &str) -> (stripped: String)
    ensures
        stripped@ == strip(text@),
{
    let mut stripped = String::new();
    proof {
        reveal(Seq::filter);
    }
    for c in iter: text.chars()
        invariant
            iter.seq() == text@,
            stripped@ == strip(text@.take(iter.index() as int)),
    {
        proof {
            let seen = text@.take(iter.index() + 1);
            assert(seen.drop_last() =~= text@.take(iter.index() as int));
            assert(seen.last() == c);
            reveal(Seq::filter);
        }
        if !c.is_whitespace() {
            stripped.push(c);
        }
    }
    proof {
        assert(text@.take(text@.len() as int) =~= text@);
    }
    stripped
}

/// The characters of a string, one by one.
pub fn to_chars(text: &str) -> (chars: Vec<char>)
    ensures
        chars@ == text@,
{
    let mut chars: Vec<char> = Vec::new();
    for c in iter: text.chars()
        invariant
            iter.seq() == text@,
            chars@ == text@.take(iter.index() as int),
    {
        chars.push(c);
        proof {
            assert(chars@ =~= text@.take(iter.index() + 1));
        }
    }
    proof {
        assert(text@.take(text@.len() as int) =~= text@);
    }
    chars
}

/// The value of a decimal digit.
pub open spec fn digit_value(c: char) -> Option<int> {
    if '0' <= c <= '9' {
        Some(c as int - '0' as int)
    } else {
        None
    }
}

/// The number that a row of decimal digits writes, however large; `None` where a
/// character is no digit. The empty row writes 0.
pub open spec fn digits_value(digits: Seq<char>) -> Option<int>
    decreases digits.len(),
{
    if digits.len() == 0 {
        Some(0)
    } else {
        match (digits_value(digits.drop_last()), digit_value(digits.last())) {
            (Some(value), Some(digit)) => Some(10 * value + digit),
            _ => None,
        }
    }
}

/// The `u32` that a text writes in decimal: one digit or more, after a plus sign
/// or none, that write a number within the range of the type. `None` for every
/// other text.
pub open spec fn decimal(text: Seq<char>) -> Option<u32> {
    let digits = if text.len() > 0 && text[0] == '+' {
        text.drop_first()
    } else {
        text
    };
    if digits.len() == 0 {
        None
    } else {
        match digits_value(digits) {
            Some(value) => if value <= u32::MAX {
                Some(value as u32)
            } else {
                None
            },
            None => None,
        }
    }
}

/// A row of digits writes no less than any of its beginnings.
pub proof fn lemma_digits_value_grows(digits: Seq<char>, n: int)
    requires
        0 <= n <= digits.len(),
        digits_value(digits) is Some,
    ensures
        digits_value(digits.take(n)) is Some,
        0 <= digits_value(digits.take(n))->0 <= digits_value(digits)->0,
    decreases digits.len(),
{
    if n == digits.len() {
        assert(digits.take(n) =~= digits);
        if digits.len() > 0 {
            lemma_digits_value_grows(digits.drop_last(), 0);
            assert(digits.drop_last().take(0).len() == 0);
        }
    } else {
        lemma_digits_value_grows(digits.drop_last(), n);
        assert(digits.drop_last().take(n) =~= digits.take(n));
    }
}

/// Reads the `u32` that `text[from..]` writes in decimal.
pub fn parse_decimal(text: &Vec<char>, from: usize) -> (number: Option<u32>)
    requires
        from <= text@.len(),
    ensures
        number == decimal(text@.skip(from as int)),
{
    let ghost all = text@.skip(from as int);
    let mut i: usize = from;
    if i < text.len() && text[i] == '+' {
        i = i + 1;
    }
    let start: usize = i;
    let ghost digits = text@.skip(start as int);
    proof {
        if start > from {
            assert(all.drop_first() =~= digits);
        }
    }
    if i == text.len() {
        return None;
    }
    let mut value: u64 = 0;
    while i < text.len()
        invariant
            start <= i <= text@.len(),
            digits == text@.skip(start as int),
            all == text@.skip(from as int),
            decimal(all) == match digits_value(digits) {
                Some(whole) => if whole <= u32::MAX {
                    Some(whole as u32)
                } else {
                    None
                },
                None => None,
            },
            digits_value(digits.take(i - start)) == Some(value as int),
            value <= u32::MAX,
        decreases text@.len() - i,
    {
        let c: char = text[i];
        let ghost seen = digits.take(i - start + 1);
        proof {
            assert(seen.drop_last() =~= digits.take(i - start));
            assert(seen.last() == c);
        }
        if c < '0' || c > '9' {
            proof {
                if digits_value(digits) is Some {
                    lemma_digits_value_grows(digits, i - start + 1);
                }
            }
            return None;
        }
        let digit: u64 = (c as u32 - '0' as u32) as u64;
        value = value * 10 + digit;
        if value > 0xFFFF_FFFF {
            proof {
                if digits_value(digits) is Some {
                    lemma_digits_value_grows(digits, i - start + 1);
                }
            }
            return None;
        }
        i = i + 1;
    }
    proof {
        assert(digits.take(i - start) =~= digits);
    }
    Some(value as u32)
}

/// Why an equation could not be read.
#[derive(Clone, Copy, Debug, PartialEq, Eq, Structural)]
pub enum ParseError {
    /// The pattern that cuts an equation into terms was turned down.
    Pattern,
    /// A term has a power that is no number.
    Power,
}

/// One term of a polynomial as written: the text of its coefficient, and its power
/// of `x`. An empty text stands for the coefficient one.
pub struct Term {
    pub coefficient: String,
    pub power: u32,
}

/// What a [`Term`] holds.
pub struct TermView {
    pub coefficient: Seq<char>,
    pub power: u32,
}

impl View for Term {
    type V = TermView;

    open spec fn view(&self) -> TermView {
        TermView { coefficient: self.coefficient@, power: self.power }
    }
}

/// Where the first `x` of a text stands; the length of the text where it has none.
pub open spec fn first_x(text: Seq<char>) -> int
    decreases text.len(),
{
    if text.len() == 0 || text[0] == 'x' {
        0
    } else {
        1 + first_x(text.drop_first())
    }
}

/// Where the last `x` of a text stands; -1 where it has none.
pub open spec fn last_x(text: Seq<char>) -> int
    decreases text.len(),
{
    if text.len() == 0 {
        -1
    } else if text.last() == 'x' {
        text.len() - 1
    } else {
        last_x(text.drop_last())
    }
}

/// The power of `x` that a term is written with: 0 where it has no `x`, 1 where
/// nothing follows its last `x`, and else the number written after the mark that
/// follows the `x` (as in `x^2`; any one character of ASCII serves as the mark).
/// `None` where the mark is not of ASCII or what follows it is no number.
pub open spec fn power_of(term: Seq<char>) -> Option<u32> {
    let at = last_x(term);
    if at < 0 {
        Some(0)
    } else if at == term.len() - 1 {
        Some(1)
    } else if term[at + 1] as u32 >= 128 {
        None
    } else {
        decimal(term.skip(at + 2))
    }
}

/// The term that a text writes: its coefficient is the text before the first `x`.
/// `None` where the power is malformed.
pub open spec fn term_of(text: Seq<char>) -> Option<TermView> {
    match power_of(text) {
        Some(power) => Some(TermView { coefficient: text.take(first_x(text)), power }),
        None => None,
    }
}

/// Reads one term.
pub fn read_term(text: &str) -> (term: Option<Term>)
    ensures
        match term {
            Some(term) => term_of(text@) == Some(term@),
            None => term_of(text@) is None,
        },
{
    let chars = to_chars(text);
    let len: usize = chars.len();
    proof {
        assert(chars@.skip(0) =~= chars@);
        assert(chars@.take(len as int) =~= chars@);
    }

    let mut first: usize = 0;
    while first < len && chars[first] != 'x'
        invariant
            len == chars@.len(),
            first <= len,
            first_x(chars@) == first + first_x(chars@.skip(first as int)),
        decreases len - first,
    {
        proof {
            assert(chars@.skip(first as int).drop_first() =~= chars@.skip(first + 1));
        }
        first = first + 1;
    }

    let mut end: usize = len;
    while end > 0 && chars[end - 1] != 'x'
        invariant
            len == chars@.len(),
            end <= len,
            last_x(chars@) == last_x(chars@.take(end as int)),
        decreases end,
    {
        proof {
            assert(chars@.take(end as int).drop_last() =~= chars@.take(end - 1));
        }
        end = end - 1;
    }

    let power: u32 = if end == 0 {
        0
    } else if end == len {
        1
    } else if chars[end] as u32 >= 128 {
        return None;
    } else {
        match parse_decimal(&chars, end + 1) {
            Some(power) => power,
            None => {
                return None;
            },
        }
    };
    let coefficient = text.substring_char(0, first).to_owned();
    Some(Term { coefficient, power })
}

/// Whether `result` is what reading the terms `found` gives: the terms, one for
/// one, where each is well formed, and the error `Power` where one is not.
pub open spec fn is_reading_of(result: Result<Vec<Term>, ParseError>, found: Seq<Seq<char>>) -> bool {
    match result {
        Ok(terms) => {
            &&& terms@.len() == found.len()
            &&& forall|i: int|
                0 <= i < found.len() ==> term_of(found[i]) == Some(#[trigger] terms@[i]@)
        },
        Err(error) => {
            &&& error == ParseError::Power
            &&& exists|i: int| 0 <= i < found.len() && term_of(#[trigger] found[i]) is None
        },
    }
}

/// Reads the terms that an equation was cut into.
pub fn read_terms(found: &Vec<String>) -> (result: Result<Vec<Term>, ParseError>)
    ensures
        is_reading_of(result, found.deep_view()),
{
    let mut terms: Vec<Term> = Vec::new();
    let mut i: usize = 0;
    while i < found.len()
        invariant
            i <= found@.len(),
            terms@.len() == i,
            found.deep_view().len() == found@.len(),
            forall|k: int| 0 <= k < found@.len() ==> found.deep_view()[k] == found@[k]@,
            forall|k: int| 0 <= k < i ==> term_of(found@[k]@) == Some(#[trigger] terms@[k]@),
        decreases found@.len() - i,
    {
        match read_term(found[i].as_str()) {
            Some(term) => {
                terms.push(term);
            },
            None => {
                assert(term_of(found.deep_view()[i as int]) is None);
                return Err(ParseError::Power);
            },
        }
        i = i + 1;
    }
    Ok(terms)
}

/// `count` zeros in a row.
pub open spec fn zeros<S>(zero: S, count: int) -> Seq<S> {
    Seq::new(count as nat, |i: int| zero)
}

/// Whether `after` is the list of coefficients `before` with one more term taken
/// in, `value` times `x` to the `power`. A power that the list has is added to,
/// in the sense of `combine`. A power past the end of the list gets the value itself,
/// after zeros for the powers in between.
pub open spec fn takes_in<S, F: Fn(S, S) -> S>(
    before: Seq<S>,
    power: int,
    value: S,
    after: Seq<S>,
    zero: S,
    combine: F,
) -> bool {
    if power < before.len() {
        &&& after.len() == before.len()
        &&& forall|i: int| 0 <= i < before.len() && i != power ==> after[i] == before[i]
        &&& combine.ensures((before[power], value), after[power])
    } else {
        after == before + zeros(zero, power - before.len()).push(value)
    }
}

/// Whether `coeffs` is the list of coefficients of the polynomial that `terms`
/// add up to, taken in one after the other from none: the coefficient of each
/// power at the place of that power, that of the lowest power first.
pub open spec fn adds_up<S, F: Fn(S, S) -> S>(
    terms: Seq<(u32, S)>,
    coeffs: Seq<S>,
    zero: S,
    combine: F,
) -> bool
    decreases terms.len(),
{
    if terms.len() == 0 {
        coeffs.len() == 0
    } else {
        exists|before: Seq<S>|
            adds_up(terms.drop_last(), before, zero, combine) && #[trigger] takes_in(
                before,
                terms.last().0 as int,
                terms.last().1,
                coeffs,
                zero,
                combine,
            )
    }
}

/// The coefficients of the polynomial that `terms` add up to, each term given by
/// its power and its value.
pub fn collect_coefficients<S: Copy, F: Fn(S, S) -> S>(terms: &Vec<(u32, S)>, zero: S, combine: F) -> (coeffs:
    Vec<S>)
    requires
        forall|a: S, b: S| combine.requires((a, b)),
    ensures
        adds_up(terms@, coeffs@, zero, combine),
{
    let mut coeffs: Vec<S> = Vec::new();
    let mut i: usize = 0;
    proof {
        assert(terms@.take(0).len() == 0);
    }
    while i < terms.len()
        invariant
            i <= terms@.len(),
            forall|a: S, b: S| combine.requires((a, b)),
            adds_up(terms@.take(i as int), coeffs@, zero, combine),
        decreases terms@.len() - i,
    {
        let (power, value) = terms[i];
        let key: usize = power as usize;
        let ghost before = coeffs@;
        if key < coeffs.len() {
            let sum = combine(coeffs[key], value);
            coeffs.set(key, sum);
        } else {
            while coeffs.len() < key
                invariant
                    before.len() <= coeffs@.len() <= key,
                    coeffs@ == before + zeros(zero, coeffs@.len() - before.len()),
                decreases key - coeffs@.len(),
            {
                coeffs.push(zero);
                proof {
                    assert(coeffs@ =~= before + zeros(zero, coeffs@.len() - before.len()));
                }
            }
            coeffs.push(value);
            proof {
                assert(coeffs@ =~= before + zeros(zero, key - before.len()).push(value));
            }
        }
        proof {
            let seen = terms@.take(i + 1);
            assert(seen.drop_last() =~= terms@.take(i as int));
            assert(seen.last() == (power, value));
            assert(adds_up(seen.drop_last(), before, zero, combine));
            assert(takes_in(before, seen.last().0 as int, seen.last().1, coeffs@, zero, combine));
            assert(adds_up(seen, coeffs@, zero, combine));
        }
        i = i + 1;
    }
    proof {
        assert(terms@.take(terms@.len() as int) =~= terms@);
    }
    coeffs
}

/// An error of the `regex` crate: why a pattern was turned down.
#[verifier::external_type_specification]
#[verifier::external_body]
pub struct ExRegexError(regex::Error);

/// The matches of a pattern in a text, from left to right and without overlap, as
/// the `regex` crate finds them where it accepts the pattern.
pub uninterp spec fn regex_finds(pattern: Seq<char>, haystack: Seq<char>) -> Seq<Seq<char>>;

/// `regex::Regex::new` and `regex::Regex::find_iter`: compiles the pattern and
/// hands out the text of each match in the haystack, in order. The error is that
/// of `Regex::new`, which turns a pattern down that is malformed or compiles to
/// more than its size limit. Which matches there are is taken on trust, under the
/// name `regex_finds`. So is that [`TERM_PATTERN`] is accepted: it is well formed
/// and a few states large, far below the limit whatever the machine. Of when any
/// other pattern is accepted nothing is claimed.
#[verifier::external_body]
fn find_all(pattern: &str, haystack: &str) -> (found: Result<Vec<String>, regex::Error>)
    ensures
        found matches Ok(matches) ==> matches.deep_view() == regex_finds(pattern@, haystack@),
        pattern@ == TERM_PATTERN@ ==> found is Ok,
{
    let re = regex::Regex::new(pattern)?;
    Ok(re.find_iter(haystack).map(|m| m.as_str().to_owned()).collect())
}

/// The pattern of a term: a sign or none, and then everything up to the next sign.
pub const TERM_PATTERN: &'static str = "([+-]?[^+-]+)";

/// Reads a polynomial whose terms `pattern` finds: takes the white space out of
/// the equation, cuts what is left into the matches of the pattern, and reads
/// each as a term.
///
/// Where the pattern is accepted, the result is that of reading the terms that it
/// finds. `Pattern` is the answer only where it is turned down, which
/// [`TERM_PATTERN`] never is.
pub fn parse_with(pattern: &str, equation: &str) -> (result: Result<Vec<Term>, ParseError>)
    ensures
        result != Err::<Vec<Term>, ParseError>(ParseError::Pattern) ==> is_reading_of(
            result,
            regex_finds(pattern@, strip(equation@)),
        ),
        pattern@ == TERM_PATTERN@ ==> result != Err::<Vec<Term>, ParseError>(ParseError::Pattern),
{
    let split_eqn = strip_whitespace(equation);
    match find_all(pattern, split_eqn.as_str()) {
        Ok(found) => read_terms(&found),
        Err(_) => Err(ParseError::Pattern),
    }
}

/// Reads a polynomial such as `3x^2 - x + 4`, with its terms cut at the signs as
/// [`TERM_PATTERN`] says: the terms, one for one, where each is well formed, and
/// the error `Power` where one is not.
pub fn parse_equation(equation: &str) -> (result: Result<Vec<Term>, ParseError>)
    ensures
        is_reading_of(result, regex_finds(TERM_PATTERN@, strip(equation@))),
{
    parse_with(TERM_PATTERN, equation)
}

} // verus!
