//! [`LabelId`] and [`ParsedLabel`]: parsing label strings into identifiers.

use vstd::prelude::*;

use crate::common::{
    is_ascii_alpha, is_ascii_digit, spec_digit_char, spec_digit_val, spec_is_ascii_alpha,
    spec_is_ascii_digit, spec_to_ascii_upper, string_push, to_ascii_upper,
};

verus! {

/// The numeric part of a label identifier.
pub type CodeNumber = u8;

/// A label identifier: the initial letter plus the numeric code of a label.
/// For instance, the identifier for `B0-silent` is `B0`.
#[derive(Debug, Clone, Copy, PartialEq, Eq, Hash, Structural)]
pub struct LabelId {
    pub letter: char,
    pub number: CodeNumber,
}

/// A label broken into its identifier and the free-form remainder.
#[derive(Debug)]
pub struct ParsedLabel {
    pub id: LabelId,
    pub description: Option<String>,
}

/// `s` with every double-quote character removed.
pub open spec fn spec_strip_quotes(s: Seq<char>) -> Seq<char>
    decreases s.len(),
{
    if s.len() == 0 {
        Seq::<char>::empty()
    } else if s.last() == '"' {
        spec_strip_quotes(s.drop_last())
    } else {
        spec_strip_quotes(s.drop_last()).push(s.last())
    }
}

/// The number of ASCII digits at the start of `s`.
pub open spec fn spec_leading_digits(s: Seq<char>) -> int
    decreases s.len(),
{
    if s.len() == 0 || !spec_is_ascii_digit(s[0]) {
        0
    } else {
        1 + spec_leading_digits(s.skip(1))
    }
}

/// The decimal value of a sequence of ASCII digits.
pub open spec fn spec_digits_value(s: Seq<char>) -> int
    decreases s.len(),
{
    if s.len() == 0 {
        0
    } else {
        spec_digits_value(s.drop_last()) * 10 + spec_digit_val(s.last())
    }
}

/// The parse of a label string: after removing double quotes, the string
/// must open with a letter followed by at least one digit; the digit run
/// is read as a decimal code, which must fit in [`CodeNumber`]; everything
/// after the digits (separators, description, emoji) is ignored.  The
/// letter is upper-cased.
pub open spec fn spec_parse_label_id(s: Seq<char>) -> Option<LabelId> {
    let t = spec_strip_quotes(s);
    if t.len() == 0 || !spec_is_ascii_alpha(t[0]) {
        None
    } else {
        let k = spec_leading_digits(t.skip(1));
        if k == 0 {
            None
        } else {
            let v = spec_digits_value(t.subrange(1, 1 + k));
            if v > 255 {
                None
            } else {
                Some(LabelId { letter: spec_to_ascii_upper(t[0]), number: v as CodeNumber })
            }
        }
    }
}

/// The parse used by the quick, single-digit reader: after removing double
/// quotes the first character must be a letter (upper-cased in the result)
/// and the second an ASCII digit; the rest is ignored.
pub open spec fn spec_parse_label_id_fast(s: Seq<char>) -> Option<LabelId> {
    let t = spec_strip_quotes(s);
    if t.len() >= 2 && spec_is_ascii_alpha(t[0]) && spec_is_ascii_digit(t[1]) {
        Some(
            LabelId {
                letter: spec_to_ascii_upper(t[0]),
                number: spec_digit_val(t[1]) as CodeNumber,
            },
        )
    } else {
        None
    }
}

/// The decimal digits of `n`, most significant first, without leading
/// zeros (meaningful for `n >= 0`).
pub open spec fn spec_digits(n: int) -> Seq<char>
    decreases n,
{
    if n < 10 {
        seq![spec_digit_char(n)]
    } else {
        spec_digits(n / 10).push(spec_digit_char(n % 10))
    }
}

/// The canonical string of a label identifier: its letter followed by the
/// decimal digits of its code, e.g. `B0` or `X42`.
pub open spec fn spec_canonical(id: LabelId) -> Seq<char> {
    seq![id.letter] + spec_digits(id.number as int)
}

/// Removing quotes from a quote-free sequence changes nothing.
proof fn lemma_strip_quotes_id(s: Seq<char>)
    requires
        forall|i: int| 0 <= i < s.len() ==> s[i] != '"',
    ensures
        spec_strip_quotes(s) == s,
    decreases s.len(),
{
    if s.len() == 0 {
        assert(spec_strip_quotes(s) =~= s);
    } else {
        lemma_strip_quotes_id(s.drop_last());
        assert(spec_strip_quotes(s) =~= s);
    }
}

/// A digit run of length `k` starting after the first character, with the
/// run ended by the end of the string or a non-digit, is exactly what
/// [`spec_leading_digits`] counts.
proof fn lemma_leading_digits(s: Seq<char>, k: int)
    requires
        0 <= k <= s.len(),
        forall|i: int| 0 <= i < k ==> spec_is_ascii_digit(#[trigger] s[i]),
        k < s.len() ==> !spec_is_ascii_digit(s[k]),
    ensures
        spec_leading_digits(s) == k,
    decreases s.len(),
{
    if k == 0 {
    } else {
        assert(spec_is_ascii_digit(s[0]));
        lemma_leading_digits(s.skip(1), k - 1);
    }
}

/// Extending a digit sequence multiplies its value by ten and adds the new
/// digit, so the value of a prefix never exceeds the value of the whole.
proof fn lemma_digits_value_prefix_le(s: Seq<char>, m: int)
    requires
        0 <= m <= s.len(),
        forall|i: int| 0 <= i < s.len() ==> spec_is_ascii_digit(#[trigger] s[i]),
    ensures
        spec_digits_value(s.take(m)) <= spec_digits_value(s),
        spec_digits_value(s) >= 0,
    decreases s.len(),
{
    if s.len() == 0 {
        assert(s.take(m) =~= s);
    } else if m == s.len() {
        assert(s.take(m) =~= s);
        lemma_digits_value_prefix_le(s.drop_last(), s.len() - 1);
        assert(spec_is_ascii_digit(s.last()));
        assert(spec_digit_val(s.last()) >= 0);
    } else {
        assert(s.take(m) =~= s.drop_last().take(m));
        lemma_digits_value_prefix_le(s.drop_last(), m);
        assert(spec_is_ascii_digit(s.last()));
        assert(spec_digit_val(s.last()) >= 0);
        assert(spec_digits_value(s) == spec_digits_value(s.drop_last()) * 10 + spec_digit_val(
            s.last(),
        ));
        assert(spec_digits_value(s.drop_last()) * 10 >= spec_digits_value(s.drop_last())) by (
        nonlinear_arith)
            requires
                spec_digits_value(s.drop_last()) >= 0,
        ;
    }
}

impl LabelId {
    /// Builds a label identifier from its parts.
    pub fn new(letter: char, number: CodeNumber) -> (r: Self)
        ensures
            r == (LabelId { letter, number }),
    {
        Self { letter, number }
    }

    /// Parses a label string, accepting multi-digit codes: quotes are
    /// removed, the leading letter is upper-cased, the digit run after it
    /// is read as a decimal code and anything after the digits is ignored.
    /// Returns `Ok` exactly on the strings whose code fits in a
    /// [`CodeNumber`], as [`spec_parse_label_id`] states.
    pub fn from_str(s: &str) -> (r: Result<Self, String>)
        ensures
            r is Ok <==> spec_parse_label_id(s@) is Some,
            r is Ok ==> r->Ok_0 == spec_parse_label_id(s@)->0,
    {
        let n = s.unicode_len();
        // remove every double quote
        let mut t: Vec<char> = Vec::new();
        let mut i: usize = 0;
        while i < n
            invariant
                i <= n,
                n == s@.len(),
                t@ == spec_strip_quotes(s@.take(i as int)),
            decreases n - i,
        {
            let c = s.get_char(i);
            if c != '"' {
                t.push(c);
            }
            proof {
                assert(s@.take(i + 1).drop_last() =~= s@.take(i as int));
            }
            i += 1;
        }
        proof {
            assert(s@.take(n as int) =~= s@);
        }
        let ghost tv = spec_strip_quotes(s@);

        if t.len() == 0 {
            return Err(String::from_str("Err 001: invalid label: empty"));
        }
        let first = t[0];
        if !is_ascii_alpha(first) {
            return Err(String::from_str("Err 002: invalid label: no letter"));
        }
        let letter = to_ascii_upper(first);

        // read the digit run that follows the letter
        let mut j: usize = 1;
        let mut value: u32 = 0;
        while j < t.len() && is_ascii_digit(t[j])
            invariant
                1 <= j <= t@.len(),
                t@ == tv,
                tv == spec_strip_quotes(s@),
                tv.len() > 0,
                spec_is_ascii_alpha(tv[0]),
                letter == spec_to_ascii_upper(tv[0]),
                forall|m: int| 1 <= m < j ==> spec_is_ascii_digit(#[trigger] tv[m]),
                value == spec_digits_value(tv.subrange(1, j as int)),
                value <= 255,
            decreases t@.len() - j,
        {
            let d = t[j] as u32;
            value = value * 10 + (d - 48);
            proof {
                assert(tv.subrange(1, j + 1).drop_last() =~= tv.subrange(1, j as int));
                assert(tv.subrange(1, j + 1).last() == tv[j as int]);
            }
            j += 1;
            proof {
                assert(value == spec_digits_value(tv.subrange(1, j as int)));
            }
            if value > 255 {
                proof {
                    let digits = tv.skip(1);
                    assert(forall|m: int|
                        0 <= m < j - 1 ==> spec_is_ascii_digit(#[trigger] digits[m])) by {
                        assert(forall|m: int| 0 <= m < j - 1 ==> digits[m] == tv[m + 1]);
                    }
                    lemma_leading_digits_lower(digits, j - 1);
                    let k = spec_leading_digits(digits);
                    assert(forall|m: int|
                        0 <= m < k ==> spec_is_ascii_digit(#[trigger] digits.take(k)[m])) by {
                        assert(forall|m: int| 0 <= m < k ==> digits.take(k)[m] == digits[m]);
                    }
                    lemma_digits_value_prefix_le(digits.take(k), j - 1);
                    assert(digits.take(k).take(j - 1) =~= digits.take(j - 1));
                    assert(tv.subrange(1, j as int) =~= digits.take(j - 1));
                    assert(tv.subrange(1, 1 + k) =~= digits.take(k));
                    assert(spec_digits_value(tv.subrange(1, j as int)) > 255);
                    assert(spec_digits_value(digits.take(k)) > 255);
                    assert(spec_digits_value(tv.subrange(1, 1 + k)) > 255);
                }
                return Err(String::from_str("Err 003: invalid label: code too large"));
            }
        }
        if j == 1 {
            return Err(String::from_str("Err 002: invalid label: no digit"));
        }
        proof {
            let digits = tv.skip(1);
            lemma_leading_digits(digits, j - 1);
            assert(tv.subrange(1, j as int) =~= digits.take(j - 1));
            assert(tv.subrange(1, 1 + spec_leading_digits(digits)) =~= tv.subrange(1, j as int));
        }
        Ok(LabelId { letter, number: value as u8 })
    }

    /// Parses a label string the quick way, reading a single-digit code:
    /// quotes are removed, the first character must be a letter (it is
    /// upper-cased) and the second an ASCII digit, as
    /// [`spec_parse_label_id_fast`] states.
    pub fn from_str_fast(s: &str) -> (r: Result<Self, String>)
        ensures
            r is Ok <==> spec_parse_label_id_fast(s@) is Some,
            r is Ok ==> r->Ok_0 == spec_parse_label_id_fast(s@)->0,
    {
        let n = s.unicode_len();
        let mut t: Vec<char> = Vec::new();
        let mut i: usize = 0;
        while i < n
            invariant
                i <= n,
                n == s@.len(),
                t@ == spec_strip_quotes(s@.take(i as int)),
            decreases n - i,
        {
            let c = s.get_char(i);
            if c != '"' {
                t.push(c);
            }
            proof {
                assert(s@.take(i + 1).drop_last() =~= s@.take(i as int));
            }
            i += 1;
        }
        proof {
            assert(s@.take(n as int) =~= s@);
        }
        if t.len() < 2 {
            return Err(String::from_str("Err 001: invalid label: too short"));
        }
        let first = t[0];
        let second = t[1];
        if !(is_ascii_alpha(first) && is_ascii_digit(second)) {
            return Err(String::from_str("Err 002: invalid label: bad start"));
        }
        let d = second as u32;
        Ok(LabelId { letter: to_ascii_upper(first), number: (d - 48) as u8 })
    }

    /// Parses a label string that is known to be valid.
    pub fn from(s: &str) -> (r: Self)
        requires
            spec_parse_label_id(s@) is Some,
        ensures
            Some(r) == spec_parse_label_id(s@),
    {
        match Self::from_str(s) {
            Ok(id) => id,
            Err(_) => vstd::pervasive::unreached(),
        }
    }

    /// The canonical string of this identifier: letter then decimal code,
    /// as [`spec_canonical`] states.
    pub fn to_string(&self) -> (r: String)
        ensures
            r@ == spec_canonical(*self),
    {
        let mut r = String::new();
        string_push(&mut r, self.letter);
        let n = self.number;
        if n >= 100 {
            string_push(&mut r, crate::common::digit_char(n / 100));
            string_push(&mut r, crate::common::digit_char((n / 10) % 10));
            string_push(&mut r, crate::common::digit_char(n % 10));
            proof {
                assert(spec_digits(n as int) == spec_digits(n as int / 10).push(
                    spec_digit_char(n as int % 10),
                ));
                assert(spec_digits(n as int / 10) == spec_digits(n as int / 10 / 10).push(
                    spec_digit_char(n as int / 10 % 10),
                ));
                assert(n as int / 10 / 10 == n as int / 100);
                assert(r@ =~= spec_canonical(*self));
            }
        } else if n >= 10 {
            string_push(&mut r, crate::common::digit_char(n / 10));
            string_push(&mut r, crate::common::digit_char(n % 10));
            proof {
                assert(spec_digits(n as int) == spec_digits(n as int / 10).push(
                    spec_digit_char(n as int % 10),
                ));
                assert(r@ =~= spec_canonical(*self));
            }
        } else {
            string_push(&mut r, crate::common::digit_char(n));
            proof {
                assert(r@ =~= spec_canonical(*self));
            }
        }
        r
    }
}

/// Helper for the early exit on overflow: the first `m` characters after
/// the head are digits, so the digit run is at least `m` long.
proof fn lemma_leading_digits_lower(s: Seq<char>, m: int)
    requires
        0 <= m <= s.len(),
        forall|i: int| 0 <= i < m ==> spec_is_ascii_digit(#[trigger] s[i]),
    ensures
        spec_leading_digits(s) >= m,
        forall|i: int|
            0 <= i < spec_leading_digits(s) ==> spec_is_ascii_digit(#[trigger] s[i]),
        spec_leading_digits(s) <= s.len(),
    decreases s.len(),
{
    if s.len() == 0 {
    } else if spec_is_ascii_digit(s[0]) {
        assert(forall|i: int| 0 <= i < m - 1 ==> spec_is_ascii_digit(#[trigger] s.skip(1)[i]))
            by {
            assert(forall|i: int| 0 <= i < m - 1 ==> s.skip(1)[i] == s[i + 1]);
        }
        lemma_leading_digits_lower(s.skip(1), if m > 0 { m - 1 } else { 0 });
        assert forall|i: int|
            0 <= i < spec_leading_digits(s) implies spec_is_ascii_digit(#[trigger] s[i]) by {
            if i >= 1 {
                assert(spec_is_ascii_digit(s.skip(1)[i - 1]));
                assert(s.skip(1)[i - 1] == s[i]);
            }
        }
    } else {
    }
}

/// Linear membership test for a vector of label ids.
pub fn vec_contains_id(v: &Vec<LabelId>, id: &LabelId) -> (r: bool)
    ensures
        r == v@.contains(*id),
{
    let mut k: usize = 0;
    while k < v.len()
        invariant
            k <= v@.len(),
            forall|m: int| 0 <= m < k ==> v@[m] != *id,
        decreases v@.len() - k,
    {
        if v[k].letter == id.letter && v[k].number == id.number {
            return true;
        }
        k += 1;
    }
    false
}

impl ParsedLabel {
    /// Splits a label string into its identifier, keeping the two leading
    /// characters of the raw input as the description.  Fails exactly when
    /// the identifier itself does not parse.
    pub fn try_from(s: &str) -> (r: Result<Self, String>)
        ensures
            r is Ok <==> spec_parse_label_id(s@) is Some,
            r is Ok ==> r->Ok_0.id == spec_parse_label_id(s@)->0,
            r is Ok && s@.len() >= 2 ==> (r->Ok_0.description matches Some(d) && d@ == s@.take(
                2,
            )),
            r is Ok && s@.len() < 2 ==> r->Ok_0.description is None,
    {
        let id = match LabelId::from_str(s) {
            Ok(id) => id,
            Err(e) => {
                return Err(e);
            },
        };
        let n = s.unicode_len();
        if n >= 2 {
            let head = s.substring_char(0, 2);
            let description = String::from_str(head);
            proof {
                assert(s@.subrange(0, 2) =~= s@.take(2));
            }
            Ok(ParsedLabel { id, description: Some(description) })
        } else {
            Ok(ParsedLabel { id, description: None })
        }
    }
}

/// Round trip between parsing and canonical formatting: whenever a label
/// string parses, the canonical string of the resulting identifier parses
/// back to the very same identifier.
pub proof fn lemma_parse_canonical_roundtrip(s: Seq<char>)
    requires
        spec_parse_label_id(s) is Some,
    ensures
        spec_parse_label_id(spec_canonical(spec_parse_label_id(s)->0)) == spec_parse_label_id(s),
{
    let id = spec_parse_label_id(s)->0;
    lemma_canonical_parses(id);
}

/// The canonical string of an identifier with an upper-case letter parses
/// back to that identifier.
pub proof fn lemma_canonical_parses(id: LabelId)
    requires
        'A' <= id.letter && id.letter <= 'Z',
    ensures
        spec_parse_label_id(spec_canonical(id)) == Some(id),
{
    let c = spec_canonical(id);
    let n = id.number as int;
    lemma_digits_ascii(n);
    let digits = spec_digits(n);
    assert(c =~= seq![id.letter] + digits);
    assert(forall|i: int| 0 <= i < c.len() ==> c[i] != '"');
    lemma_strip_quotes_id(c);
    assert(c.skip(1) =~= digits);
    lemma_leading_digits(digits, digits.len() as int);
    assert(c.subrange(1, 1 + digits.len() as int) =~= digits);
    lemma_digits_value_identity(n);
    assert(spec_to_ascii_upper(id.letter) == id.letter);
}

/// The digits of `n` are ASCII digits, at most three of them for a code
/// that fits in a byte.
pub proof fn lemma_digits_ascii(n: int)
    requires
        0 <= n,
    ensures
        forall|i: int|
            0 <= i < spec_digits(n).len() ==> spec_is_ascii_digit(#[trigger] spec_digits(n)[i]),
        spec_digits(n).len() >= 1,
    decreases n,
{
    if n < 10 {
        assert(spec_is_ascii_digit(spec_digit_char(n)));
    } else {
        lemma_digits_ascii(n / 10);
        assert(spec_is_ascii_digit(spec_digit_char(n % 10)));
    }
}

/// Reading back the decimal digits of `n` yields `n`.
pub proof fn lemma_digits_value_identity(n: int)
    requires
        0 <= n,
    ensures
        spec_digits_value(spec_digits(n)) == n,
    decreases n,
{
    if n < 10 {
        let s = spec_digits(n);
        assert(s =~= seq![spec_digit_char(n)]);
        assert(s.drop_last() =~= Seq::<char>::empty());
        assert(s.last() == spec_digit_char(n));
        assert(spec_digit_char(n) as u32 == 48 + n);
        assert(spec_digits_value(Seq::<char>::empty()) == 0);
        assert(spec_digits_value(s) == spec_digit_val(spec_digit_char(n)));
    } else {
        lemma_digits_value_identity(n / 10);
        assert(spec_digits(n).drop_last() =~= spec_digits(n / 10));
    }
}

} // verus!
