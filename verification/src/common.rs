//! Shared helpers: ASCII character classification, comma splitting and
//! small string utilities used across the crate.

use vstd::prelude::*;

verus! {

/// A regular-expression pattern kept as its source text.
pub type RegexPattern = String;

/// True for the ASCII decimal digits `0` to `9`.
pub open spec fn spec_is_ascii_digit(c: char) -> bool {
    '0' <= c && c <= '9'
}

/// True for the ASCII letters, either case.
pub open spec fn spec_is_ascii_alpha(c: char) -> bool {
    ('A' <= c && c <= 'Z') || ('a' <= c && c <= 'z')
}

/// True for the ASCII whitespace characters (space, tab, line feed,
/// form feed, carriage return).
pub open spec fn spec_is_ascii_space(c: char) -> bool {
    c == ' ' || c == '\t' || c == '\n' || c == '\u{c}' || c == '\r'
}

/// The ASCII upper-case counterpart of `c`; characters outside `a..z`
/// are left unchanged.
pub open spec fn spec_to_ascii_upper(c: char) -> char {
    if 'a' <= c && c <= 'z' {
        (c as u32 - 32) as char
    } else {
        c
    }
}

/// The numeric value of an ASCII digit.
pub open spec fn spec_digit_val(c: char) -> int {
    c as u32 - 48
}

/// The ASCII digit with numeric value `d` (meaningful for `0 <= d <= 9`).
pub open spec fn spec_digit_char(d: int) -> char {
    (48 + d) as char
}

/// Executable counterpart of [`spec_is_ascii_digit`].
pub fn is_ascii_digit(c: char) -> (r: bool)
    ensures
        r == spec_is_ascii_digit(c),
{
    let u: u32 = c as u32;
    48 <= u && u <= 57
}

/// Executable counterpart of [`spec_is_ascii_alpha`].
pub fn is_ascii_alpha(c: char) -> (r: bool)
    ensures
        r == spec_is_ascii_alpha(c),
{
    let u: u32 = c as u32;
    (65 <= u && u <= 90) || (97 <= u && u <= 122)
}

/// Executable counterpart of [`spec_is_ascii_space`].
pub fn is_ascii_space(c: char) -> (r: bool)
    ensures
        r == spec_is_ascii_space(c),
{
    let u: u32 = c as u32;
    u == 32 || u == 9 || u == 10 || u == 12 || u == 13
}

/// Executable counterpart of [`spec_to_ascii_upper`].
pub fn to_ascii_upper(c: char) -> (r: char)
    ensures
        r == spec_to_ascii_upper(c),
{
    let u: u32 = c as u32;
    if 97 <= u && u <= 122 {
        ((u - 32) as u8) as char
    } else {
        c
    }
}

/// Executable counterpart of [`spec_digit_char`].
pub fn digit_char(d: u8) -> (r: char)
    requires
        d <= 9,
    ensures
        r == spec_digit_char(d as int),
{
    (48 + d) as char
}

/// State of a comma-split scan after reading a prefix of the input:
/// the chunks already finished, and the characters gathered for the
/// chunk still open.  Whitespace is dropped, a comma closes the open
/// chunk, any other character joins it.
pub open spec fn spec_split_state(s: Seq<char>) -> (Seq<Seq<char>>, Seq<char>)
    decreases s.len(),
{
    if s.len() == 0 {
        (Seq::<Seq<char>>::empty(), Seq::<char>::empty())
    } else {
        let prev = spec_split_state(s.drop_last());
        let c = s.last();
        if c == ',' {
            (prev.0.push(prev.1), Seq::<char>::empty())
        } else if spec_is_ascii_space(c) {
            prev
        } else {
            (prev.0, prev.1.push(c))
        }
    }
}

/// The comma-separated chunks of `s`, each with its whitespace removed.
/// Splitting never yields zero chunks: an empty input gives one empty chunk.
pub open spec fn spec_chunks(s: Seq<char>) -> Seq<Seq<char>> {
    spec_split_state(s).0.push(spec_split_state(s).1)
}

/// `items` joined with `", "` between consecutive elements.
pub open spec fn spec_join(items: Seq<Seq<char>>) -> Seq<char>
    decreases items.len(),
{
    if items.len() == 0 {
        Seq::<char>::empty()
    } else if items.len() == 1 {
        items[0]
    } else {
        spec_join(items.drop_last()) + ", "@ + items.last()
    }
}

/// `s` with its first character ASCII-upper-cased.
pub open spec fn spec_capitalize(s: Seq<char>) -> Seq<char> {
    if s.len() == 0 {
        s
    } else {
        seq![spec_to_ascii_upper(s[0])] + s.skip(1)
    }
}

/// A pushed element joins a sequence's members and changes nothing else.
pub proof fn lemma_push_contains<A>(s: Seq<A>, x: A, y: A)
    ensures
        s.push(x).contains(y) <==> (s.contains(y) || y == x),
{
    if s.push(x).contains(y) {
        let k = choose|k: int| 0 <= k < s.push(x).len() && s.push(x)[k] == y;
        if k < s.len() {
            assert(s[k] == y);
        }
    }
    if s.contains(y) {
        let k = choose|k: int| 0 <= k < s.len() && s[k] == y;
        assert(s.push(x)[k] == y);
    }
    if y == x {
        assert(s.push(x)[s.len() as int] == y);
    }
}

/// Relies on `String::push`: appends one character to the string.
#[verifier::external_body]
pub(crate) fn string_push(s: &mut String, c: char)
    ensures
        final(s)@ == old(s)@.push(c),
{
    s.push(c)
}

/// Joins the given strings with `", "` between consecutive elements,
/// as used for user-facing listings of labels and patterns.
pub fn set_to_string(items: &Vec<String>) -> (r: String)
    ensures
        r@ == spec_join(items@.map_values(|it: String| it@)),
{
    let ghost views = items@.map_values(|it: String| it@);
    let mut r = String::new();
    let mut i: usize = 0;
    while i < items.len()
        invariant
            i <= items.len(),
            views == items@.map_values(|it: String| it@),
            r@ == spec_join(views.take(i as int)),
        decreases items.len() - i,
    {
        if i > 0 {
            r.append(", ");
        }
        r.append(items[i].as_str());
        proof {
            let t = views.take(i + 1);
            assert(t.drop_last() =~= views.take(i as int));
            assert(t.last() == views[i as int]);
            if i == 0 {
                assert(spec_join(t) =~= r@);
            } else {
                assert(spec_join(t) =~= r@);
            }
        }
        i += 1;
    }
    proof {
        assert(views.take(items@.len() as int) =~= views);
    }
    r
}

/// Upper-cases the first character of `s` (ASCII letters only) and keeps
/// the rest unchanged.
pub fn capitalize(s: &str) -> (r: String)
    ensures
        r@ == spec_capitalize(s@),
{
    let n = s.unicode_len();
    if n == 0 {
        let r = String::new();
        proof {
            assert(r@ =~= spec_capitalize(s@));
        }
        r
    } else {
        let mut r = String::new();
        string_push(&mut r, to_ascii_upper(s.get_char(0)));
        let rest = s.substring_char(1, n);
        r.append(rest);
        proof {
            assert(r@ =~= spec_capitalize(s@));
        }
        r
    }
}

} // verus!
