//! Text primitives: decoding, splitting into logical lines, substring
//! search, trimming and clamped excerpts, all stated over `Seq<char>`.

use vstd::prelude::*;
use vstd::std_specs::iter::IteratorSpec;
use vstd::string::*;
use vstd::utf8::*;

verus! {

/// The characters that carry the Unicode property `White_Space`.
pub open spec fn is_white_space(c: char) -> bool {
    let n = c as u32;
    (0x09 <= n <= 0x0D) || n == 0x20 || n == 0x85 || n == 0xA0 || n == 0x1680 || (0x2000 <= n
        <= 0x200A) || n == 0x2028 || n == 0x2029 || n == 0x202F || n == 0x205F || n == 0x3000
}

/// `s` without its leading run of white space.
pub open spec fn trim_start(s: Seq<char>) -> Seq<char>
    decreases s.len(),
{
    if s.len() > 0 && is_white_space(s[0]) {
        trim_start(s.drop_first())
    } else {
        s
    }
}

/// `s` without its trailing run of white space.
pub open spec fn trim_end(s: Seq<char>) -> Seq<char>
    decreases s.len(),
{
    if s.len() > 0 && is_white_space(s.last()) {
        trim_end(s.drop_last())
    } else {
        s
    }
}

/// `s` without leading and trailing white space.
pub open spec fn trimmed(s: Seq<char>) -> Seq<char> {
    trim_end(trim_start(s))
}

/// `needle` occurs in `hay` as a contiguous run of characters.
pub open spec fn occurs_in(needle: Seq<char>, hay: Seq<char>) -> bool {
    exists|i: int|
        0 <= i && i + needle.len() <= hay.len() && #[trigger] hay.subrange(
            i,
            i + needle.len(),
        ) == needle
}

/// Position of the first line feed in `s`, or `s.len()` if it has none.
pub open spec fn first_line_feed(s: Seq<char>) -> int
    decreases s.len(),
{
    if s.len() == 0 || s[0] == '\n' {
        0
    } else {
        1 + first_line_feed(s.drop_first())
    }
}

/// A line's text once the line feed that ended it is gone: a carriage
/// return that stood directly before the line feed goes with it.
pub open spec fn without_carriage_return(line: Seq<char>) -> Seq<char> {
    if line.len() > 0 && line.last() == '\r' {
        line.drop_last()
    } else {
        line
    }
}

/// The logical lines of `s`. A line ends at a line feed, or at a carriage
/// return and line feed; the terminator is not part of the line. The last
/// line needs no terminator, and a text that ends in one has no empty line
/// after it.
pub open spec fn lines_of(s: Seq<char>) -> Seq<Seq<char>>
    decreases s.len(),
{
    let k = first_line_feed(s);
    if s.len() == 0 {
        seq![]
    } else if k < 0 || k >= s.len() {
        seq![s]
    } else {
        seq![without_carriage_return(s.subrange(0, k))] + lines_of(s.subrange(k + 1, s.len() as int))
    }
}

/// The first `length` characters of `line`, or all of it where it is shorter.
pub open spec fn excerpt_of(line: Seq<char>, length: nat) -> Seq<char> {
    if line.len() <= length {
        line
    } else {
        line.subrange(0, length as int)
    }
}

/// The first line feed of a text lies within it, or the text has none.
pub proof fn lemma_first_line_feed(s: Seq<char>)
    ensures
        0 <= first_line_feed(s) <= s.len(),
        first_line_feed(s) < s.len() ==> s[first_line_feed(s)] == '\n',
        forall|i: int| 0 <= i < first_line_feed(s) ==> #[trigger] s[i] != '\n',
    decreases s.len(),
{
    if s.len() > 0 && s[0] != '\n' {
        let rest = s.drop_first();
        lemma_first_line_feed(rest);
        assert forall|i: int| 0 <= i < first_line_feed(s) implies #[trigger] s[i] != '\n' by {
            if i > 0 {
                assert(s[i] == rest[i - 1]);
            }
        }
    }
}

/// A line feed put behind a text changes the first line feed only where
/// the text had none.
pub proof fn lemma_first_line_feed_push(s: Seq<char>)
    ensures
        first_line_feed(s.push('\n')) == first_line_feed(s),
    decreases s.len(),
{
    let longer = s.push('\n');
    if s.len() > 0 && s[0] != '\n' {
        lemma_first_line_feed_push(s.drop_first());
        assert(longer.drop_first() =~= s.drop_first().push('\n'));
    } else if s.len() == 0 {
        assert(longer[0] == '\n');
    } else {
        assert(longer[0] == s[0]);
    }
}

/// Line numbers do not depend on a final line feed: a text that does not
/// end in a line feed has as many lines with one put behind it as without,
/// and the same lines but for the last, which loses a final carriage return
/// to the terminator.
pub proof fn lemma_final_line_feed(s: Seq<char>)
    requires
        s.len() > 0,
        s.last() != '\n',
    ensures
        lines_of(s).len() > 0,
        lines_of(s.push('\n')).len() == lines_of(s).len(),
        forall|i: int|
            0 <= i < lines_of(s).len() - 1 ==> #[trigger] lines_of(s.push('\n'))[i] == lines_of(
                s,
            )[i],
        lines_of(s.push('\n')).last() == without_carriage_return(lines_of(s).last()),
    decreases s.len(),
{
    let longer = s.push('\n');
    let k = first_line_feed(s);
    lemma_first_line_feed(s);
    lemma_first_line_feed_push(s);
    if k >= s.len() {
        assert(longer.subrange(0, k) =~= s);
        assert(longer.subrange(k + 1, longer.len() as int) =~= Seq::<char>::empty());
        assert(lines_of(Seq::<char>::empty()) =~= Seq::<Seq<char>>::empty());
        assert(lines_of(longer) =~= seq![without_carriage_return(s)]);
        assert(lines_of(s) =~= seq![s]);
    } else {
        let rest = s.subrange(k + 1, s.len() as int);
        assert(rest.len() > 0);
        assert(rest.last() == s.last());
        lemma_final_line_feed(rest);
        assert(longer.subrange(0, k) =~= s.subrange(0, k));
        assert(longer.subrange(k + 1, longer.len() as int) =~= rest.push('\n'));
        let first = without_carriage_return(s.subrange(0, k));
        assert(lines_of(s) == seq![first] + lines_of(rest));
        assert(lines_of(longer) == seq![first] + lines_of(rest.push('\n')));
        assert forall|i: int| 0 <= i < lines_of(s).len() - 1 implies #[trigger] lines_of(
            longer,
        )[i] == lines_of(s)[i] by {
            if i > 0 {
                assert(lines_of(longer)[i] == lines_of(rest.push('\n'))[i - 1]);
                assert(lines_of(s)[i] == lines_of(rest)[i - 1]);
            }
        }
    }
}

/// Trimming takes characters away at the two ends and nowhere else: what
/// is left is a run of the line's characters, no longer than the line.
pub proof fn lemma_trimmed_is_part(s: Seq<char>) -> (bounds: (int, int))
    ensures
        0 <= bounds.0 <= bounds.1 <= s.len(),
        trimmed(s) == s.subrange(bounds.0, bounds.1),
        trimmed(s).len() <= s.len(),
{
    let a = lemma_trim_start_is_suffix(s);
    let b = lemma_trim_end_is_prefix(trim_start(s));
    assert(s.subrange(a, s.len() as int).subrange(0, b) =~= s.subrange(a, a + b));
    (a, a + b)
}

/// What `trim_start` leaves is the text from some position on.
pub proof fn lemma_trim_start_is_suffix(s: Seq<char>) -> (from: int)
    ensures
        0 <= from <= s.len(),
        trim_start(s) == s.subrange(from, s.len() as int),
    decreases s.len(),
{
    if s.len() > 0 && is_white_space(s[0]) {
        let rest = s.drop_first();
        let inner = lemma_trim_start_is_suffix(rest);
        assert(rest.subrange(inner, rest.len() as int) =~= s.subrange(inner + 1, s.len() as int));
        inner + 1
    } else {
        assert(s.subrange(0, s.len() as int) =~= s);
        0
    }
}

/// What `trim_end` leaves is the text up to some position.
pub proof fn lemma_trim_end_is_prefix(s: Seq<char>) -> (to: int)
    ensures
        0 <= to <= s.len(),
        trim_end(s) == s.subrange(0, to),
    decreases s.len(),
{
    if s.len() > 0 && is_white_space(s.last()) {
        let rest = s.drop_last();
        let inner = lemma_trim_end_is_prefix(rest);
        assert(rest.subrange(0, inner) =~= s.subrange(0, inner));
        inner
    } else {
        assert(s.subrange(0, s.len() as int) =~= s);
        s.len() as int
    }
}

/// Calls `str::trim`, which returns the slice left after leading and
/// trailing white space (the Unicode property `White_Space`) is removed.
#[verifier::external_body]
pub(crate) fn trim_text(line: &str) -> (r: &str)
    ensures
        r@ == trimmed(line@),
{
    line.trim()
}

/// Calls `str::contains` with a string pattern, which tells whether the
/// pattern matches a sub-slice of the text.
#[verifier::external_body]
pub(crate) fn contains_text(hay: &str, needle: &str) -> (r: bool)
    ensures
        r == occurs_in(needle@, hay@),
{
    hay.contains(needle)
}

/// Calls `std::str::from_utf8`, which succeeds exactly on well-formed
/// UTF-8 and then returns the same bytes as a string slice.
#[verifier::external_body]
pub(crate) fn decode_text(bytes: &[u8]) -> (r: Option<&str>)
    ensures
        r is Some <==> valid_utf8(bytes@),
        r is Some ==> r.unwrap()@ == decode_utf8(bytes@),
{
    std::str::from_utf8(bytes).ok()
}

/// Calls `str::lines` and collects what it yields: the text's lines in
/// order, split at line feeds, without their terminators.
#[verifier::external_body]
pub(crate) fn split_lines(text: &str) -> (r: Vec<String>)
    ensures
        r@.len() == lines_of(text@).len(),
        forall|i: int| 0 <= i < r@.len() ==> (#[trigger] r@[i])@ == lines_of(text@)[i],
{
    text.lines().map(String::from).collect()
}

/// The characters of a text, in order.
pub(crate) fn chars_of(text: &str) -> (r: Vec<char>)
    ensures
        r@ == text@,
{
    broadcast use vstd::string::group_string_axioms;

    let mut r: Vec<char> = Vec::new();
    let mut rest = text.chars();
    assert(r@ + rest.remaining() =~= text@);
    loop
        invariant
            rest.obeys_prophetic_iter_laws(),
            r@ + rest.remaining() == text@,
        ensures
            r@ == text@,
        decreases text@.len() - r@.len(),
    {
        match rest.next() {
            Some(c) => {
                r.push(c);
                assert(r@ + rest.remaining() =~= text@);
            },
            None => {
                assert(r@ =~= text@);
                break ;
            },
        }
    }
    r
}

/// Calls `String::from_iter` on the characters: the string that holds
/// exactly them, in order.
#[verifier::external_body]
pub(crate) fn string_of(chars: &Vec<char>) -> (r: String)
    ensures
        r@ == chars@,
{
    String::from_iter(chars.iter())
}

/// The first `length` characters of `line`; the whole of `line` where it
/// has no more than that. Never fails, whatever the two hold.
pub fn excerpt_line(line: &str, length: usize) -> (r: &str)
    ensures
        r@ == excerpt_of(line@, length as nat),
        r@.len() <= length,
        r@.len() <= line@.len(),
        r@.is_prefix_of(line@),
{
    let total: usize = line.unicode_len();
    if total <= length {
        line
    } else {
        line.substring_char(0, length)
    }
}

} // verus!
