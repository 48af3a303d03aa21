//! Properties that hold of the parsers together: what complete inputs rule
//! out, what a streaming decision is worth once more input arrives, how the
//! "zero or more" and "one or more" forms of a run relate, and how the line
//! parsers fit together.
use vstd::prelude::*;
use crate::character::{
    char_outcome,
    compare_outcome,
    crlf_chars,
    crlf_outcome,
    lemma_span_len_is,
    lemma_span_len_props,
    lf_chars,
    line_ending_outcome,
    not_line_ending_outcome,
    one_item_outcome,
    span_len,
    spec_is_alphabetic,
    spec_is_digit,
    spec_is_hex_digit,
    spec_is_oct_digit,
    take_while0_outcome,
    take_while1_outcome,
    CompareResult,
    Outcome,
};
use crate::error::ErrorKind;
use crate::input::{AsChar, CharClass};

verus! {

/// On a complete input no parser asks for more input: each one either
/// succeeds or fails with an error.
pub proof fn lemma_complete_input_never_incomplete<A: AsChar>(
    s: Seq<A>,
    class: CharClass,
    kind: ErrorKind,
    c: char,
    width: nat,
    accepts: bool,
)
    ensures
        !(take_while0_outcome(s, true, class) is Incomplete),
        !(take_while1_outcome(s, true, class, kind) is Incomplete),
        !(crlf_outcome(s, true) is Incomplete),
        !(line_ending_outcome(s, true) is Incomplete),
        !(not_line_ending_outcome(s, true) is Incomplete),
        !(char_outcome(s, true, c, width) is Incomplete),
        !(one_item_outcome(s, true, accepts, kind) is Incomplete),
{
}

/// When a parser decides on a streaming input (it does not ask for more), it
/// decides the same way on a complete input with the same items.
pub proof fn lemma_streaming_decision_agrees_with_complete<A: AsChar>(
    s: Seq<A>,
    class: CharClass,
    kind: ErrorKind,
    c: char,
    width: nat,
    accepts: bool,
)
    ensures
        !(take_while0_outcome(s, false, class) is Incomplete) ==> take_while0_outcome(
            s,
            true,
            class,
        ) == take_while0_outcome(s, false, class),
        !(take_while1_outcome(s, false, class, kind) is Incomplete) ==> take_while1_outcome(
            s,
            true,
            class,
            kind,
        ) == take_while1_outcome(s, false, class, kind),
        !(crlf_outcome(s, false) is Incomplete) ==> crlf_outcome(s, true) == crlf_outcome(
            s,
            false,
        ),
        !(line_ending_outcome(s, false) is Incomplete) ==> line_ending_outcome(s, true)
            == line_ending_outcome(s, false),
        !(not_line_ending_outcome(s, false) is Incomplete) ==> not_line_ending_outcome(s, true)
            == not_line_ending_outcome(s, false),
        !(char_outcome(s, false, c, width) is Incomplete) ==> char_outcome(s, true, c, width)
            == char_outcome(s, false, c, width),
        !(one_item_outcome(s, false, accepts, kind) is Incomplete) ==> one_item_outcome(
            s,
            true,
            accepts,
            kind,
        ) == one_item_outcome(s, false, accepts, kind),
{
}

proof fn lemma_compare_extends<A: AsChar>(s: Seq<A>, t: Seq<A>, tag: Seq<char>)
    ensures
        compare_outcome(s, tag) != CompareResult::Incomplete ==> compare_outcome(s + t, tag)
            == compare_outcome(s, tag),
{
    let st = s + t;
    if compare_outcome(s, tag) == CompareResult::Mismatch {
        let j = choose|j: int|
            0 <= j < s.len() && j < tag.len() && #[trigger] s[j].spec_as_char() != tag[j];
        assert(st[j] == s[j]);
    } else if compare_outcome(s, tag) == CompareResult::Match {
        assert forall|j: int| 0 <= j < st.len() && j < tag.len() implies #[trigger] st[j].spec_as_char()
            == tag[j] by {
            assert(st[j] == s[j]);
            assert(!(s[j].spec_as_char() != tag[j]));
        }
    }
}

proof fn lemma_span_extends<A: AsChar>(s: Seq<A>, t: Seq<A>, class: CharClass, member: bool)
    requires
        span_len(s, class, member) < s.len(),
    ensures
        span_len(s + t, class, member) == span_len(s, class, member),
{
    let st = s + t;
    let n = span_len(s, class, member);
    lemma_span_len_props(s, class, member);
    assert forall|j: int| 0 <= j < n implies class.spec_contains(#[trigger] st[j]) == member by {
        assert(st[j] == s[j]);
    }
    assert(st[n as int] == s[n as int]);
    lemma_span_len_is(st, class, member, n as int);
}

/// A streaming decision is final: when a parser succeeds or fails on a
/// streaming input without asking for more, it does the same once more input
/// `t` has arrived after it.
pub proof fn lemma_streaming_decision_is_final<A: AsChar>(
    s: Seq<A>,
    t: Seq<A>,
    class: CharClass,
    kind: ErrorKind,
    c: char,
    width: nat,
)
    ensures
        !(take_while0_outcome(s, false, class) is Incomplete) ==> take_while0_outcome(
            s + t,
            false,
            class,
        ) == take_while0_outcome(s, false, class),
        !(take_while1_outcome(s, false, class, kind) is Incomplete) ==> take_while1_outcome(
            s + t,
            false,
            class,
            kind,
        ) == take_while1_outcome(s, false, class, kind),
        !(crlf_outcome(s, false) is Incomplete) ==> crlf_outcome(s + t, false) == crlf_outcome(
            s,
            false,
        ),
        !(line_ending_outcome(s, false) is Incomplete) ==> line_ending_outcome(s + t, false)
            == line_ending_outcome(s, false),
        !(not_line_ending_outcome(s, false) is Incomplete) ==> not_line_ending_outcome(
            s + t,
            false,
        ) == not_line_ending_outcome(s, false),
        !(char_outcome(s, false, c, width) is Incomplete) ==> char_outcome(s + t, false, c, width)
            == char_outcome(s, false, c, width),
{
    let st = s + t;
    lemma_span_len_props(s, class, true);
    if span_len(s, class, true) < s.len() {
        lemma_span_extends(s, t, class, true);
    }
    lemma_compare_extends(s, t, crlf_chars());
    lemma_compare_extends(s, t, lf_chars());
    lemma_span_len_props(s, CharClass::LineEnd, false);
    let n = span_len(s, CharClass::LineEnd, false);
    if n < s.len() {
        lemma_span_extends(s, t, CharClass::LineEnd, false);
        assert(st[n as int] == s[n as int]);
        assert(st.skip(n as int) =~= s.skip(n as int) + t);
        lemma_compare_extends(s.skip(n as int), t, crlf_chars());
    }
    if s.len() > 0 {
        assert(st[0] == s[0]);
    }
}

/// A run of items of `class`: every item of the output belongs to the class,
/// and the first remaining item, if the run did not reach the end, does not.
pub proof fn lemma_run_is_maximal<A: AsChar>(s: Seq<A>, complete: bool, class: CharClass)
    ensures
        take_while0_outcome(s, complete, class) matches Outcome::Split(n) ==> {
            &&& n <= s.len()
            &&& forall|j: int| 0 <= j < n ==> class.spec_contains(#[trigger] s[j])
            &&& n < s.len() ==> !class.spec_contains(s[n as int])
        },
{
    lemma_span_len_props(s, class, true);
}

/// The "one or more" form of a run is the "zero or more" form that rejects an
/// empty run: they ask for more input alike, the "one or more" form succeeds
/// exactly when the other one succeeds with a non-empty output, with the same
/// split, and fails with `kind` when the other one's output is empty.
pub proof fn lemma_run1_is_nonempty_run0<A: AsChar>(
    s: Seq<A>,
    complete: bool,
    class: CharClass,
    kind: ErrorKind,
)
    ensures
        take_while0_outcome(s, complete, class) is Incomplete <==> take_while1_outcome(
            s,
            complete,
            class,
            kind,
        ) is Incomplete,
        take_while0_outcome(s, complete, class) matches Outcome::Split(n) ==> (if n == 0 {
            take_while1_outcome(s, complete, class, kind) == Outcome::Error(kind)
        } else {
            take_while1_outcome(s, complete, class, kind) == Outcome::Split(n)
        }),
        take_while1_outcome(s, complete, class, kind) matches Outcome::Split(n) ==> n > 0
            && take_while0_outcome(s, complete, class) == Outcome::Split(n),
{
}

/// A line ending is a line feed, or a carriage return followed by a line feed.
pub proof fn lemma_line_ending_output<A: AsChar>(s: Seq<A>, complete: bool)
    ensures
        line_ending_outcome(s, complete) matches Outcome::Split(n) ==> {
            ||| n == 1 && s.len() >= 1 && s[0].spec_as_char() == '\n'
            ||| n == 2 && s.len() >= 2 && s[0].spec_as_char() == '\r' && s[1].spec_as_char()
                == '\n'
        },
        crlf_outcome(s, complete) matches Outcome::Split(n) ==> n == 2 && s.len() >= 2
            && s[0].spec_as_char() == '\r' && s[1].spec_as_char() == '\n',
{
    if compare_outcome(s, lf_chars()) == CompareResult::Match {
        assert(!(s[0].spec_as_char() != lf_chars()[0]));
    }
    if compare_outcome(s, crlf_chars()) == CompareResult::Match {
        assert(!(s[0].spec_as_char() != crlf_chars()[0]));
        assert(!(s[1].spec_as_char() != crlf_chars()[1]));
    }
}

/// A line and its ending: the output of `not_line_ending` holds no carriage
/// return or line feed, and when it stops before the end of the input, a line
/// ending follows it, which `line_ending` recognizes.
pub proof fn lemma_line_then_line_ending<A: AsChar>(s: Seq<A>, complete: bool)
    ensures
        not_line_ending_outcome(s, complete) matches Outcome::Split(n) ==> {
            &&& n <= s.len()
            &&& forall|j: int|
                0 <= j < n ==> !CharClass::LineEnd.spec_contains(#[trigger] s[j])
            &&& n < s.len() ==> (line_ending_outcome(s.skip(n as int), complete) matches Outcome::Split(
                m,
            ) && (m == 1 || m == 2))
        },
{
    lemma_span_len_props(s, CharClass::LineEnd, false);
    let n = span_len(s, CharClass::LineEnd, false);
    if n < s.len() {
        let r = s.skip(n as int);
        assert(r[0] == s[n as int]);
        if s[n as int].spec_as_char() == '\r' {
            assert(r[0].spec_as_char() != lf_chars()[0]);
            assert(compare_outcome(r, lf_chars()) == CompareResult::Mismatch);
        } else {
            assert(s[n as int].spec_as_char() == '\n');
            assert forall|j: int|
                0 <= j < r.len() && j < lf_chars().len() implies #[trigger] r[j].spec_as_char()
                == lf_chars()[j] by {
                assert(j == 0);
            }
            assert(compare_outcome(r, lf_chars()) == CompareResult::Match);
        }
    }
}

/// Octal digits are decimal digits, decimal digits are hexadecimal digits, and
/// no decimal digit is a letter.
pub proof fn lemma_byte_classes_nest(chr: u8)
    ensures
        spec_is_oct_digit(chr) ==> spec_is_digit(chr),
        spec_is_digit(chr) ==> spec_is_hex_digit(chr),
        spec_is_digit(chr) ==> !spec_is_alphabetic(chr),
{
}

/// The classes that do not depend on Unicode tables mean the same on bytes and
/// on characters: an ASCII byte belongs to a class exactly when the character
/// of the same code does.
pub proof fn lemma_char_classes_agree_with_byte_classes(b: u8)
    requires
        b < 0x80,
    ensures
        CharClass::Digit.spec_contains(b as char) == CharClass::Digit.spec_contains(b),
        CharClass::HexDigit.spec_contains(b as char) == CharClass::HexDigit.spec_contains(b),
        CharClass::OctDigit.spec_contains(b as char) == CharClass::OctDigit.spec_contains(b),
        CharClass::Space.spec_contains(b as char) == CharClass::Space.spec_contains(b),
        CharClass::MultiSpace.spec_contains(b as char) == CharClass::MultiSpace.spec_contains(b),
        CharClass::LineEnd.spec_contains(b as char) == CharClass::LineEnd.spec_contains(b),
{
}

/// No character outside ASCII is a decimal, hexadecimal or octal digit.
pub proof fn lemma_digits_are_ascii(c: char)
    requires
        c as u32 >= 0x80,
    ensures
        !CharClass::Digit.spec_contains(c),
        !CharClass::HexDigit.spec_contains(c),
        !CharClass::OctDigit.spec_contains(c),
{
}

/// The digit classes on bytes, by the digits' codes: the decimal digits are the
/// ten codes from that of '0' (0x30); the octal digits the first eight of them;
/// the hexadecimal digits the decimal ones and the six codes from that of 'a'
/// (0x61) and from that of 'A' (0x41).
pub proof fn lemma_byte_digit_classes(b: u8)
    ensures
        CharClass::Digit.spec_contains(b) <==> 0 <= b - 0x30 < 10,
        CharClass::OctDigit.spec_contains(b) <==> 0 <= b - 0x30 < 8,
        CharClass::HexDigit.spec_contains(b) <==> (0 <= b - 0x30 < 10 || 0 <= b - 0x61 < 6 || 0
            <= b - 0x41 < 6),
{
}

/// Octal digits are decimal digits and decimal digits are hexadecimal digits,
/// for characters as for bytes.
pub proof fn lemma_digit_classes_nest(c: char, b: u8)
    ensures
        CharClass::OctDigit.spec_contains(c) ==> CharClass::Digit.spec_contains(c),
        CharClass::Digit.spec_contains(c) ==> CharClass::HexDigit.spec_contains(c),
        CharClass::OctDigit.spec_contains(b) ==> CharClass::Digit.spec_contains(b),
        CharClass::Digit.spec_contains(b) ==> CharClass::HexDigit.spec_contains(b),
{
}

/// The blank classes: `Space` holds exactly the space and the tab, and
/// `MultiSpace` holds exactly what `Space` or `LineEnd` holds; on bytes,
/// `Space` is what `is_space` accepts.
pub proof fn lemma_blank_classes<A: AsChar>(c: A, b: u8)
    ensures
        CharClass::Space.spec_contains(c) <==> (c.spec_as_char() == ' ' || c.spec_as_char()
            == '\t'),
        CharClass::LineEnd.spec_contains(c) <==> (c.spec_as_char() == '\r' || c.spec_as_char()
            == '\n'),
        CharClass::MultiSpace.spec_contains(c) <==> (CharClass::Space.spec_contains(c)
            || CharClass::LineEnd.spec_contains(c)),
        CharClass::Space.spec_contains(b) <==> (b == 0x20 || b == 0x09),
{
}

/// What `not_line_ending` does, by the first carriage return or line feed of
/// the input, at index `m`: when it starts a line ending (a line feed, or a
/// carriage return followed by a line feed) the parser succeeds with the `m`
/// items before it, so an input that starts with its line ending gives an
/// empty line; a carriage return followed by something else is rejected with
/// `Tag`; a carriage return that ends the input asks for more input when the
/// input is streaming and is rejected with `Tag` when it is complete.
pub proof fn lemma_not_line_ending_at_first_line_end<A: AsChar>(
    s: Seq<A>,
    complete: bool,
    m: int,
)
    requires
        0 <= m < s.len(),
        forall|j: int|
            0 <= j < m ==> (#[trigger] s[j]).spec_as_char() != '\r' && s[j].spec_as_char()
                != '\n',
        s[m].spec_as_char() == '\r' || s[m].spec_as_char() == '\n',
    ensures
        s[m].spec_as_char() == '\n' ==> not_line_ending_outcome(s, complete) == Outcome::Split(
            m as nat,
        ),
        (s[m].spec_as_char() == '\r' && m + 1 < s.len() && s[m + 1].spec_as_char() == '\n')
            ==> not_line_ending_outcome(s, complete) == Outcome::Split(m as nat),
        (s[m].spec_as_char() == '\r' && m + 1 < s.len() && s[m + 1].spec_as_char() != '\n')
            ==> not_line_ending_outcome(s, complete) == Outcome::Error(ErrorKind::Tag),
        (s[m].spec_as_char() == '\r' && m + 1 == s.len() && complete) ==> not_line_ending_outcome(
            s,
            complete,
        ) == Outcome::Error(ErrorKind::Tag),
        (s[m].spec_as_char() == '\r' && m + 1 == s.len() && !complete)
            ==> not_line_ending_outcome(s, complete) == Outcome::Incomplete(
            crate::error::Needed::Unknown,
        ),
{
    assert forall|j: int| 0 <= j < m implies CharClass::LineEnd.spec_contains(#[trigger] s[j])
        == false by {
        assert(s[j].spec_as_char() != '\r' && s[j].spec_as_char() != '\n');
    }
    lemma_span_len_is(s, CharClass::LineEnd, false, m);
    let r = s.skip(m);
    assert(r[0] == s[m]);
    if m + 1 < s.len() {
        assert(r[1] == s[m + 1]);
    }
    if s[m].spec_as_char() == '\r' {
        if m + 1 < s.len() && s[m + 1].spec_as_char() == '\n' {
            assert forall|j: int| 0 <= j < r.len() && j < crlf_chars().len() implies #[trigger] r[j].spec_as_char()
                == crlf_chars()[j] by {
                if j == 1 {
                    assert(r[1] == s[m + 1]);
                }
            }
            assert(compare_outcome(r, crlf_chars()) == CompareResult::Match);
        } else if m + 1 < s.len() {
            assert(r[1].spec_as_char() != crlf_chars()[1]);
            assert(compare_outcome(r, crlf_chars()) == CompareResult::Mismatch);
        } else {
            assert forall|j: int| 0 <= j < r.len() && j < crlf_chars().len() implies #[trigger] r[j].spec_as_char()
                == crlf_chars()[j] by {
                assert(j == 0);
            }
            assert(compare_outcome(r, crlf_chars()) == CompareResult::Incomplete);
        }
    }
}

/// What `not_line_ending` does on an input without carriage return or line
/// feed: on a complete input it takes all of it; a streaming one asks for
/// more, since the line may go on.
pub proof fn lemma_not_line_ending_without_line_end<A: AsChar>(s: Seq<A>, complete: bool)
    requires
        forall|j: int|
            0 <= j < s.len() ==> (#[trigger] s[j]).spec_as_char() != '\r' && s[j].spec_as_char()
                != '\n',
    ensures
        complete ==> not_line_ending_outcome(s, complete) == Outcome::Split(s.len()),
        !complete ==> not_line_ending_outcome(s, complete) == Outcome::Incomplete(
            crate::error::Needed::Unknown,
        ),
{
    assert forall|j: int| 0 <= j < s.len() implies CharClass::LineEnd.spec_contains(
        #[trigger] s[j],
    ) == false by {
        assert(s[j].spec_as_char() != '\r' && s[j].spec_as_char() != '\n');
    }
    lemma_span_len_is(s, CharClass::LineEnd, false, s.len() as int);
}

/// What the run parsers do, by the first item `m` outside the class (or the
/// end of the input, `m == s.len()`): the "zero or more" form takes the `m`
/// items before it, and the "one or more" form does the same unless `m` is 0,
/// which it rejects with `kind`; when the run reaches the end of a streaming
/// input both ask for one more item.
pub proof fn lemma_run_outcomes<A: AsChar>(
    s: Seq<A>,
    complete: bool,
    class: CharClass,
    kind: ErrorKind,
    m: int,
)
    requires
        0 <= m <= s.len(),
        forall|j: int| 0 <= j < m ==> class.spec_contains(#[trigger] s[j]),
        m < s.len() ==> !class.spec_contains(s[m]),
    ensures
        take_while0_outcome(s, complete, class) == (if m == s.len() && !complete {
            Outcome::Incomplete(crate::error::Needed::Size(1))
        } else {
            Outcome::Split(m as nat)
        }),
        take_while1_outcome(s, complete, class, kind) == (if m == s.len() && !complete {
            Outcome::Incomplete(crate::error::Needed::Size(1))
        } else if m == 0 {
            Outcome::Error(kind)
        } else {
            Outcome::Split(m as nat)
        }),
{
    lemma_span_len_is(s, class, true, m);
}

/// The letter classes: on bytes the letters are the 26 codes from that of 'A'
/// (0x41) and the 26 from that of 'a' (0x61); for bytes and characters alike,
/// an item is alphanumeric exactly when it is a letter or a decimal digit.
pub proof fn lemma_letter_classes(b: u8, c: char)
    ensures
        CharClass::Alpha.spec_contains(b) <==> (0 <= b - 0x41 < 26 || 0 <= b - 0x61 < 26),
        CharClass::AlphaNumeric.spec_contains(b) <==> (CharClass::Alpha.spec_contains(b)
            || CharClass::Digit.spec_contains(b)),
        CharClass::AlphaNumeric.spec_contains(c) <==> (CharClass::Alpha.spec_contains(c)
            || CharClass::Digit.spec_contains(c)),
{
}

/// What `line_ending` and `crlf` do, by the first two items of the input:
/// `line_ending` takes a leading line feed, or a leading carriage return
/// followed by a line feed; `crlf` takes only the latter. An input that is too
/// short to decide asks for more when it is streaming and is rejected with
/// `CrLf` when it is complete; any other input is rejected with `CrLf`.
pub proof fn lemma_line_ending_outcomes<A: AsChar>(s: Seq<A>, complete: bool)
    ensures
        s.len() >= 1 && s[0].spec_as_char() == '\n' ==> line_ending_outcome(s, complete)
            == Outcome::Split(1) && crlf_outcome(s, complete) == Outcome::Error(ErrorKind::CrLf),
        s.len() >= 2 && s[0].spec_as_char() == '\r' && s[1].spec_as_char() == '\n'
            ==> line_ending_outcome(s, complete) == Outcome::Split(2) && crlf_outcome(s, complete)
            == Outcome::Split(2),
        s.len() >= 2 && s[0].spec_as_char() == '\r' && s[1].spec_as_char() != '\n'
            ==> line_ending_outcome(s, complete) == Outcome::Error(ErrorKind::CrLf) && crlf_outcome(
            s,
            complete,
        ) == Outcome::Error(ErrorKind::CrLf),
        s.len() >= 1 && s[0].spec_as_char() != '\r' && s[0].spec_as_char() != '\n'
            ==> line_ending_outcome(s, complete) == Outcome::Error(ErrorKind::CrLf) && crlf_outcome(
            s,
            complete,
        ) == Outcome::Error(ErrorKind::CrLf),
        s.len() == 0 ==> line_ending_outcome(s, complete) == (if complete {
            Outcome::Error(ErrorKind::CrLf)
        } else {
            Outcome::Incomplete(crate::error::Needed::Size(1))
        }),
        s.len() == 1 && s[0].spec_as_char() == '\r' ==> line_ending_outcome(s, complete) == (
        if complete {
            Outcome::Error(ErrorKind::CrLf)
        } else {
            Outcome::Incomplete(crate::error::Needed::Size(2))
        }) && crlf_outcome(s, complete) == line_ending_outcome(s, complete),
{
    let lf = lf_chars();
    let crlf = crlf_chars();
    if s.len() >= 1 {
        if s[0].spec_as_char() == '\n' {
            assert forall|j: int| 0 <= j < s.len() && j < lf.len() implies #[trigger] s[j].spec_as_char()
                == lf[j] by {
                assert(j == 0);
            }
            assert(compare_outcome(s, lf) == CompareResult::Match);
            assert(s[0].spec_as_char() != crlf[0]);
        } else {
            assert(s[0].spec_as_char() != lf[0]);
            assert(compare_outcome(s, lf) == CompareResult::Mismatch);
            if s[0].spec_as_char() != '\r' {
                assert(s[0].spec_as_char() != crlf[0]);
            } else if s.len() >= 2 {
                if s[1].spec_as_char() == '\n' {
                    assert forall|j: int| 0 <= j < s.len() && j < crlf.len() implies #[trigger] s[j].spec_as_char()
                        == crlf[j] by {
                        assert(j == 0 || j == 1);
                    }
                } else {
                    assert(s[1].spec_as_char() != crlf[1]);
                }
            } else {
                assert forall|j: int| 0 <= j < s.len() && j < crlf.len() implies #[trigger] s[j].spec_as_char()
                    == crlf[j] by {
                    assert(j == 0);
                }
                assert(compare_outcome(s, crlf) == CompareResult::Incomplete);
            }
        }
    }
}

} // verus!
