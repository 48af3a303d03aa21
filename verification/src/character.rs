//! Parsers of characters, line endings and runs of characters of one class.
use vstd::prelude::*;
use crate::error::{ErrorKind, IResult, Needed, ParseErr, ParseError};
use crate::input::{AsChar, CharClass, FindToken, Input, is_first_position};

verus! {

// ---------------------------------------------------------------------------
// What a parser does, stated over the items of its input.
// ---------------------------------------------------------------------------

/// What a parser does with an input, independent of the input's type.
pub enum Outcome {
    /// It succeeds, having consumed the first `n` items.
    Split(nat),
    /// It needs more input.
    Incomplete(Needed),
    /// It rejects the input, with the error built from this kind.
    Error(ErrorKind),
    /// It rejects the input, which did not start with this character.
    Mismatch(char),
}

/// The length of the longest prefix of `s` whose items' membership in `class` is `member`.
pub open spec fn span_len<A: AsChar>(s: Seq<A>, class: CharClass, member: bool) -> nat
    decreases s.len(),
{
    if s.len() == 0 {
        0
    } else if class.spec_contains(s[0]) == member {
        1 + span_len(s.drop_first(), class, member)
    } else {
        0
    }
}

/// A streaming input that runs out asks for more; a complete one fails with `kind`.
pub open spec fn need_more_outcome(complete: bool, needed: Needed, kind: ErrorKind) -> Outcome {
    if complete {
        Outcome::Error(kind)
    } else {
        Outcome::Incomplete(needed)
    }
}

/// Zero or more items of `class`.
pub open spec fn take_while0_outcome<A: AsChar>(
    s: Seq<A>,
    complete: bool,
    class: CharClass,
) -> Outcome {
    let n = span_len(s, class, true);
    if n == s.len() && !complete {
        Outcome::Incomplete(Needed::Size(1))
    } else {
        Outcome::Split(n)
    }
}

/// One or more items of `class`; an empty run fails with `kind`.
pub open spec fn take_while1_outcome<A: AsChar>(
    s: Seq<A>,
    complete: bool,
    class: CharClass,
    kind: ErrorKind,
) -> Outcome {
    let n = span_len(s, class, true);
    if n == s.len() && !complete {
        Outcome::Incomplete(Needed::Size(1))
    } else if n == 0 {
        Outcome::Error(kind)
    } else {
        Outcome::Split(n)
    }
}

/// How the items of `s`, read as characters, compare with `tag`.
#[derive(Debug, PartialEq, Eq, Clone, Copy)]
pub enum CompareResult {
    /// `s` starts with `tag`.
    Match,
    /// `s` is a proper prefix of `tag`.
    Incomplete,
    /// `s` and `tag` differ at a position that both have.
    Mismatch,
}

pub open spec fn compare_outcome<A: AsChar>(s: Seq<A>, tag: Seq<char>) -> CompareResult {
    if exists|j: int|
        0 <= j < s.len() && j < tag.len() && #[trigger] s[j].spec_as_char() != tag[j] {
        CompareResult::Mismatch
    } else if s.len() < tag.len() {
        CompareResult::Incomplete
    } else {
        CompareResult::Match
    }
}

pub open spec fn crlf_chars() -> Seq<char> {
    seq!['\r', '\n']
}

pub open spec fn lf_chars() -> Seq<char> {
    seq!['\n']
}

/// A carriage return followed by a line feed.
pub open spec fn crlf_outcome<A: AsChar>(s: Seq<A>, complete: bool) -> Outcome {
    match compare_outcome(s, crlf_chars()) {
        CompareResult::Match => Outcome::Split(2),
        CompareResult::Incomplete => need_more_outcome(complete, Needed::Size(2), ErrorKind::CrLf),
        CompareResult::Mismatch => Outcome::Error(ErrorKind::CrLf),
    }
}

/// A line feed, or a carriage return followed by a line feed.
pub open spec fn line_ending_outcome<A: AsChar>(s: Seq<A>, complete: bool) -> Outcome {
    match compare_outcome(s, lf_chars()) {
        CompareResult::Match => Outcome::Split(1),
        CompareResult::Incomplete => need_more_outcome(complete, Needed::Size(1), ErrorKind::CrLf),
        CompareResult::Mismatch => crlf_outcome(s, complete),
    }
}

/// Everything up to the first line feed or carriage return-line feed; a lone
/// carriage return is rejected.
pub open spec fn not_line_ending_outcome<A: AsChar>(s: Seq<A>, complete: bool) -> Outcome {
    let n = span_len(s, CharClass::LineEnd, false);
    if n == s.len() {
        if complete {
            Outcome::Split(n)
        } else {
            Outcome::Incomplete(Needed::Unknown)
        }
    } else if s[n as int].spec_as_char() == '\r' {
        match compare_outcome(s.skip(n as int), crlf_chars()) {
            CompareResult::Match => Outcome::Split(n),
            CompareResult::Incomplete => need_more_outcome(complete, Needed::Unknown, ErrorKind::Tag),
            CompareResult::Mismatch => Outcome::Error(ErrorKind::Tag),
        }
    } else {
        Outcome::Split(n)
    }
}

/// The character `c`, which takes `width` items when it matches the first item.
pub open spec fn char_outcome<A: AsChar>(s: Seq<A>, complete: bool, c: char, width: nat) -> Outcome {
    if s.len() == 0 {
        need_more_outcome(complete, Needed::Size(1), ErrorKind::Eof)
    } else if s[0].spec_as_char() == c {
        Outcome::Split(width)
    } else {
        Outcome::Mismatch(c)
    }
}

/// One item, accepted when `accepts` holds of it and rejected with `kind` otherwise.
pub open spec fn one_item_outcome<A: AsChar>(
    s: Seq<A>,
    complete: bool,
    accepts: bool,
    kind: ErrorKind,
) -> Outcome {
    if s.len() == 0 {
        need_more_outcome(complete, Needed::Size(1), ErrorKind::Eof)
    } else if accepts {
        Outcome::Split(1)
    } else {
        Outcome::Error(kind)
    }
}

/// `out` holds the first `n` items of `input` and `rest` the others.
pub open spec fn splits_at<T: Input>(input: T, rest: T, out: T, n: nat) -> bool {
    &&& n <= input.items().len()
    &&& out.items() == input.items().take(n as int)
    &&& rest.items() == input.items().skip(n as int)
    &&& out.items() + rest.items() == input.items()
    &&& out.is_complete() == input.is_complete()
    &&& rest.is_complete() == input.is_complete()
}

/// `res` is the failure that `o` describes for `input`.
pub open spec fn fails_as<T, O, E: ParseError<T>>(input: T, res: IResult<T, O, E>, o: Outcome) -> bool {
    match o {
        Outcome::Split(_) => false,
        Outcome::Incomplete(needed) => res == Err::<(T, O), ParseErr<E>>(ParseErr::Incomplete(needed)),
        Outcome::Error(kind) => res == Err::<(T, O), ParseErr<E>>(
            ParseErr::Error(E::spec_from_error_kind(input, kind)),
        ),
        Outcome::Mismatch(c) => res == Err::<(T, O), ParseErr<E>>(
            ParseErr::Error(E::spec_from_char(input, c)),
        ),
    }
}

/// `res` is what a parser whose output is a part of its input returns when it does `o`.
pub open spec fn recognizes<T: Input, E: ParseError<T>>(
    input: T,
    res: IResult<T, T, E>,
    o: Outcome,
) -> bool {
    match o {
        Outcome::Split(n) => res matches Ok((rest, out)) && splits_at(input, rest, out, n),
        _ => fails_as(input, res, o),
    }
}

/// `res` is what a parser whose output is the character `c` returns when it does `o`.
pub open spec fn reads_char<T: Input, E: ParseError<T>>(
    input: T,
    res: IResult<T, char, E>,
    o: Outcome,
    c: char,
) -> bool {
    match o {
        Outcome::Split(n) => res matches Ok((rest, out)) && {
            &&& n <= input.items().len()
            &&& out == c
            &&& rest.items() == input.items().skip(n as int)
            &&& rest.is_complete() == input.is_complete()
        },
        _ => fails_as(input, res, o),
    }
}


// ---------------------------------------------------------------------------
// Facts about runs.
// ---------------------------------------------------------------------------

/// A prefix of length `n` whose items all have membership `member`, followed by
/// the end of `s` or by an item that does not, is the longest such prefix.
pub proof fn lemma_span_len_is<A: AsChar>(s: Seq<A>, class: CharClass, member: bool, n: int)
    requires
        0 <= n <= s.len(),
        forall|j: int| 0 <= j < n ==> class.spec_contains(#[trigger] s[j]) == member,
        n < s.len() ==> class.spec_contains(s[n]) != member,
    ensures
        span_len(s, class, member) == n,
    decreases n,
{
    if n > 0 {
        let t = s.drop_first();
        assert forall|j: int| 0 <= j < n - 1 implies class.spec_contains(#[trigger] t[j]) == member by {
            assert(t[j] == s[j + 1]);
        }
        if n - 1 < t.len() {
            assert(t[n - 1] == s[n]);
        }
        assert(class.spec_contains(s[0]) == member);
        lemma_span_len_is(t, class, member, n - 1);
    }
}

/// The longest prefix of `s` whose items have membership `member` is no longer
/// than `s`, all of its items have that membership, and the item after it does not.
pub proof fn lemma_span_len_props<A: AsChar>(s: Seq<A>, class: CharClass, member: bool)
    ensures
        span_len(s, class, member) <= s.len(),
        forall|j: int|
            0 <= j < span_len(s, class, member) ==> class.spec_contains(#[trigger] s[j])
                == member,
        span_len(s, class, member) < s.len() ==> class.spec_contains(
            s[span_len(s, class, member) as int],
        ) != member,
    decreases s.len(),
{
    if s.len() > 0 && class.spec_contains(s[0]) == member {
        let t = s.drop_first();
        lemma_span_len_props(t, class, member);
        assert forall|j: int| 0 <= j < span_len(s, class, member) implies class.spec_contains(
            #[trigger] s[j],
        ) == member by {
            if j > 0 {
                assert(s[j] == t[j - 1]);
            }
        }
        if span_len(s, class, member) < s.len() {
            assert(s[span_len(s, class, member) as int] == t[span_len(t, class, member) as int]);
        }
    }
}

proof fn lemma_first_position_is_span<A: AsChar>(
    s: Seq<A>,
    class: CharClass,
    member: bool,
    r: Option<usize>,
)
    requires
        is_first_position(s, class, !member, r),
    ensures
        r matches Some(n) ==> span_len(s, class, member) == n,
        r is None ==> span_len(s, class, member) == s.len(),
{
    match r {
        Some(n) => lemma_span_len_is(s, class, member, n as int),
        None => lemma_span_len_is(s, class, member, s.len() as int),
    }
}

// ---------------------------------------------------------------------------
// Building blocks.
// ---------------------------------------------------------------------------

/// Fails for want of input: with `needed` on a streaming input, with an error
/// of kind `Eof` on a complete one.
pub fn need_more<T: Input, O, E: ParseError<T>>(input: T, needed: Needed) -> (res: IResult<T, O, E>)
    ensures
        fails_as(input, res, need_more_outcome(input.is_complete(), needed, ErrorKind::Eof)),
{
    if input.at_eof() {
        Err(ParseErr::Error(E::from_error_kind(input, ErrorKind::Eof)))
    } else {
        Err(ParseErr::Incomplete(needed))
    }
}

/// Fails for want of input: with `needed` on a streaming input, with an error
/// of kind `kind` on a complete one.
pub fn need_more_err<T: Input, O, E: ParseError<T>>(
    input: T,
    needed: Needed,
    kind: ErrorKind,
) -> (res: IResult<T, O, E>)
    ensures
        fails_as(input, res, need_more_outcome(input.is_complete(), needed, kind)),
{
    if input.at_eof() {
        Err(ParseErr::Error(E::from_error_kind(input, kind)))
    } else {
        Err(ParseErr::Incomplete(needed))
    }
}

/// Compares the items of `input`, read as characters, with `tag`.
pub fn compare<T: Input>(input: &T, tag: &str) -> (r: CompareResult)
    ensures
        r == compare_outcome(input.items(), tag@),
{
    let len = input.input_len();
    let tlen = tag.unicode_len();
    let m = if len < tlen {
        len
    } else {
        tlen
    };
    let mut j: usize = 0;
    while j < m
        invariant
            len == input.items().len(),
            tlen == tag@.len(),
            m <= len,
            m <= tlen,
            m == len || m == tlen,
            j <= m,
            forall|k: int| 0 <= k < j ==> #[trigger] input.items()[k].spec_as_char() == tag@[k],
        decreases m - j,
    {
        if input.item_at(j).as_char() != tag.get_char(j) {
            assert(input.items()[j as int].spec_as_char() != tag@[j as int]);
            return CompareResult::Mismatch;
        }
        j = j + 1;
    }
    if m < tlen {
        CompareResult::Incomplete
    } else {
        CompareResult::Match
    }
}

/// The items before the first one outside `class`; the whole input if it is
/// complete and has no such item.
pub fn take_while0<T: Input, E: ParseError<T>>(input: T, class: CharClass) -> (res: IResult<T, T, E>)
    ensures
        recognizes(input, res, take_while0_outcome(input.items(), input.is_complete(), class)),
{
    let r = input.position_in_class(class, false);
    proof {
        lemma_first_position_is_span(input.items(), class, true, r);
    }
    let len = input.input_len();
    match r {
        Some(n) => {
            let rest = input.slice_range(n, len);
            let out = input.slice_range(0, n);
            assert(out.items() + rest.items() =~= input.items());
            Ok((rest, out))
        },
        None => {
            if input.at_eof() {
                let rest = input.slice_range(len, len);
                let out = input.slice_range(0, len);
                assert(out.items() + rest.items() =~= input.items());
                Ok((rest, out))
            } else {
                Err(ParseErr::Incomplete(Needed::Size(1)))
            }
        },
    }
}

/// As `take_while0`, but an empty run is rejected with `kind`.
pub fn take_while1<T: Input, E: ParseError<T>>(
    input: T,
    class: CharClass,
    kind: ErrorKind,
) -> (res: IResult<T, T, E>)
    ensures
        recognizes(
            input,
            res,
            take_while1_outcome(input.items(), input.is_complete(), class, kind),
        ),
{
    let r = input.position_in_class(class, false);
    proof {
        lemma_first_position_is_span(input.items(), class, true, r);
    }
    let len = input.input_len();
    match r {
        Some(n) => {
            if n == 0 {
                Err(ParseErr::Error(E::from_error_kind(input, kind)))
            } else {
                let rest = input.slice_range(n, len);
                let out = input.slice_range(0, n);
                assert(out.items() + rest.items() =~= input.items());
                Ok((rest, out))
            }
        },
        None => {
            if input.at_eof() {
                if len == 0 {
                    Err(ParseErr::Error(E::from_error_kind(input, kind)))
                } else {
                    let rest = input.slice_range(len, len);
                    let out = input.slice_range(0, len);
                    assert(out.items() + rest.items() =~= input.items());
                    Ok((rest, out))
                }
            } else {
                Err(ParseErr::Incomplete(Needed::Size(1)))
            }
        },
    }
}

// ---------------------------------------------------------------------------
// Single characters.
// ---------------------------------------------------------------------------

/// When the first item of `input` is `c`, the input holds the items that `c`
/// takes; on byte inputs a character above 0x7F takes two.
pub open spec fn char_fits<T: Input>(c: char, input: T) -> bool {
    input.items().len() > 0 && input.items()[0].spec_as_char() == c ==> T::spec_char_width(c)
        <= input.items().len()
}

/// What the parser of the character `c` returns for `input`.
pub open spec fn char_parses<T: Input, E: ParseError<T>>(
    c: char,
    input: T,
    res: IResult<T, char, E>,
) -> bool {
    reads_char(
        input,
        res,
        char_outcome(input.items(), input.is_complete(), c, T::spec_char_width(c)),
        c,
    )
}

fn char_parse<T: Input, E: ParseError<T>>(c: char, input: T) -> (res: IResult<T, char, E>)
    requires
        char_fits(c, input),
    ensures
        char_parses(c, input, res),
{
    let len = input.input_len();
    if len == 0 {
        return need_more(input, Needed::Size(1));
    }
    let t = input.item_at(0);
    if t.as_char() == c {
        let w = T::char_width(c);
        Ok((input.slice_range(w, len), c))
    } else {
        Err(ParseErr::Error(E::from_char(input, c)))
    }
}

/// Recognizes the character `c`.
pub fn char<T: Input, E: ParseError<T>>(c: char) -> (f: impl Fn(T) -> IResult<T, char, E>)
    ensures
        forall|input: T| char_fits(c, input) ==> #[trigger] f.requires((input,)),
        forall|input: T, res: IResult<T, char, E>|
            #[trigger] f.ensures((input,), res) ==> char_parses(c, input, res),
{
    move |input: T| -> (res: IResult<T, char, E>)
        requires
            char_fits(c, input),
        ensures
            char_parses(c, input, res),
        { char_parse(c, input) }
}

/// Matches a newline character '\n'
pub fn newline<'a>(input: &'a [u8]) -> (res: IResult<&'a [u8], char>)
    ensures
        reads_char(input, res, char_outcome(input@, false, '\n', 1), '\n'),
{
    char_parse('\n', input)
}

/// Matches a tab character '\t'
pub fn tab<'a>(input: &'a [u8]) -> (res: IResult<&'a [u8], char>)
    ensures
        reads_char(input, res, char_outcome(input@, false, '\t', 1), '\t'),
{
    char_parse('\t', input)
}

/// The first item of `s` read as a character (meaningful when `s` is not empty).
pub open spec fn first_char<A: AsChar>(s: Seq<A>) -> char {
    s[0].spec_as_char()
}

/// What the parser of one item of `list` returns for `input`.
pub open spec fn one_of_parses<T: Input, L: FindToken<T::Item>, E: ParseError<T>>(
    list: L,
    input: T,
    res: IResult<T, char, E>,
) -> bool {
    reads_char(
        input,
        res,
        one_item_outcome(
            input.items(),
            input.is_complete(),
            input.items().len() > 0 && list.spec_find_token(input.items()[0]),
            ErrorKind::OneOf,
        ),
        first_char(input.items()),
    )
}

/// What the parser of one item outside `list` returns for `input`.
pub open spec fn none_of_parses<T: Input, L: FindToken<T::Item>, E: ParseError<T>>(
    list: L,
    input: T,
    res: IResult<T, char, E>,
) -> bool {
    reads_char(
        input,
        res,
        one_item_outcome(
            input.items(),
            input.is_complete(),
            input.items().len() > 0 && !list.spec_find_token(input.items()[0]),
            ErrorKind::NoneOf,
        ),
        first_char(input.items()),
    )
}

fn one_of_parse<T: Input, L: FindToken<T::Item>, E: ParseError<T>>(
    list: &L,
    input: T,
    inside: bool,
) -> (res: IResult<T, char, E>)
    ensures
        inside ==> one_of_parses(*list, input, res),
        !inside ==> none_of_parses(*list, input, res),
{
    let len = input.input_len();
    if len == 0 {
        return need_more(input, Needed::Size(1));
    }
    let c = input.item_at(0);
    if list.find_token(c) == inside {
        Ok((input.slice_range(1, len), c.as_char()))
    } else if inside {
        Err(ParseErr::Error(E::from_error_kind(input, ErrorKind::OneOf)))
    } else {
        Err(ParseErr::Error(E::from_error_kind(input, ErrorKind::NoneOf)))
    }
}

/// Recognizes one item that `list` holds, and returns it as a character.
pub fn one_of<T: Input, L: FindToken<T::Item>, E: ParseError<T>>(list: L) -> (f: impl Fn(
    T,
) -> IResult<T, char, E>)
    ensures
        forall|input: T| #[trigger] f.requires((input,)),
        forall|input: T, res: IResult<T, char, E>|
            #[trigger] f.ensures((input,), res) ==> one_of_parses(list, input, res),
{
    move |input: T| -> (res: IResult<T, char, E>)
        ensures
            one_of_parses(list, input, res),
        { one_of_parse(&list, input, true) }
}

/// Recognizes one item that `list` does not hold, and returns it as a character.
pub fn none_of<T: Input, L: FindToken<T::Item>, E: ParseError<T>>(list: L) -> (f: impl Fn(
    T,
) -> IResult<T, char, E>)
    ensures
        forall|input: T| #[trigger] f.requires((input,)),
        forall|input: T, res: IResult<T, char, E>|
            #[trigger] f.ensures((input,), res) ==> none_of_parses(list, input, res),
{
    move |input: T| -> (res: IResult<T, char, E>)
        ensures
            none_of_parses(list, input, res),
        { one_of_parse(&list, input, false) }
}

// ---------------------------------------------------------------------------
// Line endings.
// ---------------------------------------------------------------------------

/// Recognizes a carriage return followed by a line feed.
pub fn crlf<T: Input, E: ParseError<T>>(input: T) -> (res: IResult<T, T, E>)
    ensures
        recognizes(input, res, crlf_outcome(input.items(), input.is_complete())),
{
    proof {
        reveal_strlit("\r\n");
    }
    assert("\r\n"@ =~= crlf_chars());
    match compare(&input, "\r\n") {
        CompareResult::Match => {
            let len = input.input_len();
            let rest = input.slice_range(2, len);
            let out = input.slice_range(0, 2);
            assert(out.items() + rest.items() =~= input.items());
            Ok((rest, out))
        },
        CompareResult::Incomplete => need_more_err(input, Needed::Size(2), ErrorKind::CrLf),
        CompareResult::Mismatch => Err(ParseErr::Error(E::from_error_kind(input, ErrorKind::CrLf))),
    }
}

/// Recognizes everything up to the first line ending: a line feed, or a
/// carriage return followed by a line feed. A carriage return not followed by
/// a line feed is rejected.
pub fn not_line_ending<T: Input, E: ParseError<T>>(input: T) -> (res: IResult<T, T, E>)
    ensures
        recognizes(input, res, not_line_ending_outcome(input.items(), input.is_complete())),
{
    let r = input.position_in_class(CharClass::LineEnd, true);
    proof {
        lemma_first_position_is_span(input.items(), CharClass::LineEnd, false, r);
    }
    let len = input.input_len();
    match r {
        None => {
            if input.at_eof() {
                let rest = input.slice_range(len, len);
                assert(input.items().take(len as int) =~= input.items());
                assert(input.items() + rest.items() =~= input.items());
                Ok((rest, input))
            } else {
                Err(ParseErr::Incomplete(Needed::Unknown))
            }
        },
        Some(index) => {
            let nth = input.item_at(index).as_char();
            if nth == '\r' {
                let sliced = input.slice_range(index, len);
                proof {
                    reveal_strlit("\r\n");
                }
                assert("\r\n"@ =~= crlf_chars());
                assert(sliced.items() =~= input.items().skip(index as int));
                match compare(&sliced, "\r\n") {
                    CompareResult::Incomplete => need_more_err(
                        input,
                        Needed::Unknown,
                        ErrorKind::Tag,
                    ),
                    CompareResult::Mismatch => Err(
                        ParseErr::Error(E::from_error_kind(input, ErrorKind::Tag)),
                    ),
                    CompareResult::Match => {
                        let rest = input.slice_range(index, len);
                        let out = input.slice_range(0, index);
                        assert(out.items() + rest.items() =~= input.items());
                        Ok((rest, out))
                    },
                }
            } else {
                let rest = input.slice_range(index, len);
                let out = input.slice_range(0, index);
                assert(out.items() + rest.items() =~= input.items());
                Ok((rest, out))
            }
        },
    }
}

/// Recognizes an end of line (both '\n' and '\r\n')
pub fn line_ending<T: Input, E: ParseError<T>>(input: T) -> (res: IResult<T, T, E>)
    ensures
        recognizes(input, res, line_ending_outcome(input.items(), input.is_complete())),
{
    proof {
        reveal_strlit("\n");
    }
    assert("\n"@ =~= lf_chars());
    match compare(&input, "\n") {
        CompareResult::Match => {
            let len = input.input_len();
            let rest = input.slice_range(1, len);
            let out = input.slice_range(0, 1);
            assert(out.items() + rest.items() =~= input.items());
            Ok((rest, out))
        },
        CompareResult::Incomplete => need_more_err(input, Needed::Size(1), ErrorKind::CrLf),
        CompareResult::Mismatch => crlf(input),
    }
}

/// Recognizes an end of line (both '\n' and '\r\n'); the same parser as `line_ending`.
pub fn eol<T: Input, E: ParseError<T>>(input: T) -> (res: IResult<T, T, E>)
    ensures
        recognizes(input, res, line_ending_outcome(input.items(), input.is_complete())),
{
    line_ending(input)
}

// ---------------------------------------------------------------------------
// Runs of characters of one class.
// ---------------------------------------------------------------------------

/// Recognizes zero or more lowercase and uppercase alphabetic characters.
/// For ASCII strings: a-zA-Z
/// For UTF8 strings, any alphabetic code point (ie, not only the ASCII ones)
pub fn alpha0<T: Input, E: ParseError<T>>(input: T) -> (res: IResult<T, T, E>)
    ensures
        recognizes(
            input,
            res,
            take_while0_outcome(input.items(), input.is_complete(), CharClass::Alpha),
        ),
{
    take_while0(input, CharClass::Alpha)
}

/// Recognizes one or more lowercase and uppercase alphabetic characters.
/// For ASCII strings: a-zA-Z
/// For UTF8 strings, any alphabetic code point (ie, not only the ASCII ones)
pub fn alpha1<T: Input, E: ParseError<T>>(input: T) -> (res: IResult<T, T, E>)
    ensures
        recognizes(
            input,
            res,
            take_while1_outcome(
                input.items(),
                input.is_complete(),
                CharClass::Alpha,
                ErrorKind::Alpha,
            ),
        ),
{
    take_while1(input, CharClass::Alpha, ErrorKind::Alpha)
}

/// Recognizes one or more lowercase and uppercase alphabetic characters.
/// For ASCII strings: a-zA-Z
/// For UTF8 strings, any alphabetic code point (ie, not only the ASCII ones)
/// The same parser as `alpha1`.
pub fn alpha<T: Input, E: ParseError<T>>(input: T) -> (res: IResult<T, T, E>)
    ensures
        recognizes(
            input,
            res,
            take_while1_outcome(
                input.items(),
                input.is_complete(),
                CharClass::Alpha,
                ErrorKind::Alpha,
            ),
        ),
{
    alpha1(input)
}

/// Recognizes zero or more numerical characters: 0-9
pub fn digit0<T: Input, E: ParseError<T>>(input: T) -> (res: IResult<T, T, E>)
    ensures
        recognizes(
            input,
            res,
            take_while0_outcome(input.items(), input.is_complete(), CharClass::Digit),
        ),
{
    take_while0(input, CharClass::Digit)
}

/// Recognizes one or more numerical characters: 0-9
pub fn digit1<T: Input, E: ParseError<T>>(input: T) -> (res: IResult<T, T, E>)
    ensures
        recognizes(
            input,
            res,
            take_while1_outcome(
                input.items(),
                input.is_complete(),
                CharClass::Digit,
                ErrorKind::Digit,
            ),
        ),
{
    take_while1(input, CharClass::Digit, ErrorKind::Digit)
}

/// Recognizes one or more numerical characters: 0-9
/// The same parser as `digit1`.
pub fn digit<T: Input, E: ParseError<T>>(input: T) -> (res: IResult<T, T, E>)
    ensures
        recognizes(
            input,
            res,
            take_while1_outcome(
                input.items(),
                input.is_complete(),
                CharClass::Digit,
                ErrorKind::Digit,
            ),
        ),
{
    digit1(input)
}

/// Recognizes zero or more hexadecimal numerical characters: 0-9, A-F, a-f
pub fn hex_digit0<T: Input, E: ParseError<T>>(input: T) -> (res: IResult<T, T, E>)
    ensures
        recognizes(
            input,
            res,
            take_while0_outcome(input.items(), input.is_complete(), CharClass::HexDigit),
        ),
{
    take_while0(input, CharClass::HexDigit)
}

/// Recognizes one or more hexadecimal numerical characters: 0-9, A-F, a-f
pub fn hex_digit1<T: Input, E: ParseError<T>>(input: T) -> (res: IResult<T, T, E>)
    ensures
        recognizes(
            input,
            res,
            take_while1_outcome(
                input.items(),
                input.is_complete(),
                CharClass::HexDigit,
                ErrorKind::HexDigit,
            ),
        ),
{
    take_while1(input, CharClass::HexDigit, ErrorKind::HexDigit)
}

/// Recognizes one or more hexadecimal numerical characters: 0-9, A-F, a-f
/// The same parser as `hex_digit1`.
pub fn hex_digit<T: Input, E: ParseError<T>>(input: T) -> (res: IResult<T, T, E>)
    ensures
        recognizes(
            input,
            res,
            take_while1_outcome(
                input.items(),
                input.is_complete(),
                CharClass::HexDigit,
                ErrorKind::HexDigit,
            ),
        ),
{
    hex_digit1(input)
}

/// Recognizes zero or more octal characters: 0-7
pub fn oct_digit0<T: Input, E: ParseError<T>>(input: T) -> (res: IResult<T, T, E>)
    ensures
        recognizes(
            input,
            res,
            take_while0_outcome(input.items(), input.is_complete(), CharClass::OctDigit),
        ),
{
    take_while0(input, CharClass::OctDigit)
}

/// Recognizes one or more octal characters: 0-7
pub fn oct_digit1<T: Input, E: ParseError<T>>(input: T) -> (res: IResult<T, T, E>)
    ensures
        recognizes(
            input,
            res,
            take_while1_outcome(
                input.items(),
                input.is_complete(),
                CharClass::OctDigit,
                ErrorKind::OctDigit,
            ),
        ),
{
    take_while1(input, CharClass::OctDigit, ErrorKind::OctDigit)
}

/// Recognizes one or more octal characters: 0-7
/// The same parser as `oct_digit1`.
pub fn oct_digit<T: Input, E: ParseError<T>>(input: T) -> (res: IResult<T, T, E>)
    ensures
        recognizes(
            input,
            res,
            take_while1_outcome(
                input.items(),
                input.is_complete(),
                CharClass::OctDigit,
                ErrorKind::OctDigit,
            ),
        ),
{
    oct_digit1(input)
}

/// Recognizes zero or more numerical and alphabetic characters.
/// For ASCII strings: 0-9a-zA-Z
/// For UTF8 strings, 0-9 and any alphabetic code point (ie, not only the ASCII ones)
pub fn alphanumeric0<T: Input, E: ParseError<T>>(input: T) -> (res: IResult<T, T, E>)
    ensures
        recognizes(
            input,
            res,
            take_while0_outcome(input.items(), input.is_complete(), CharClass::AlphaNumeric),
        ),
{
    take_while0(input, CharClass::AlphaNumeric)
}

/// Recognizes one or more numerical and alphabetic characters.
/// For ASCII strings: 0-9a-zA-Z
/// For UTF8 strings, 0-9 and any alphabetic code point (ie, not only the ASCII ones)
pub fn alphanumeric1<T: Input, E: ParseError<T>>(input: T) -> (res: IResult<T, T, E>)
    ensures
        recognizes(
            input,
            res,
            take_while1_outcome(
                input.items(),
                input.is_complete(),
                CharClass::AlphaNumeric,
                ErrorKind::AlphaNumeric,
            ),
        ),
{
    take_while1(input, CharClass::AlphaNumeric, ErrorKind::AlphaNumeric)
}

/// Recognizes one or more numerical and alphabetic characters.
/// For ASCII strings: 0-9a-zA-Z
/// For UTF8 strings, 0-9 and any alphabetic code point (ie, not only the ASCII ones)
/// The same parser as `alphanumeric1`.
pub fn alphanumeric<T: Input, E: ParseError<T>>(input: T) -> (res: IResult<T, T, E>)
    ensures
        recognizes(
            input,
            res,
            take_while1_outcome(
                input.items(),
                input.is_complete(),
                CharClass::AlphaNumeric,
                ErrorKind::AlphaNumeric,
            ),
        ),
{
    alphanumeric1(input)
}

/// Recognizes zero or more spaces and tabs
pub fn space0<T: Input, E: ParseError<T>>(input: T) -> (res: IResult<T, T, E>)
    ensures
        recognizes(
            input,
            res,
            take_while0_outcome(input.items(), input.is_complete(), CharClass::Space),
        ),
{
    take_while0(input, CharClass::Space)
}

/// Recognizes one or more spaces and tabs
pub fn space1<T: Input, E: ParseError<T>>(input: T) -> (res: IResult<T, T, E>)
    ensures
        recognizes(
            input,
            res,
            take_while1_outcome(
                input.items(),
                input.is_complete(),
                CharClass::Space,
                ErrorKind::Space,
            ),
        ),
{
    take_while1(input, CharClass::Space, ErrorKind::Space)
}

/// Recognizes one or more spaces and tabs
/// The same parser as `space1`.
pub fn space<T: Input, E: ParseError<T>>(input: T) -> (res: IResult<T, T, E>)
    ensures
        recognizes(
            input,
            res,
            take_while1_outcome(
                input.items(),
                input.is_complete(),
                CharClass::Space,
                ErrorKind::Space,
            ),
        ),
{
    space1(input)
}

/// Recognizes zero or more spaces, tabs, carriage returns and line feeds
pub fn multispace0<T: Input, E: ParseError<T>>(input: T) -> (res: IResult<T, T, E>)
    ensures
        recognizes(
            input,
            res,
            take_while0_outcome(input.items(), input.is_complete(), CharClass::MultiSpace),
        ),
{
    take_while0(input, CharClass::MultiSpace)
}

/// Recognizes one or more spaces, tabs, carriage returns and line feeds
pub fn multispace1<T: Input, E: ParseError<T>>(input: T) -> (res: IResult<T, T, E>)
    ensures
        recognizes(
            input,
            res,
            take_while1_outcome(
                input.items(),
                input.is_complete(),
                CharClass::MultiSpace,
                ErrorKind::MultiSpace,
            ),
        ),
{
    take_while1(input, CharClass::MultiSpace, ErrorKind::MultiSpace)
}

/// Recognizes one or more spaces, tabs, carriage returns and line feeds
/// The same parser as `multispace1`.
pub fn multispace<T: Input, E: ParseError<T>>(input: T) -> (res: IResult<T, T, E>)
    ensures
        recognizes(
            input,
            res,
            take_while1_outcome(
                input.items(),
                input.is_complete(),
                CharClass::MultiSpace,
                ErrorKind::MultiSpace,
            ),
        ),
{
    multispace1(input)
}

/// ASCII letters: A-Z, a-z.
pub open spec fn spec_is_alphabetic(chr: u8) -> bool {
    ('A' as u8 <= chr <= 'Z' as u8) || ('a' as u8 <= chr <= 'z' as u8)
}

/// ASCII decimal digits: 0-9.
pub open spec fn spec_is_digit(chr: u8) -> bool {
    '0' as u8 <= chr <= '9' as u8
}

/// ASCII hexadecimal digits: 0-9, A-F, a-f.
pub open spec fn spec_is_hex_digit(chr: u8) -> bool {
    ||| '0' as u8 <= chr <= '9' as u8
    ||| 'A' as u8 <= chr <= 'F' as u8
    ||| 'a' as u8 <= chr <= 'f' as u8
}

/// ASCII octal digits: 0-7.
pub open spec fn spec_is_oct_digit(chr: u8) -> bool {
    '0' as u8 <= chr <= '7' as u8
}

/// Tests if byte is ASCII alphabetic: A-Z, a-z
pub fn is_alphabetic(chr: u8) -> (b: bool)
    ensures
        b == spec_is_alphabetic(chr),
{
    (chr >= 0x41 && chr <= 0x5A) || (chr >= 0x61 && chr <= 0x7A)
}

/// Tests if byte is ASCII digit: 0-9
pub fn is_digit(chr: u8) -> (b: bool)
    ensures
        b == spec_is_digit(chr),
{
    chr >= 0x30 && chr <= 0x39
}

/// Tests if byte is ASCII hex digit: 0-9, A-F, a-f
pub fn is_hex_digit(chr: u8) -> (b: bool)
    ensures
        b == spec_is_hex_digit(chr),
{
    (chr >= 0x30 && chr <= 0x39) || (chr >= 0x41 && chr <= 0x46) || (chr >= 0x61 && chr <= 0x66)
}

/// Tests if byte is ASCII octal digit: 0-7
pub fn is_oct_digit(chr: u8) -> (b: bool)
    ensures
        b == spec_is_oct_digit(chr),
{
    chr >= 0x30 && chr <= 0x37
}

/// Tests if byte is ASCII alphanumeric: A-Z, a-z, 0-9
pub fn is_alphanumeric(chr: u8) -> (b: bool)
    ensures
        b == (spec_is_alphabetic(chr) || spec_is_digit(chr)),
{
    is_alphabetic(chr) || is_digit(chr)
}

/// Tests if byte is ASCII space or tab
pub fn is_space(chr: u8) -> (b: bool)
    ensures
        b == (chr == ' ' as u8 || chr == '\t' as u8),
{
    chr == 0x20 || chr == 0x09
}

} // verus!
