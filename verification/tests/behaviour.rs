use nom::character::{
    alpha0, alpha1, alphanumeric, alphanumeric0, alphanumeric1, char, compare, crlf, digit0,
    digit1, hex_digit0, hex_digit1, is_alphabetic, is_alphanumeric, is_digit, is_hex_digit,
    is_oct_digit, is_space, line_ending, multispace0, multispace1, need_more, need_more_err,
    newline, none_of, not_line_ending, oct_digit0, oct_digit1, one_of, space0, space1, tab,
    CompareResult,
};
use nom::error::{ErrorKind, IResult, Needed, ParseErr};
use nom::input::{CompleteByteSlice, CompleteStr};

type BytesResult<'a, O> = IResult<&'a [u8], O>;

#[test]
fn byte_classes_at_their_bounds() {
    assert!(is_alphabetic(b'A') && is_alphabetic(b'Z') && is_alphabetic(b'a') && is_alphabetic(b'z'));
    assert!(!is_alphabetic(b'@') && !is_alphabetic(b'[') && !is_alphabetic(b'`') && !is_alphabetic(b'{'));
    assert!(!is_alphabetic(0xE9));
    assert!(is_digit(b'0') && is_digit(b'9') && !is_digit(b'/') && !is_digit(b':'));
    assert!(is_alphanumeric(b'q') && is_alphanumeric(b'5') && !is_alphanumeric(b'_'));
    assert!(is_space(b' ') && is_space(b'\t') && !is_space(b'\n') && !is_space(b'\r'));
    for b in 0..=255u8 {
        assert_eq!(is_alphanumeric(b), is_alphabetic(b) || is_digit(b));
        if is_oct_digit(b) {
            assert!(is_digit(b));
        }
        if is_digit(b) {
            assert!(is_hex_digit(b) && !is_alphabetic(b));
        }
    }
}

#[test]
fn zero_or_more_on_empty_input() {
    let empty: &[u8] = b"";
    let res: BytesResult<&[u8]> = alpha0(empty);
    assert_eq!(res, Err(ParseErr::Incomplete(Needed::Size(1))));
    assert_eq!(
        digit0::<_, (_, ErrorKind)>(CompleteByteSlice(empty)),
        Ok((CompleteByteSlice(empty), CompleteByteSlice(empty)))
    );
    assert_eq!(
        space0::<_, (_, ErrorKind)>(CompleteStr("")),
        Ok((CompleteStr(""), CompleteStr("")))
    );
}

#[test]
fn zero_or_more_accepts_an_empty_run() {
    let res: BytesResult<&[u8]> = digit0(&b"abc"[..]);
    assert_eq!(res, Ok((&b"abc"[..], &b""[..])));
    let res: BytesResult<&[u8]> = hex_digit0(&b"fg"[..]);
    assert_eq!(res, Ok((&b"g"[..], &b"f"[..])));
    let res: BytesResult<&[u8]> = oct_digit0(&b"0789"[..]);
    assert_eq!(res, Ok((&b"89"[..], &b"07"[..])));
    let res: BytesResult<&[u8]> = alphanumeric0(&b"a1_"[..]);
    assert_eq!(res, Ok((&b"_"[..], &b"a1"[..])));
    let res: BytesResult<&[u8]> = multispace0(&b" \t\r\nx"[..]);
    assert_eq!(res, Ok((&b"x"[..], &b" \t\r\n"[..])));
}

#[test]
fn one_or_more_rejects_an_empty_run_with_its_kind() {
    let i: &[u8] = b";";
    let res: BytesResult<&[u8]> = alpha1(i);
    assert_eq!(res, Err(ParseErr::Error((i, ErrorKind::Alpha))));
    let res: BytesResult<&[u8]> = digit1(i);
    assert_eq!(res, Err(ParseErr::Error((i, ErrorKind::Digit))));
    let res: BytesResult<&[u8]> = hex_digit1(i);
    assert_eq!(res, Err(ParseErr::Error((i, ErrorKind::HexDigit))));
    let res: BytesResult<&[u8]> = oct_digit1(i);
    assert_eq!(res, Err(ParseErr::Error((i, ErrorKind::OctDigit))));
    let res: BytesResult<&[u8]> = alphanumeric1(i);
    assert_eq!(res, Err(ParseErr::Error((i, ErrorKind::AlphaNumeric))));
    let res: BytesResult<&[u8]> = space1(i);
    assert_eq!(res, Err(ParseErr::Error((i, ErrorKind::Space))));
    let res: BytesResult<&[u8]> = multispace1(i);
    assert_eq!(res, Err(ParseErr::Error((i, ErrorKind::MultiSpace))));
    let c = CompleteByteSlice(b"");
    assert_eq!(multispace1::<_, (_, ErrorKind)>(c), Err(ParseErr::Error((c, ErrorKind::MultiSpace))));
}

#[test]
fn one_or_more_agrees_with_zero_or_more_on_a_nonempty_run() {
    let i: &[u8] = b"12ab";
    let zero: BytesResult<&[u8]> = digit0(i);
    let one: BytesResult<&[u8]> = digit1(i);
    assert_eq!(zero, one);
    assert_eq!(one, Ok((&b"ab"[..], &b"12"[..])));
}

#[test]
fn unicode_letters_in_string_slices() {
    let res: IResult<&str, &str> = alpha1("é1");
    assert_eq!(res, Ok(("1", "é")));
    let res: IResult<&str, &str> = alpha1("1é");
    assert_eq!(res, Err(ParseErr::Error(("1é", ErrorKind::Alpha))));
    let res: IResult<&str, &str> = alphanumeric("ß9 x");
    assert_eq!(res, Ok((" x", "ß9")));
    let res: IResult<&[u8], &[u8]> = alpha1("é1".as_bytes());
    assert_eq!(res, Err(ParseErr::Error(("é1".as_bytes(), ErrorKind::Alpha))));
}

#[test]
fn streaming_success_is_kept_when_more_input_arrives() {
    let short: BytesResult<&[u8]> = alpha1(&b"ab1"[..]);
    let long: BytesResult<&[u8]> = alpha1(&b"ab1cd"[..]);
    assert_eq!(short.map(|(_, o)| o), Ok(&b"ab"[..]));
    assert_eq!(long.map(|(_, o)| o), Ok(&b"ab"[..]));
    let short: BytesResult<&[u8]> = line_ending(&b"\r\n"[..]);
    let long: BytesResult<&[u8]> = line_ending(&b"\r\nxyz"[..]);
    assert_eq!(short.map(|(_, o)| o), Ok(&b"\r\n"[..]));
    assert_eq!(long.map(|(_, o)| o), Ok(&b"\r\n"[..]));
}

#[test]
fn complete_input_decides_where_streaming_waits() {
    let res: BytesResult<&[u8]> = digit1(&b"42"[..]);
    assert_eq!(res, Err(ParseErr::Incomplete(Needed::Size(1))));
    assert_eq!(
        digit1::<_, (_, ErrorKind)>(CompleteByteSlice(b"42")),
        Ok((CompleteByteSlice(b""), CompleteByteSlice(b"42")))
    );
    assert_eq!(
        line_ending::<_, (_, ErrorKind)>(CompleteStr("")),
        Err(ParseErr::Error((CompleteStr(""), ErrorKind::CrLf)))
    );
    assert_eq!(
        crlf::<_, (_, ErrorKind)>(CompleteStr("\r")),
        Err(ParseErr::Error((CompleteStr("\r"), ErrorKind::CrLf)))
    );
}

#[test]
fn line_endings_on_short_and_wrong_input() {
    let res: BytesResult<&[u8]> = line_ending(&b""[..]);
    assert_eq!(res, Err(ParseErr::Incomplete(Needed::Size(1))));
    let res: BytesResult<&[u8]> = line_ending(&b"x"[..]);
    assert_eq!(res, Err(ParseErr::Error((&b"x"[..], ErrorKind::CrLf))));
    let res: BytesResult<&[u8]> = crlf(&b"\n"[..]);
    assert_eq!(res, Err(ParseErr::Error((&b"\n"[..], ErrorKind::CrLf))));
}

#[test]
fn lone_carriage_return_ends_no_line() {
    let res: BytesResult<&[u8]> = not_line_ending(&b"ab\r"[..]);
    assert_eq!(res, Err(ParseErr::Incomplete(Needed::Unknown)));
    let c = CompleteByteSlice(b"ab\r");
    assert_eq!(not_line_ending::<_, (_, ErrorKind)>(c), Err(ParseErr::Error((c, ErrorKind::Tag))));
    let res: BytesResult<&[u8]> = not_line_ending(&b"ab\rc"[..]);
    assert_eq!(res, Err(ParseErr::Error((&b"ab\rc"[..], ErrorKind::Tag))));
    let res: IResult<&str, &str> = not_line_ending("é\r\n");
    assert_eq!(res, Ok(("\r\n", "é")));
}

#[test]
fn single_characters() {
    let p = char::<&[u8], (&[u8], ErrorKind)>('a');
    assert_eq!(p(&b"abc"[..]), Ok((&b"bc"[..], 'a')));
    assert_eq!(p(&b"xbc"[..]), Err(ParseErr::Error((&b"xbc"[..], ErrorKind::Char))));
    assert_eq!(p(&b""[..]), Err(ParseErr::Incomplete(Needed::Size(1))));
    let q = char::<CompleteByteSlice, (CompleteByteSlice, ErrorKind)>('a');
    assert_eq!(
        q(CompleteByteSlice(b"")),
        Err(ParseErr::Error((CompleteByteSlice(b""), ErrorKind::Eof)))
    );
    let r = char::<&str, (&str, ErrorKind)>('é');
    assert_eq!(r("éa"), Ok(("a", 'é')));
    let s = char::<&[u8], (&[u8], ErrorKind)>('é');
    assert_eq!(s(&[0xE9u8, 0x41, 0x42][..]), Ok((&b"B"[..], 'é')));
    let res: BytesResult<char> = newline(&b"\nx"[..]);
    assert_eq!(res, Ok((&b"x"[..], '\n')));
    let res: BytesResult<char> = tab(&b"x"[..]);
    assert_eq!(res, Err(ParseErr::Error((&b"x"[..], ErrorKind::Char))));
}

#[test]
fn one_of_and_none_of() {
    let p = one_of::<&[u8], &str, (&[u8], ErrorKind)>("abc");
    assert_eq!(p(&b"b1"[..]), Ok((&b"1"[..], 'b')));
    assert_eq!(p(&b"z1"[..]), Err(ParseErr::Error((&b"z1"[..], ErrorKind::OneOf))));
    assert_eq!(p(&b""[..]), Err(ParseErr::Incomplete(Needed::Size(1))));
    let q = none_of::<&str, &str, (&str, ErrorKind)>("abc");
    assert_eq!(q("zb"), Ok(("b", 'z')));
    assert_eq!(q("bz"), Err(ParseErr::Error(("bz", ErrorKind::NoneOf))));
    let r = one_of::<&[u8], &[u8], (&[u8], ErrorKind)>(&b"\r\n"[..]);
    assert_eq!(r(&b"\nx"[..]), Ok((&b"x"[..], '\n')));
    let s = one_of::<CompleteStr, &str, (CompleteStr, ErrorKind)>("é");
    assert_eq!(s(CompleteStr("éx")), Ok((CompleteStr("x"), 'é')));
    assert_eq!(
        s(CompleteStr("")),
        Err(ParseErr::Error((CompleteStr(""), ErrorKind::Eof)))
    );
}

#[test]
fn building_blocks() {
    let i: &[u8] = b"ab";
    assert_eq!(compare(&i, "ab"), CompareResult::Match);
    assert_eq!(compare(&i, "abc"), CompareResult::Incomplete);
    assert_eq!(compare(&i, "ax"), CompareResult::Mismatch);
    let res: BytesResult<u8> = need_more(i, Needed::Size(3));
    assert_eq!(res, Err(ParseErr::Incomplete(Needed::Size(3))));
    let c = CompleteByteSlice(b"ab");
    let res: IResult<CompleteByteSlice, u8> = need_more_err(c, Needed::Size(3), ErrorKind::Tag);
    assert_eq!(res, Err(ParseErr::Error((c, ErrorKind::Tag))));
}
