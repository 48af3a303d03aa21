//! The inputs a parser reads: byte slices and string slices, each in a
//! streaming form (more input may follow) and a complete form (the input is
//! all there is), seen as a sequence of items.
use vstd::prelude::*;
use vstd::string::*;
use crate::character::{
    is_alphabetic,
    is_digit,
    is_hex_digit,
    is_oct_digit,
    spec_is_alphabetic,
    spec_is_digit,
    spec_is_hex_digit,
    spec_is_oct_digit,
};

verus! {

/// Whether `c` has the Unicode `Alphabetic` property, as `char::is_alphabetic` reports it.
pub uninterp spec fn unicode_alphabetic(c: char) -> bool;

/// Calls `char::is_alphabetic`. The contract claims only that the answer is
/// the Unicode `Alphabetic` property of `c`, named `unicode_alphabetic`; which
/// characters have it is left to the Unicode tables of std.
#[verifier::external_body]
fn char_is_alphabetic(c: char) -> (b: bool)
    ensures
        b == unicode_alphabetic(c),
{
    c.is_alphabetic()
}

/// The number of bytes of the UTF-8 encoding of `c`.
pub open spec fn utf8_width(c: char) -> nat {
    if (c as u32) < 0x80 {
        1
    } else if (c as u32) < 0x800 {
        2
    } else if (c as u32) < 0x10000 {
        3
    } else {
        4
    }
}

fn char_utf8_width(c: char) -> (n: usize)
    ensures
        n == utf8_width(c),
{
    let v = c as u32;
    if v < 0x80 {
        1
    } else if v < 0x800 {
        2
    } else if v < 0x10000 {
        3
    } else {
        4
    }
}

/// An item of an input, read as a character and classified.
pub trait AsChar: Copy {
    /// The item read as a character.
    spec fn spec_as_char(self) -> char;

    /// Whether the item is alphabetic.
    spec fn spec_is_alpha(self) -> bool;

    /// Whether the item is a decimal digit.
    spec fn spec_is_dec_digit(self) -> bool;

    /// Whether the item is a hexadecimal digit.
    spec fn spec_is_hex_digit(self) -> bool;

    /// Whether the item is an octal digit.
    spec fn spec_is_oct_digit(self) -> bool;

    fn as_char(self) -> (c: char)
        ensures
            c == self.spec_as_char(),
    ;

    fn is_alpha(self) -> (b: bool)
        ensures
            b == self.spec_is_alpha(),
    ;

    fn is_dec_digit(self) -> (b: bool)
        ensures
            b == self.spec_is_dec_digit(),
    ;

    fn is_hex_digit(self) -> (b: bool)
        ensures
            b == self.spec_is_hex_digit(),
    ;

    fn is_oct_digit(self) -> (b: bool)
        ensures
            b == self.spec_is_oct_digit(),
    ;

    /// Alphabetic or a decimal digit.
    fn is_alphanum(self) -> (b: bool)
        ensures
            b == (self.spec_is_alpha() || self.spec_is_dec_digit()),
    {
        self.is_alpha() || self.is_dec_digit()
    }
}

/// A byte is read as the character of the same code (Latin-1) and classified as ASCII.
impl AsChar for u8 {
    open spec fn spec_as_char(self) -> char {
        self as char
    }

    open spec fn spec_is_alpha(self) -> bool {
        spec_is_alphabetic(self)
    }

    open spec fn spec_is_dec_digit(self) -> bool {
        spec_is_digit(self)
    }

    open spec fn spec_is_hex_digit(self) -> bool {
        spec_is_hex_digit(self)
    }

    open spec fn spec_is_oct_digit(self) -> bool {
        spec_is_oct_digit(self)
    }

    fn as_char(self) -> (c: char) {
        self as char
    }

    fn is_alpha(self) -> (b: bool) {
        is_alphabetic(self)
    }

    fn is_dec_digit(self) -> (b: bool) {
        is_digit(self)
    }

    fn is_hex_digit(self) -> (b: bool) {
        is_hex_digit(self)
    }

    fn is_oct_digit(self) -> (b: bool) {
        is_oct_digit(self)
    }
}

/// A character is alphabetic by its Unicode property; its digits are the ASCII
/// digits of the radix, as `char::is_digit` has them.
impl AsChar for char {
    open spec fn spec_as_char(self) -> char {
        self
    }

    open spec fn spec_is_alpha(self) -> bool {
        unicode_alphabetic(self)
    }

    open spec fn spec_is_dec_digit(self) -> bool {
        '0' <= self <= '9'
    }

    open spec fn spec_is_hex_digit(self) -> bool {
        ||| '0' <= self <= '9'
        ||| 'a' <= self <= 'f'
        ||| 'A' <= self <= 'F'
    }

    open spec fn spec_is_oct_digit(self) -> bool {
        '0' <= self <= '7'
    }

    fn as_char(self) -> (c: char) {
        self
    }

    fn is_alpha(self) -> (b: bool) {
        char_is_alphabetic(self)
    }

    fn is_dec_digit(self) -> (b: bool) {
        '0' <= self && self <= '9'
    }

    fn is_hex_digit(self) -> (b: bool) {
        ('0' <= self && self <= '9') || ('a' <= self && self <= 'f') || ('A' <= self && self <= 'F')
    }

    fn is_oct_digit(self) -> (b: bool) {
        '0' <= self && self <= '7'
    }
}

/// The sets of items that the parsers of runs recognize.
#[derive(Debug, PartialEq, Eq, Clone, Copy)]
pub enum CharClass {
    Alpha,
    Digit,
    HexDigit,
    OctDigit,
    AlphaNumeric,
    /// A space or a tab.
    Space,
    /// A space, a tab, a carriage return or a line feed.
    MultiSpace,
    /// A carriage return or a line feed.
    LineEnd,
}

impl CharClass {
    /// Whether the item `c` belongs to the class.
    pub open spec fn spec_contains<A: AsChar>(self, c: A) -> bool {
        match self {
            CharClass::Alpha => c.spec_is_alpha(),
            CharClass::Digit => c.spec_is_dec_digit(),
            CharClass::HexDigit => c.spec_is_hex_digit(),
            CharClass::OctDigit => c.spec_is_oct_digit(),
            CharClass::AlphaNumeric => c.spec_is_alpha() || c.spec_is_dec_digit(),
            CharClass::Space => c.spec_as_char() == ' ' || c.spec_as_char() == '\t',
            CharClass::MultiSpace => {
                let ch = c.spec_as_char();
                ch == ' ' || ch == '\t' || ch == '\r' || ch == '\n'
            },
            CharClass::LineEnd => c.spec_as_char() == '\r' || c.spec_as_char() == '\n',
        }
    }

    pub fn contains<A: AsChar>(self, c: A) -> (b: bool)
        ensures
            b == self.spec_contains(c),
    {
        match self {
            CharClass::Alpha => c.is_alpha(),
            CharClass::Digit => c.is_dec_digit(),
            CharClass::HexDigit => c.is_hex_digit(),
            CharClass::OctDigit => c.is_oct_digit(),
            CharClass::AlphaNumeric => c.is_alphanum(),
            CharClass::Space => {
                let ch = c.as_char();
                ch == ' ' || ch == '\t'
            },
            CharClass::MultiSpace => {
                let ch = c.as_char();
                ch == ' ' || ch == '\t' || ch == '\r' || ch == '\n'
            },
            CharClass::LineEnd => {
                let ch = c.as_char();
                ch == '\r' || ch == '\n'
            },
        }
    }
}

/// The index of the first item of `s` whose membership in `class` is `member`, if any.
pub open spec fn is_first_position<A: AsChar>(
    s: Seq<A>,
    class: CharClass,
    member: bool,
    r: Option<usize>,
) -> bool {
    match r {
        Some(i) => {
            &&& i < s.len()
            &&& class.spec_contains(s[i as int]) == member
            &&& forall|j: int| 0 <= j < i ==> class.spec_contains(#[trigger] s[j]) != member
        },
        None => forall|j: int| 0 <= j < s.len() ==> class.spec_contains(#[trigger] s[j]) != member,
    }
}

/// A parser input: a sequence of items, and whether it is complete.
pub trait Input: Copy {
    type Item: AsChar;

    /// The items of the input, in order.
    spec fn items(&self) -> Seq<Self::Item>;

    /// Whether the input is all there is (no more input can follow).
    spec fn is_complete(&self) -> bool;

    /// How many items the character `c` takes in this kind of input.
    spec fn spec_char_width(c: char) -> nat;

    fn at_eof(&self) -> (b: bool)
        ensures
            b == self.is_complete(),
    ;

    fn input_len(&self) -> (n: usize)
        ensures
            n == self.items().len(),
    ;

    fn item_at(&self, i: usize) -> (c: Self::Item)
        requires
            i < self.items().len(),
        ensures
            c == self.items()[i as int],
    ;

    /// The items from `start` up to `end`, in an input of the same completeness.
    fn slice_range(&self, start: usize, end: usize) -> (r: Self)
        requires
            start <= end <= self.items().len(),
        ensures
            r.items() == self.items().subrange(start as int, end as int),
            r.is_complete() == self.is_complete(),
    ;

    /// The index of the first item whose membership in `class` is `member`.
    fn position_in_class(&self, class: CharClass, member: bool) -> (r: Option<usize>)
        ensures
            is_first_position(self.items(), class, member, r),
    ;

    fn char_width(c: char) -> (n: usize)
        ensures
            n == Self::spec_char_width(c),
    ;
}

fn bytes_position_in_class(s: &[u8], class: CharClass, member: bool) -> (r: Option<usize>)
    ensures
        is_first_position(s@, class, member, r),
{
    let n = s.len();
    let mut i: usize = 0;
    while i < n
        invariant
            n == s@.len(),
            i <= n,
            forall|j: int| 0 <= j < i ==> class.spec_contains(#[trigger] s@[j]) != member,
        decreases n - i,
    {
        if class.contains(s[i]) == member {
            return Some(i);
        }
        i = i + 1;
    }
    None
}

fn str_position_in_class(s: &str, class: CharClass, member: bool) -> (r: Option<usize>)
    ensures
        is_first_position(s@, class, member, r),
{
    let n = s.unicode_len();
    let mut it = s.chars();
    let mut i: usize = 0;
    loop
        invariant
            n == s@.len(),
            i <= s@.len(),
            vstd::std_specs::iter::IteratorSpec::remaining(&it) == s@.skip(i as int),
            vstd::std_specs::iter::IteratorSpec::obeys_prophetic_iter_laws(&it),
            forall|j: int| 0 <= j < i ==> class.spec_contains(#[trigger] s@[j]) != member,
        decreases s@.len() - i,
    {
        match it.next() {
            Some(c) => {
                assert(s@.skip(i as int)[0] == s@[i as int]);
                if class.contains(c) == member {
                    return Some(i);
                }
                assert(s@.skip(i as int).drop_first() =~= s@.skip(i + 1));
                i = i + 1;
            },
            None => {
                return None;
            },
        }
    }
}

/// A byte slice that more input may follow.
impl<'a> Input for &'a [u8] {
    type Item = u8;

    open spec fn items(&self) -> Seq<u8> {
        (*self)@
    }

    open spec fn is_complete(&self) -> bool {
        false
    }

    open spec fn spec_char_width(c: char) -> nat {
        utf8_width(c)
    }

    fn at_eof(&self) -> (b: bool) {
        false
    }

    fn input_len(&self) -> (n: usize) {
        self.len()
    }

    fn item_at(&self, i: usize) -> (c: u8) {
        self[i]
    }

    fn slice_range(&self, start: usize, end: usize) -> (r: Self) {
        vstd::slice::slice_subrange(*self, start, end)
    }

    fn position_in_class(&self, class: CharClass, member: bool) -> (r: Option<usize>) {
        bytes_position_in_class(*self, class, member)
    }

    fn char_width(c: char) -> (n: usize) {
        char_utf8_width(c)
    }
}

/// A string slice that more input may follow; its items are its characters.
impl<'a> Input for &'a str {
    type Item = char;

    open spec fn items(&self) -> Seq<char> {
        (*self)@
    }

    open spec fn is_complete(&self) -> bool {
        false
    }

    open spec fn spec_char_width(c: char) -> nat {
        1
    }

    fn at_eof(&self) -> (b: bool) {
        false
    }

    fn input_len(&self) -> (n: usize) {
        (*self).unicode_len()
    }

    fn item_at(&self, i: usize) -> (c: char) {
        (*self).get_char(i)
    }

    fn slice_range(&self, start: usize, end: usize) -> (r: Self) {
        (*self).substring_char(start, end)
    }

    fn position_in_class(&self, class: CharClass, member: bool) -> (r: Option<usize>) {
        str_position_in_class(*self, class, member)
    }

    fn char_width(c: char) -> (n: usize) {
        1
    }
}

/// A byte slice that is the whole input.
#[derive(Debug, PartialEq, Eq, Clone, Copy)]
pub struct CompleteByteSlice<'a>(pub &'a [u8]);

/// A string slice that is the whole input.
#[derive(Debug, PartialEq, Eq, Clone, Copy)]
pub struct CompleteStr<'a>(pub &'a str);

impl<'a> Input for CompleteByteSlice<'a> {
    type Item = u8;

    open spec fn items(&self) -> Seq<u8> {
        self.0@
    }

    open spec fn is_complete(&self) -> bool {
        true
    }

    open spec fn spec_char_width(c: char) -> nat {
        utf8_width(c)
    }

    fn at_eof(&self) -> (b: bool) {
        true
    }

    fn input_len(&self) -> (n: usize) {
        self.0.len()
    }

    fn item_at(&self, i: usize) -> (c: u8) {
        self.0[i]
    }

    fn slice_range(&self, start: usize, end: usize) -> (r: Self) {
        CompleteByteSlice(vstd::slice::slice_subrange(self.0, start, end))
    }

    fn position_in_class(&self, class: CharClass, member: bool) -> (r: Option<usize>) {
        bytes_position_in_class(self.0, class, member)
    }

    fn char_width(c: char) -> (n: usize) {
        char_utf8_width(c)
    }
}

impl<'a> Input for CompleteStr<'a> {
    type Item = char;

    open spec fn items(&self) -> Seq<char> {
        self.0@
    }

    open spec fn is_complete(&self) -> bool {
        true
    }

    open spec fn spec_char_width(c: char) -> nat {
        1
    }

    fn at_eof(&self) -> (b: bool) {
        true
    }

    fn input_len(&self) -> (n: usize) {
        self.0.unicode_len()
    }

    fn item_at(&self, i: usize) -> (c: char) {
        self.0.get_char(i)
    }

    fn slice_range(&self, start: usize, end: usize) -> (r: Self) {
        CompleteStr(self.0.substring_char(start, end))
    }

    fn position_in_class(&self, class: CharClass, member: bool) -> (r: Option<usize>) {
        str_position_in_class(self.0, class, member)
    }

    fn char_width(c: char) -> (n: usize) {
        1
    }
}

/// A list of tokens that an item can be looked up in.
pub trait FindToken<Tok> {
    /// Whether the list holds `token`.
    spec fn spec_find_token(&self, token: Tok) -> bool;

    fn find_token(&self, token: Tok) -> (b: bool)
        ensures
            b == self.spec_find_token(token),
    ;
}

fn bytes_contain(s: &[u8], token: u8) -> (b: bool)
    ensures
        b == s@.contains(token),
{
    let n = s.len();
    let mut i: usize = 0;
    while i < n
        invariant
            n == s@.len(),
            i <= n,
            forall|j: int| 0 <= j < i ==> s@[j] != token,
        decreases n - i,
    {
        if s[i] == token {
            assert(s@[i as int] == token);
            return true;
        }
        i = i + 1;
    }
    false
}

/// A byte slice holds the bytes it is made of.
impl<'a> FindToken<u8> for &'a [u8] {
    open spec fn spec_find_token(&self, token: u8) -> bool {
        (*self)@.contains(token)
    }

    fn find_token(&self, token: u8) -> (b: bool) {
        bytes_contain(*self, token)
    }
}

/// A string slice holds the bytes of its UTF-8 encoding.
impl<'a> FindToken<u8> for &'a str {
    open spec fn spec_find_token(&self, token: u8) -> bool {
        (*self).spec_bytes().contains(token)
    }

    fn find_token(&self, token: u8) -> (b: bool) {
        bytes_contain((*self).as_bytes(), token)
    }
}

fn str_contains_char(s: &str, token: char) -> (b: bool)
    ensures
        b == s@.contains(token),
{
    let n = s.unicode_len();
    let mut it = s.chars();
    let mut i: usize = 0;
    loop
        invariant
            n == s@.len(),
            i <= s@.len(),
            vstd::std_specs::iter::IteratorSpec::remaining(&it) == s@.skip(i as int),
            vstd::std_specs::iter::IteratorSpec::obeys_prophetic_iter_laws(&it),
            forall|j: int| 0 <= j < i ==> s@[j] != token,
        decreases s@.len() - i,
    {
        match it.next() {
            Some(c) => {
                assert(s@.skip(i as int)[0] == s@[i as int]);
                if c == token {
                    assert(s@[i as int] == token);
                    return true;
                }
                assert(s@.skip(i as int).drop_first() =~= s@.skip(i + 1));
                i = i + 1;
            },
            None => {
                assert(!s@.contains(token)) by {
                    assert(i == s@.len());
                }
                return false;
            },
        }
    }
}

/// A string slice holds its characters.
impl<'a> FindToken<char> for &'a str {
    open spec fn spec_find_token(&self, token: char) -> bool {
        (*self)@.contains(token)
    }

    fn find_token(&self, token: char) -> (b: bool) {
        str_contains_char(*self, token)
    }
}

} // verus!
