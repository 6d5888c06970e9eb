use vstd::prelude::*;
use crate::parser::{ParseNode, ParseNodeView, Rule};
use crate::text::owned;
use crate::ast::node::opt_view;
use crate::text::same_text;
use vstd::utf8::encode_utf8;
use vstd::string::StrSliceExecFns;

verus! {

/// Model of an [`Identifier`].
pub struct IdentifierView {
    pub pos: (usize, usize),
    pub name: Seq<char>,
}

/// An identifier in an expression.
#[derive(Debug)]
pub struct Identifier {
    pos: (usize, usize),
    name: String,
}

impl View for Identifier {
    type V = IdentifierView;

    closed spec fn view(&self) -> IdentifierView {
        IdentifierView { pos: self.pos, name: self.name@ }
    }
}

impl Clone for Identifier {
    fn clone(&self) -> (res: Self)
        ensures
            res@ == self@,
    {
        Identifier { pos: self.pos, name: self.name.clone() }
    }
}

impl Identifier {
    pub fn get_name(&self) -> (name: &str)
        ensures
            name@ == self@.name,
    {
        self.name.as_str()
    }

    pub fn new(pos: (usize, usize), name: String) -> (node: Self)
        ensures
            node@ == (IdentifierView { pos, name: name@ }),
    {
        Identifier { pos, name }
    }

    pub fn get_pos(&self) -> (pos: (usize, usize))
        ensures
            pos == self@.pos,
    {
        self.pos
    }
}

/// Model of a [`StringLitteral`].
pub struct StringLitteralView {
    pub pos: (usize, usize),
    pub value: Seq<char>,
}

/// A string literal, without its quotes.
#[derive(Debug)]
pub struct StringLitteral {
    pos: (usize, usize),
    value: String,
}

impl View for StringLitteral {
    type V = StringLitteralView;

    closed spec fn view(&self) -> StringLitteralView {
        StringLitteralView { pos: self.pos, value: self.value@ }
    }
}

impl Clone for StringLitteral {
    fn clone(&self) -> (res: Self)
        ensures
            res@ == self@,
    {
        StringLitteral { pos: self.pos, value: self.value.clone() }
    }
}

impl StringLitteral {
    pub fn get_value(&self) -> (value: &str)
        ensures
            value@ == self@.value,
    {
        self.value.as_str()
    }

    pub fn new(pos: (usize, usize), value: String) -> (node: Self)
        ensures
            node@ == (StringLitteralView { pos, value: value@ }),
    {
        StringLitteral { pos, value }
    }

    pub fn get_pos(&self) -> (pos: (usize, usize))
        ensures
            pos == self@.pos,
    {
        self.pos
    }
}

/// Model of an [`Integer`].
pub struct IntegerView {
    pub pos: (usize, usize),
    pub value: i32,
}

/// An integer literal.
#[derive(Debug)]
pub struct Integer {
    pos: (usize, usize),
    value: i32,
}

impl View for Integer {
    type V = IntegerView;

    closed spec fn view(&self) -> IntegerView {
        IntegerView { pos: self.pos, value: self.value }
    }
}

impl Clone for Integer {
    fn clone(&self) -> (res: Self)
        ensures
            res@ == self@,
    {
        Integer { pos: self.pos, value: self.value }
    }
}

impl Integer {
    pub fn get_value(&self) -> (value: &i32)
        ensures
            *value == self@.value,
    {
        &self.value
    }

    pub fn new(pos: (usize, usize), value: i32) -> (node: Self)
        ensures
            node@ == (IntegerView { pos, value: value }),
    {
        Integer { pos, value }
    }

    pub fn get_pos(&self) -> (pos: (usize, usize))
        ensures
            pos == self@.pos,
    {
        self.pos
    }
}

/// Model of a [`Char`].
pub struct CharView {
    pub pos: (usize, usize),
    pub value: char,
}

/// A character literal.
#[derive(Debug)]
pub struct Char {
    pos: (usize, usize),
    value: char,
}

impl View for Char {
    type V = CharView;

    closed spec fn view(&self) -> CharView {
        CharView { pos: self.pos, value: self.value }
    }
}

impl Clone for Char {
    fn clone(&self) -> (res: Self)
        ensures
            res@ == self@,
    {
        Char { pos: self.pos, value: self.value }
    }
}

impl Char {
    pub fn get_value(&self) -> (value: &char)
        ensures
            *value == self@.value,
    {
        &self.value
    }

    pub fn new(pos: (usize, usize), value: char) -> (node: Self)
        ensures
            node@ == (CharView { pos, value: value }),
    {
        Char { pos, value }
    }

    pub fn get_pos(&self) -> (pos: (usize, usize))
        ensures
            pos == self@.pos,
    {
        self.pos
    }
}

/// Model of a [`Boolean`].
pub struct BooleanView {
    pub pos: (usize, usize),
    pub value: bool,
}

/// A boolean literal.
#[derive(Debug)]
pub struct Boolean {
    pos: (usize, usize),
    value: bool,
}

impl View for Boolean {
    type V = BooleanView;

    closed spec fn view(&self) -> BooleanView {
        BooleanView { pos: self.pos, value: self.value }
    }
}

impl Clone for Boolean {
    fn clone(&self) -> (res: Self)
        ensures
            res@ == self@,
    {
        Boolean { pos: self.pos, value: self.value }
    }
}

impl Boolean {
    pub fn get_value(&self) -> (value: &bool)
        ensures
            *value == self@.value,
    {
        &self.value
    }

    pub fn new(pos: (usize, usize), value: bool) -> (node: Self)
        ensures
            node@ == (BooleanView { pos, value: value }),
    {
        Boolean { pos, value }
    }

    pub fn get_pos(&self) -> (pos: (usize, usize))
        ensures
            pos == self@.pos,
    {
        self.pos
    }
}

/// The value of a decimal digit, or `None` for any other character.
pub open spec fn digit_of(c: char) -> Option<nat> {
    if 48 <= c as u32 <= 57 {
        Some((c as u32 - 48) as nat)
    } else {
        None
    }
}

/// The number that a text of decimal digits stands for, or `None` where the
/// text is empty or holds anything but digits.
pub open spec fn decimal_value(s: Seq<char>) -> Option<nat>
    decreases s.len(),
{
    if s.len() == 0 {
        None
    } else if s.len() == 1 {
        digit_of(s[0])
    } else {
        match (decimal_value(s.drop_last()), digit_of(s.last())) {
            (Some(front), Some(digit)) => Some(10 * front + digit),
            _ => None,
        }
    }
}

/// The 32-bit integer that a text stands for: an optional sign, `+` or `-`,
/// then decimal digits, at least one. `None` where the text is not of that
/// form or the number does not fit.
pub open spec fn parsed_i32(s: Seq<char>) -> Option<i32> {
    let negative = s.len() > 0 && s[0] == '-';
    let signed = s.len() > 0 && (s[0] == '-' || s[0] == '+');
    let digits = if signed {
        s.skip(1)
    } else {
        s
    };
    match decimal_value(digits) {
        Some(magnitude) => {
            let number = if negative {
                -(magnitude as int)
            } else {
                magnitude as int
            };
            if i32::MIN <= number <= i32::MAX {
                Some(number as i32)
            } else {
                None
            }
        },
        None => None,
    }
}

proof fn lemma_not_decimal(s: Seq<char>, at: int)
    requires
        0 <= at < s.len(),
        digit_of(s[at]) is None,
    ensures
        decimal_value(s) is None,
    decreases s.len(),
{
    if s.len() > 1 && at < s.len() - 1 {
        lemma_not_decimal(s.drop_last(), at);
    }
}

/// Reads a 32-bit integer in decimal, with an optional sign.
pub fn parse_i32(text: &str) -> (number: Option<i32>)
    ensures
        number == parsed_i32(text@),
{
    let len = text.unicode_len();
    if len == 0 {
        return None;
    }
    let first = text.get_char(0);
    let negative = first == '-';
    let start: usize = if first == '-' || first == '+' {
        1
    } else {
        0
    };
    let ghost digits = if start == 1 {
        text@.skip(1)
    } else {
        text@
    };
    if start == len {
        return None;
    }
    // the magnitude read so far, held at 2^32 once it is that or more
    let mut magnitude: u64 = 0;
    let mut i: usize = start;
    while i < len
        invariant
            start <= i <= len,
            len == text@.len(),
            start <= 1,
            len > 0,
            negative == (text@[0] == '-'),
            (start == 1) == (text@[0] == '-' || text@[0] == '+'),
            digits == text@.skip(start as int),
            i > start ==> decimal_value(digits.take(i - start)) is Some,
            i > start ==> magnitude == vstd::math::min(
                decimal_value(digits.take(i - start))->Some_0 as int,
                0x1_0000_0000,
            ),
            i == start ==> magnitude == 0,
        decreases len - i,
    {
        let c = text.get_char(i);
        let code = c as u32;
        proof {
            assert(digits[i - start] == c);
            assert(digits.take(i - start + 1).drop_last() =~= digits.take(i - start));
            assert(digits.take(i - start + 1).last() == c);
        }
        if code < 48 || code > 57 {
            proof {
                assert(text@.skip(0) =~= text@);
                assert(digit_of(digits[i - start]) is None);
                lemma_not_decimal(digits, i - start);
            }
            return None;
        }
        let digit = (code - 48) as u64;
        magnitude = magnitude * 10 + digit;
        if magnitude > 0x1_0000_0000 {
            magnitude = 0x1_0000_0000;
        }
        i += 1;
    }
    proof {
        assert(text@.skip(0) =~= text@);
        assert(digits.take(len - start) =~= digits);
    }
    if negative {
        if magnitude <= 0x8000_0000 {
            Some((0 - magnitude as i64) as i32)
        } else {
            None
        }
    } else {
        if magnitude <= 0x7fff_ffff {
            Some(magnitude as i32)
        } else {
            None
        }
    }
}

impl IdentifierView {
    /// The identifier that a match of the `Ident` rule stands for.
    pub open spec fn from_pair(pair: ParseNodeView) -> Option<IdentifierView> {
        if pair.rule == Rule::Ident {
            Some(IdentifierView { pos: pair.pos, name: pair.text })
        } else {
            None
        }
    }
}

impl Identifier {
    pub fn from_pair(pair: &ParseNode) -> (node: Option<Self>)
        ensures
            opt_view(node) == IdentifierView::from_pair(pair@),
    {
        if pair.as_rule() == Rule::Ident {
            Some(Identifier { pos: pair.get_pos(), name: owned(pair.as_str()) })
        } else {
            None
        }
    }
}

impl StringLitteralView {
    /// The string literal that a match of the `String` rule stands for: its
    /// value is the text of the first child, a match of `StringChars`.
    pub open spec fn from_pair(pair: ParseNodeView) -> Option<StringLitteralView> {
        if pair.rule == Rule::String && pair.children.len() >= 1 && pair.children[0].rule
            == Rule::StringChars {
            Some(StringLitteralView { pos: pair.pos, value: pair.children[0].text })
        } else {
            None
        }
    }
}

impl StringLitteral {
    pub fn from_pair(pair: &ParseNode) -> (node: Option<Self>)
        ensures
            opt_view(node) == StringLitteralView::from_pair(pair@),
    {
        let children = pair.children();
        if pair.as_rule() == Rule::String && children.len() >= 1 {
            proof {
                assert(pair@.children[0] == children@[0]@);
            }
            if children[0].as_rule() == Rule::StringChars {
                return Some(
                    StringLitteral { pos: pair.get_pos(), value: owned(children[0].as_str()) },
                );
            }
        }
        None
    }
}

impl IntegerView {
    /// The integer literal that a match of the `Integer` rule stands for: its
    /// value is the text of the match read as a 32-bit integer.
    pub open spec fn from_pair(pair: ParseNodeView) -> Option<IntegerView> {
        if pair.rule == Rule::Integer {
            match parsed_i32(pair.text) {
                Some(value) => Some(IntegerView { pos: pair.pos, value }),
                None => None,
            }
        } else {
            None
        }
    }
}

impl Integer {
    pub fn from_pair(pair: &ParseNode) -> (node: Option<Self>)
        ensures
            opt_view(node) == IntegerView::from_pair(pair@),
    {
        if pair.as_rule() == Rule::Integer {
            match parse_i32(pair.as_str()) {
                Some(value) => Some(Integer { pos: pair.get_pos(), value }),
                None => None,
            }
        } else {
            None
        }
    }
}

impl CharView {
    /// The character literal that a match of the `Character` rule stands for:
    /// its value is the second byte of the text of the match, which is the
    /// character between the quotes where that is an ASCII character.
    pub open spec fn from_pair(pair: ParseNodeView) -> Option<CharView> {
        if pair.rule == Rule::Character && encode_utf8(pair.text).len() >= 2 {
            Some(CharView { pos: pair.pos, value: encode_utf8(pair.text)[1] as char })
        } else {
            None
        }
    }
}

impl Char {
    pub fn from_pair(pair: &ParseNode) -> (node: Option<Self>)
        ensures
            opt_view(node) == CharView::from_pair(pair@),
    {
        let bytes = pair.as_str().as_bytes();
        if pair.as_rule() == Rule::Character && bytes.len() >= 2 {
            Some(Char { pos: pair.get_pos(), value: bytes[1] as char })
        } else {
            None
        }
    }
}

impl BooleanView {
    /// The boolean literal that a match of the `Boolean` rule stands for: the
    /// text of the match is `true` or `false`.
    pub open spec fn from_pair(pair: ParseNodeView) -> Option<BooleanView> {
        if pair.rule == Rule::Boolean && pair.text == "true"@ {
            Some(BooleanView { pos: pair.pos, value: true })
        } else if pair.rule == Rule::Boolean && pair.text == "false"@ {
            Some(BooleanView { pos: pair.pos, value: false })
        } else {
            None
        }
    }
}

impl Boolean {
    pub fn from_pair(pair: &ParseNode) -> (node: Option<Self>)
        ensures
            opt_view(node) == BooleanView::from_pair(pair@),
    {
        if pair.as_rule() != Rule::Boolean {
            None
        } else if same_text(pair.as_str(), "true") {
            Some(Boolean { pos: pair.get_pos(), value: true })
        } else if same_text(pair.as_str(), "false") {
            Some(Boolean { pos: pair.get_pos(), value: false })
        } else {
            None
        }
    }
}

} // verus!
