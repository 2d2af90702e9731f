//! The lexical scanner: source text to tokens.
//!
//! Positions count characters. A scan is described by spec functions on the
//! sequence of the input's characters; the scanner is proved to follow them.

use crate::ast::float::{FloatBits, FloatUnit};
use crate::ast::text::{alphabetic, alphanumeric, same_text, whitespace};
use vstd::prelude::*;

verus! {

/// The kinds of token.
#[derive(Debug, PartialEq)]
pub enum TokenKind {
    Number(i64),
    Float(FloatBits),
    Boolean(bool),
    String(String),
    Plus,
    Minus,
    Asterisk,
    Slash,
    Percent,
    DoubleStar,
    Ampersand,
    Pipe,
    Caret,
    LeftShift,
    RightShift,
    EqualEqual,
    BangEqual,
    Less,
    Greater,
    LessEqual,
    GreaterEqual,
    DoubleAmpersand,
    DoublePipe,
    Bang,
    LeftParen,
    RightParen,
    Comma,
    LeftBrace,
    RightBrace,
    Equal,
    Let,
    Const,
    Semicolon,
    Bad,
    EOF,
    Whitespace,
    Identifier(String),
}

/// A kind of token as contracts see it: a text is the sequence of its characters.
pub enum TokenKindView {
    Number(i64),
    Float(FloatBits),
    Boolean(bool),
    String(Seq<char>),
    Plus,
    Minus,
    Asterisk,
    Slash,
    Percent,
    DoubleStar,
    Ampersand,
    Pipe,
    Caret,
    LeftShift,
    RightShift,
    EqualEqual,
    BangEqual,
    Less,
    Greater,
    LessEqual,
    GreaterEqual,
    DoubleAmpersand,
    DoublePipe,
    Bang,
    LeftParen,
    RightParen,
    Comma,
    LeftBrace,
    RightBrace,
    Equal,
    Let,
    Const,
    Semicolon,
    Bad,
    EOF,
    Whitespace,
    Identifier(Seq<char>),
}

impl View for TokenKind {
    type V = TokenKindView;

    open spec fn view(&self) -> TokenKindView {
        match self {
            TokenKind::Number(n) => TokenKindView::Number(*n),
            TokenKind::Float(f) => TokenKindView::Float(*f),
            TokenKind::Boolean(b) => TokenKindView::Boolean(*b),
            TokenKind::String(s) => TokenKindView::String(s@),
            TokenKind::Plus => TokenKindView::Plus,
            TokenKind::Minus => TokenKindView::Minus,
            TokenKind::Asterisk => TokenKindView::Asterisk,
            TokenKind::Slash => TokenKindView::Slash,
            TokenKind::Percent => TokenKindView::Percent,
            TokenKind::DoubleStar => TokenKindView::DoubleStar,
            TokenKind::Ampersand => TokenKindView::Ampersand,
            TokenKind::Pipe => TokenKindView::Pipe,
            TokenKind::Caret => TokenKindView::Caret,
            TokenKind::LeftShift => TokenKindView::LeftShift,
            TokenKind::RightShift => TokenKindView::RightShift,
            TokenKind::EqualEqual => TokenKindView::EqualEqual,
            TokenKind::BangEqual => TokenKindView::BangEqual,
            TokenKind::Less => TokenKindView::Less,
            TokenKind::Greater => TokenKindView::Greater,
            TokenKind::LessEqual => TokenKindView::LessEqual,
            TokenKind::GreaterEqual => TokenKindView::GreaterEqual,
            TokenKind::DoubleAmpersand => TokenKindView::DoubleAmpersand,
            TokenKind::DoublePipe => TokenKindView::DoublePipe,
            TokenKind::Bang => TokenKindView::Bang,
            TokenKind::LeftParen => TokenKindView::LeftParen,
            TokenKind::RightParen => TokenKindView::RightParen,
            TokenKind::Comma => TokenKindView::Comma,
            TokenKind::LeftBrace => TokenKindView::LeftBrace,
            TokenKind::RightBrace => TokenKindView::RightBrace,
            TokenKind::Equal => TokenKindView::Equal,
            TokenKind::Let => TokenKindView::Let,
            TokenKind::Const => TokenKindView::Const,
            TokenKind::Semicolon => TokenKindView::Semicolon,
            TokenKind::Bad => TokenKindView::Bad,
            TokenKind::EOF => TokenKindView::EOF,
            TokenKind::Whitespace => TokenKindView::Whitespace,
            TokenKind::Identifier(s) => TokenKindView::Identifier(s@),
        }
    }
}

impl Clone for TokenKind {
    fn clone(&self) -> (r: Self)
        ensures
            r == *self,
    {
        match self {
            TokenKind::Number(n) => TokenKind::Number(*n),
            TokenKind::Float(f) => TokenKind::Float(*f),
            TokenKind::Boolean(b) => TokenKind::Boolean(*b),
            TokenKind::String(s) => TokenKind::String(s.clone()),
            TokenKind::Plus => TokenKind::Plus,
            TokenKind::Minus => TokenKind::Minus,
            TokenKind::Asterisk => TokenKind::Asterisk,
            TokenKind::Slash => TokenKind::Slash,
            TokenKind::Percent => TokenKind::Percent,
            TokenKind::DoubleStar => TokenKind::DoubleStar,
            TokenKind::Ampersand => TokenKind::Ampersand,
            TokenKind::Pipe => TokenKind::Pipe,
            TokenKind::Caret => TokenKind::Caret,
            TokenKind::LeftShift => TokenKind::LeftShift,
            TokenKind::RightShift => TokenKind::RightShift,
            TokenKind::EqualEqual => TokenKind::EqualEqual,
            TokenKind::BangEqual => TokenKind::BangEqual,
            TokenKind::Less => TokenKind::Less,
            TokenKind::Greater => TokenKind::Greater,
            TokenKind::LessEqual => TokenKind::LessEqual,
            TokenKind::GreaterEqual => TokenKind::GreaterEqual,
            TokenKind::DoubleAmpersand => TokenKind::DoubleAmpersand,
            TokenKind::DoublePipe => TokenKind::DoublePipe,
            TokenKind::Bang => TokenKind::Bang,
            TokenKind::LeftParen => TokenKind::LeftParen,
            TokenKind::RightParen => TokenKind::RightParen,
            TokenKind::Comma => TokenKind::Comma,
            TokenKind::LeftBrace => TokenKind::LeftBrace,
            TokenKind::RightBrace => TokenKind::RightBrace,
            TokenKind::Equal => TokenKind::Equal,
            TokenKind::Let => TokenKind::Let,
            TokenKind::Const => TokenKind::Const,
            TokenKind::Semicolon => TokenKind::Semicolon,
            TokenKind::Bad => TokenKind::Bad,
            TokenKind::EOF => TokenKind::EOF,
            TokenKind::Whitespace => TokenKind::Whitespace,
            TokenKind::Identifier(s) => TokenKind::Identifier(s.clone()),
        }
    }
}

impl TokenKindView {
    /// The number that a float token carries; zero for any other token.
    pub open spec fn float_payload(self) -> FloatBits {
        match self {
            TokenKindView::Float(f) => f,
            _ => FloatBits(0),
        }
    }
}

/// Where a token stands in the source, and its text.
#[derive(Debug, PartialEq)]
pub struct TextSpan {
    pub start: usize,
    pub end: usize,
    pub literal: String,
}

/// A span as contracts see it.
pub struct TextSpanView {
    pub start: usize,
    pub end: usize,
    pub literal: Seq<char>,
}

impl View for TextSpan {
    type V = TextSpanView;

    open spec fn view(&self) -> TextSpanView {
        TextSpanView { start: self.start, end: self.end, literal: self.literal@ }
    }
}

impl Clone for TextSpan {
    fn clone(&self) -> (r: Self)
        ensures
            r == *self,
    {
        TextSpan { start: self.start, end: self.end, literal: self.literal.clone() }
    }
}

impl TextSpan {
    /// A span from `start` to `end`, exclusive, with its text.
    pub fn new(start: usize, end: usize, literal: String) -> (r: Self)
        ensures
            r.start == start,
            r.end == end,
            r.literal == literal,
    {
        Self { start, end, literal }
    }

    /// The number of positions that the span covers.
    pub fn length(&self) -> (r: usize)
        requires
            self.start <= self.end,
        ensures
            r == self.end - self.start,
    {
        self.end - self.start
    }
}

/// A token: its kind and its place in the source.
#[derive(Debug, PartialEq)]
pub struct Token {
    pub kind: TokenKind,
    pub span: TextSpan,
}

/// A token as contracts see it.
pub struct TokenView {
    pub kind: TokenKindView,
    pub span: TextSpanView,
}

impl View for Token {
    type V = TokenView;

    open spec fn view(&self) -> TokenView {
        TokenView { kind: self.kind@, span: self.span@ }
    }
}

impl Clone for Token {
    fn clone(&self) -> (r: Self)
        ensures
            r == *self,
    {
        Token { kind: self.kind.clone(), span: self.span.clone() }
    }
}

impl Token {
    /// A token of a kind at a span.
    pub fn new(kind: TokenKind, span: TextSpan) -> (r: Self)
        ensures
            r.kind == kind,
            r.span == span,
    {
        Self { kind, span }
    }
}

/// The character at a position, if the position is inside the text.
pub open spec fn char_at(s: Seq<char>, pos: int) -> Option<char> {
    if 0 <= pos < s.len() {
        Some(s[pos])
    } else {
        None
    }
}

/// Whether a character is one of the ten decimal digits.
pub open spec fn decimal_digit(c: char) -> bool {
    '0' <= c && c <= '9'
}

/// The value of a decimal digit.
pub open spec fn digit_value(c: char) -> int {
    c as int - 48
}

/// Whether a character can begin an identifier: a letter or an underscore.
pub open spec fn identifier_start(c: char) -> bool {
    alphabetic(c) || c == '_'
}

/// Whether a character can continue an identifier: a letter, a digit or an underscore.
pub open spec fn identifier_continue(c: char) -> bool {
    alphanumeric(c) || c == '_'
}

/// The end of the longest run of decimal digits that begins at `pos`.
pub open spec fn digits_end(s: Seq<char>, pos: int) -> int
    decreases s.len() - pos,
{
    if 0 <= pos < s.len() && decimal_digit(s[pos]) {
        digits_end(s, pos + 1)
    } else {
        pos
    }
}

/// The end of the longest run of identifier characters that begins at `pos`.
pub open spec fn identifier_end(s: Seq<char>, pos: int) -> int
    decreases s.len() - pos,
{
    if 0 <= pos < s.len() && identifier_continue(s[pos]) {
        identifier_end(s, pos + 1)
    } else {
        pos
    }
}

/// The end of a line comment whose text begins at `pos`: the next line feed, or
/// the end of the input.
pub open spec fn line_end(s: Seq<char>, pos: int) -> int
    decreases s.len() - pos,
{
    if 0 <= pos < s.len() && s[pos] != '\n' {
        line_end(s, pos + 1)
    } else {
        pos
    }
}

/// The end of a block comment whose text begins at `pos`: behind the next `*/`,
/// or the end of the input.
pub open spec fn block_end(s: Seq<char>, pos: int) -> int
    decreases s.len() - pos,
{
    if 0 <= pos < s.len() {
        if s[pos] == '*' && char_at(s, pos + 1) == Some('/') {
            pos + 2
        } else {
            block_end(s, pos + 1)
        }
    } else {
        pos
    }
}

/// The number that a run of decimal digits denotes.
pub open spec fn digits_value(digits: Seq<char>) -> nat
    decreases digits.len(),
{
    if digits.len() == 0 {
        0
    } else {
        (digits_value(digits.drop_last()) * 10 + digit_value(digits.last())) as nat
    }
}

/// The value of an integer literal: the number its digits denote, or zero
/// where there is no digit or the number does not fit in 64 bits.
pub open spec fn literal_value(digits: Seq<char>) -> i64 {
    if digits.len() > 0 && digits_value(digits) <= i64::MAX {
        digits_value(digits) as i64
    } else {
        0
    }
}

/// Whether the number that begins at `pos` has a fraction: a dot behind its
/// digits, and a digit behind the dot.
pub open spec fn has_fraction(s: Seq<char>, pos: int) -> bool {
    let dot = digits_end(s, pos);
    char_at(s, dot) == Some('.') && (char_at(s, dot + 1) matches Some(c) && decimal_digit(c))
}

/// The end of the number that begins at `pos`.
pub open spec fn number_end(s: Seq<char>, pos: int) -> int {
    if has_fraction(s, pos) {
        digits_end(s, digits_end(s, pos) + 1)
    } else {
        digits_end(s, pos)
    }
}

/// The text of the digits that begin at `pos`.
pub open spec fn digits_at(s: Seq<char>, pos: int) -> Seq<char> {
    if 0 <= pos <= s.len() {
        s.subrange(pos, digits_end(s, pos))
    } else {
        Seq::empty()
    }
}

/// The kind of the number that begins at `pos`; `float` is the number that the
/// float unit reads from a literal with a fraction.
pub open spec fn number_kind(s: Seq<char>, pos: int, float: FloatBits) -> TokenKindView {
    if has_fraction(s, pos) {
        TokenKindView::Float(float)
    } else {
        TokenKindView::Number(literal_value(digits_at(s, pos)))
    }
}

/// What an escape sequence stands for: `\n`, `\t`, `\r`, `\\` and `\"` their
/// character, any other the backslash and the character as they are.
pub open spec fn escape(c: char) -> Seq<char> {
    if c == 'n' {
        seq!['\n']
    } else if c == 't' {
        seq!['\t']
    } else if c == 'r' {
        seq!['\r']
    } else if c == '\\' {
        seq!['\\']
    } else if c == '"' {
        seq!['"']
    } else {
        seq!['\\', c]
    }
}

/// Scans the body of a string literal from `pos`, behind the opening quote,
/// with `text` read so far: the whole text and the end of the literal.
pub open spec fn string_scan(s: Seq<char>, pos: int, text: Seq<char>) -> (Seq<char>, int)
    decreases s.len() - pos,
{
    if 0 <= pos < s.len() {
        if s[pos] == '"' {
            (text, pos + 1)
        } else if s[pos] == '\\' {
            if pos + 1 < s.len() {
                string_scan(s, pos + 2, text + escape(s[pos + 1]))
            } else {
                (text, pos + 1)
            }
        } else {
            string_scan(s, pos + 1, text.push(s[pos]))
        }
    } else {
        (text, pos)
    }
}

/// The text of the run of identifier characters that begins at `pos`.
pub open spec fn word_at(s: Seq<char>, pos: int) -> Seq<char> {
    if 0 <= pos <= s.len() {
        s.subrange(pos, identifier_end(s, pos))
    } else {
        Seq::empty()
    }
}

/// The kind of a run of identifier characters: a keyword, a truth value or an identifier.
pub open spec fn word_kind(word: Seq<char>) -> TokenKindView {
    if word == "true"@ {
        TokenKindView::Boolean(true)
    } else if word == "false"@ {
        TokenKindView::Boolean(false)
    } else if word == "let"@ {
        TokenKindView::Let
    } else if word == "const"@ {
        TokenKindView::Const
    } else {
        TokenKindView::Identifier(word)
    }
}

/// The operator or punctuation mark at `pos`, and its end. A comment counts as whitespace.
pub open spec fn punctuation(s: Seq<char>, pos: int) -> (TokenKindView, int)
    recommends
        0 <= pos < s.len(),
{
    let c = s[pos];
    let next = char_at(s, pos + 1);
    if c == '+' {
        (TokenKindView::Plus, pos + 1)
    } else if c == '-' {
        (TokenKindView::Minus, pos + 1)
    } else if c == '*' {
        if next == Some('*') {
            (TokenKindView::DoubleStar, pos + 2)
        } else {
            (TokenKindView::Asterisk, pos + 1)
        }
    } else if c == '/' {
        if next == Some('/') {
            (TokenKindView::Whitespace, line_end(s, pos + 2))
        } else if next == Some('*') {
            (TokenKindView::Whitespace, block_end(s, pos + 2))
        } else {
            (TokenKindView::Slash, pos + 1)
        }
    } else if c == '%' {
        (TokenKindView::Percent, pos + 1)
    } else if c == '&' {
        if next == Some('&') {
            (TokenKindView::DoubleAmpersand, pos + 2)
        } else {
            (TokenKindView::Ampersand, pos + 1)
        }
    } else if c == '|' {
        if next == Some('|') {
            (TokenKindView::DoublePipe, pos + 2)
        } else {
            (TokenKindView::Pipe, pos + 1)
        }
    } else if c == '^' {
        (TokenKindView::Caret, pos + 1)
    } else if c == '!' {
        if next == Some('=') {
            (TokenKindView::BangEqual, pos + 2)
        } else {
            (TokenKindView::Bang, pos + 1)
        }
    } else if c == '=' {
        if next == Some('=') {
            (TokenKindView::EqualEqual, pos + 2)
        } else {
            (TokenKindView::Equal, pos + 1)
        }
    } else if c == ';' {
        (TokenKindView::Semicolon, pos + 1)
    } else if c == '<' {
        if next == Some('<') {
            (TokenKindView::LeftShift, pos + 2)
        } else if next == Some('=') {
            (TokenKindView::LessEqual, pos + 2)
        } else {
            (TokenKindView::Less, pos + 1)
        }
    } else if c == '>' {
        if next == Some('>') {
            (TokenKindView::RightShift, pos + 2)
        } else if next == Some('=') {
            (TokenKindView::GreaterEqual, pos + 2)
        } else {
            (TokenKindView::Greater, pos + 1)
        }
    } else if c == '(' {
        (TokenKindView::LeftParen, pos + 1)
    } else if c == ')' {
        (TokenKindView::RightParen, pos + 1)
    } else if c == ',' {
        (TokenKindView::Comma, pos + 1)
    } else if c == '{' {
        (TokenKindView::LeftBrace, pos + 1)
    } else if c == '}' {
        (TokenKindView::RightBrace, pos + 1)
    } else {
        (TokenKindView::Bad, pos + 1)
    }
}

/// The end of the token that begins at `pos`, a position inside the text. The
/// first character decides: a digit begins a number, whitespace is a token of
/// one character, a quote begins a string, a letter or underscore a word,
/// anything else is punctuation.
pub open spec fn token_end(s: Seq<char>, pos: int) -> int
    recommends
        0 <= pos < s.len(),
{
    let c = s[pos];
    if decimal_digit(c) {
        number_end(s, pos)
    } else if whitespace(c) {
        pos + 1
    } else if c == '"' {
        string_scan(s, pos + 1, Seq::empty()).1
    } else if identifier_start(c) {
        identifier_end(s, pos)
    } else {
        punctuation(s, pos).1
    }
}

/// The kind of the token that begins at `pos`, a position inside the text;
/// `float` is the number that the float unit reads from a float literal.
pub open spec fn token_kind(s: Seq<char>, pos: int, float: FloatBits) -> TokenKindView
    recommends
        0 <= pos < s.len(),
{
    let c = s[pos];
    if decimal_digit(c) {
        number_kind(s, pos, float)
    } else if whitespace(c) {
        TokenKindView::Whitespace
    } else if c == '"' {
        TokenKindView::String(string_scan(s, pos + 1, Seq::empty()).0)
    } else if identifier_start(c) {
        word_kind(word_at(s, pos))
    } else {
        punctuation(s, pos).0
    }
}


/// The token that ends a token stream: its span and its text are empty.
pub open spec fn end_token() -> TokenView {
    TokenView {
        kind: TokenKindView::EOF,
        span: TextSpanView { start: 0, end: 0, literal: Seq::empty() },
    }
}

/// The token that a scanner at `pos` returns next: inside the text the token
/// that begins there, at the end of the text the end token, behind it none.
/// `float` is the number that the float unit reads from a float literal.
pub open spec fn token_at(s: Seq<char>, pos: int, float: FloatBits) -> Option<TokenView> {
    if 0 <= pos < s.len() {
        Some(
            TokenView {
                kind: token_kind(s, pos, float),
                span: TextSpanView {
                    start: pos as usize,
                    end: token_end(s, pos) as usize,
                    literal: s.subrange(pos, token_end(s, pos)),
                },
            },
        )
    } else if pos == s.len() {
        Some(end_token())
    } else {
        None
    }
}

/// A run of digits ends inside the text, at or behind its start.
pub proof fn lemma_digits_end_bounds(s: Seq<char>, pos: int)
    requires
        0 <= pos <= s.len(),
    ensures
        pos <= digits_end(s, pos) <= s.len(),
    decreases s.len() - pos,
{
    if pos < s.len() && decimal_digit(s[pos]) {
        lemma_digits_end_bounds(s, pos + 1);
    }
}

/// The number of a run of digits is the number of all but its last digit,
/// times ten, plus the last digit.
pub proof fn lemma_digits_value_step(s: Seq<char>, start: int, pos: int)
    requires
        0 <= start <= pos < s.len(),
        decimal_digit(s[pos]),
    ensures
        digits_value(s.subrange(start, pos + 1)) == digits_value(s.subrange(start, pos)) * 10
            + digit_value(s[pos]),
        digits_value(s.subrange(start, pos + 1)) >= digits_value(s.subrange(start, pos)),
{
    let longer = s.subrange(start, pos + 1);
    assert(longer.drop_last() =~= s.subrange(start, pos));
    assert(longer.last() == s[pos]);
}

/// Scans a source text, token by token.
pub struct Lexer<'o> {
    pub input: &'o str,
    pub current_pos: usize,
}

impl<'o> Lexer<'o> {
    /// The characters of the input.
    pub open spec fn text(&self) -> Seq<char> {
        self.input@
    }

    /// The input leaves room for a position behind its end.
    pub open spec fn bounded(&self) -> bool {
        self.input@.len() < usize::MAX
    }

    /// A scanner at the beginning of `input`.
    pub fn new(input: &'o str) -> (r: Self)
        ensures
            r.input == input,
            r.current_pos == 0,
    {
        Self { input, current_pos: 0 }
    }

    /// The next token. A position inside the input yields the token that
    /// begins there; the end of the input yields the end token, once; behind
    /// it there is no token.
    pub fn next_token<F: FloatUnit>(&mut self, unit: &F) -> (r: Option<Token>)
        requires
            old(self).bounded(),
        ensures
            final(self).input == old(self).input,
            old(self).current_pos > old(self).text().len() ==> r is None && final(self).current_pos
                == old(self).current_pos,
            old(self).current_pos == old(self).text().len() ==> final(self).current_pos == old(
                self,
            ).current_pos + 1 && (r matches Some(t) && t@ == end_token()),
            r matches Some(t) ==> Some(t@) == token_at(
                old(self).text(),
                old(self).current_pos as int,
                t@.kind.float_payload(),
            ),
            old(self).current_pos < old(self).text().len() ==> {
                &&& r matches Some(t)
                &&& t@.kind == token_kind(
                    old(self).text(),
                    old(self).current_pos as int,
                    t@.kind.float_payload(),
                )
                &&& t@.span == TextSpanView {
                    start: old(self).current_pos,
                    end: final(self).current_pos,
                    literal: old(self).text().subrange(
                        old(self).current_pos as int,
                        final(self).current_pos as int,
                    ),
                }
                &&& final(self).current_pos == token_end(
                    old(self).text(),
                    old(self).current_pos as int,
                )
                &&& old(self).current_pos < final(self).current_pos <= old(self).text().len()
            },
    {
        let length = self.input.unicode_len();
        if self.current_pos == length {
            self.current_pos += 1;
            return Some(Token::new(TokenKind::EOF, TextSpan::new(0, 0, String::new())));
        }
        match self.current_char() {
            None => None,
            Some(c) => {
                let start = self.current_pos;
                let kind = if Self::is_number_start(&c) {
                    self.consume_number_or_float(unit)
                } else if Self::is_whitespace(&c) {
                    self.consume();
                    TokenKind::Whitespace
                } else if c == '"' {
                    self.consume_string()
                } else if Self::is_identifier_start(&c) {
                    self.consume_identifier()
                } else {
                    self.consume_punctuation()
                };
                let end = self.current_pos;
                let literal = self.input.substring_char(start, end).to_owned();
                Some(Token::new(kind, TextSpan::new(start, end, literal)))
            },
        }
    }

    /// Whether a character is whitespace.
    pub fn is_whitespace(c: &char) -> (r: bool)
        ensures
            r == whitespace(*c),
    {
        c.is_whitespace()
    }

    /// Scans an operator or a punctuation mark, looking one character ahead
    /// for the operators of two characters, or a comment.
    pub fn consume_punctuation(&mut self) -> (r: TokenKind)
        requires
            old(self).current_pos < old(self).text().len(),
        ensures
            final(self).input == old(self).input,
            r@ == punctuation(old(self).text(), old(self).current_pos as int).0,
            final(self).current_pos == punctuation(old(self).text(), old(self).current_pos as int).1,
            old(self).current_pos < final(self).current_pos <= old(self).text().len(),
    {
        let length = self.input.unicode_len();
        let c = self.input.get_char(self.current_pos);
        self.current_pos += 1;
        let next = self.current_char();
        if c == '+' {
            TokenKind::Plus
        } else if c == '-' {
            TokenKind::Minus
        } else if c == '*' {
            if Self::holds(next, '*') {
                self.current_pos += 1;
                TokenKind::DoubleStar
            } else {
                TokenKind::Asterisk
            }
        } else if c == '/' {
            if Self::holds(next, '/') {
                self.current_pos += 1;
                self.consume_single_line_comment();
                TokenKind::Whitespace
            } else if Self::holds(next, '*') {
                self.current_pos += 1;
                self.consume_multi_line_comment();
                TokenKind::Whitespace
            } else {
                TokenKind::Slash
            }
        } else if c == '%' {
            TokenKind::Percent
        } else if c == '&' {
            if Self::holds(next, '&') {
                self.current_pos += 1;
                TokenKind::DoubleAmpersand
            } else {
                TokenKind::Ampersand
            }
        } else if c == '|' {
            if Self::holds(next, '|') {
                self.current_pos += 1;
                TokenKind::DoublePipe
            } else {
                TokenKind::Pipe
            }
        } else if c == '^' {
            TokenKind::Caret
        } else if c == '!' {
            if Self::holds(next, '=') {
                self.current_pos += 1;
                TokenKind::BangEqual
            } else {
                TokenKind::Bang
            }
        } else if c == '=' {
            if Self::holds(next, '=') {
                self.current_pos += 1;
                TokenKind::EqualEqual
            } else {
                TokenKind::Equal
            }
        } else if c == ';' {
            TokenKind::Semicolon
        } else if c == '<' {
            if Self::holds(next, '<') {
                self.current_pos += 1;
                TokenKind::LeftShift
            } else if Self::holds(next, '=') {
                self.current_pos += 1;
                TokenKind::LessEqual
            } else {
                TokenKind::Less
            }
        } else if c == '>' {
            if Self::holds(next, '>') {
                self.current_pos += 1;
                TokenKind::RightShift
            } else if Self::holds(next, '=') {
                self.current_pos += 1;
                TokenKind::GreaterEqual
            } else {
                TokenKind::Greater
            }
        } else if c == '(' {
            TokenKind::LeftParen
        } else if c == ')' {
            TokenKind::RightParen
        } else if c == ',' {
            TokenKind::Comma
        } else if c == '{' {
            TokenKind::LeftBrace
        } else if c == '}' {
            TokenKind::RightBrace
        } else {
            TokenKind::Bad
        }
    }

    /// Whether `found` is the character `wanted`.
    fn holds(found: Option<char>, wanted: char) -> (r: bool)
        ensures
            r == (found == Some(wanted)),
    {
        match found {
            Some(c) => c == wanted,
            None => false,
        }
    }

    /// Whether a character begins a number: a decimal digit.
    pub fn is_number_start(c: &char) -> (r: bool)
        ensures
            r == decimal_digit(*c),
    {
        *c >= '0' && *c <= '9'
    }

    /// Whether a character begins an identifier.
    pub fn is_identifier_start(c: &char) -> (r: bool)
        ensures
            r == identifier_start(*c),
    {
        c.is_alphabetic() || *c == '_'
    }

    /// Whether a character continues an identifier.
    pub fn is_identifier_continue(c: &char) -> (r: bool)
        ensures
            r == identifier_continue(*c),
    {
        c.is_alphanumeric() || *c == '_'
    }

    /// The character at the cursor, if the cursor is inside the input.
    pub fn current_char(&self) -> (r: Option<char>)
        ensures
            r == char_at(self.text(), self.current_pos as int),
    {
        if self.current_pos < self.input.unicode_len() {
            Some(self.input.get_char(self.current_pos))
        } else {
            None
        }
    }

    /// Moves the cursor one position on and returns the character it stood
    /// on. A cursor behind the position that follows the input stays.
    pub fn consume(&mut self) -> (r: Option<char>)
        requires
            old(self).bounded(),
        ensures
            final(self).input == old(self).input,
            old(self).current_pos > old(self).text().len() ==> r is None && final(self).current_pos
                == old(self).current_pos,
            old(self).current_pos <= old(self).text().len() ==> r == char_at(
                old(self).text(),
                old(self).current_pos as int,
            ) && final(self).current_pos == old(self).current_pos + 1,
    {
        if self.current_pos > self.input.unicode_len() {
            return None;
        }
        let c = self.current_char();
        self.current_pos += 1;
        c
    }

    /// Scans a run of decimal digits and returns the number it denotes: zero
    /// where the run is empty or the number does not fit in 64 bits.
    pub fn consume_number(&mut self) -> (r: i64)
        ensures
            final(self).input == old(self).input,
            final(self).current_pos == digits_end(old(self).text(), old(self).current_pos as int),
            r == literal_value(digits_at(old(self).text(), old(self).current_pos as int)),
            old(self).current_pos <= old(self).text().len() ==> final(self).current_pos <= old(
                self,
            ).text().len(),
    {
        let ghost s = self.text();
        let start = self.current_pos;
        let length = self.input.unicode_len();
        if start >= length {
            return 0;
        }
        let mut number: i64 = 0;
        let mut fits = true;
        while self.current_pos < length && Self::is_number_start(
            &self.input.get_char(self.current_pos),
        )
            invariant
                self.input@ == s,
                self.input == old(self).input,
                length == s.len(),
                start == old(self).current_pos,
                start <= self.current_pos <= length,
                digits_end(s, start as int) == digits_end(s, self.current_pos as int),
                fits ==> number == digits_value(s.subrange(start as int, self.current_pos as int)),
                !fits ==> digits_value(s.subrange(start as int, self.current_pos as int))
                    > i64::MAX,
                0 <= number,
            decreases length - self.current_pos,
        {
            let c = self.input.get_char(self.current_pos);
            let digit: i64 = Self::digit_of(c);
            proof {
                lemma_digits_value_step(s, start as int, self.current_pos as int);
            }
            if fits {
                match number.checked_mul(10) {
                    Some(tens) => match tens.checked_add(digit) {
                        Some(sum) => {
                            number = sum;
                        },
                        None => {
                            fits = false;
                        },
                    },
                    None => {
                        fits = false;
                    },
                }
            }
            self.current_pos += 1;
        }
        if fits {
            number
        } else {
            0
        }
    }

    /// The value of a decimal digit.
    fn digit_of(c: char) -> (r: i64)
        requires
            decimal_digit(c),
        ensures
            r == digit_value(c),
            0 <= r <= 9,
    {
        let code: u32 = c as u32;
        (code - 48) as i64
    }

    /// Scans a number: a run of digits, and a fraction where a dot and a digit
    /// follow. Without a fraction the token is an integer, with one a float,
    /// which the float unit reads from the literal.
    pub fn consume_number_or_float<F: FloatUnit>(&mut self, unit: &F) -> (r: TokenKind)
        ensures
            final(self).input == old(self).input,
            final(self).current_pos == number_end(old(self).text(), old(self).current_pos as int),
            r@ == number_kind(old(self).text(), old(self).current_pos as int, r@.float_payload()),
            old(self).current_pos <= old(self).text().len() ==> final(self).current_pos <= old(
                self,
            ).text().len(),
            old(self).current_pos < old(self).text().len() && decimal_digit(
                old(self).text()[old(self).current_pos as int],
            ) ==> old(self).current_pos < final(self).current_pos,
    {
        let ghost s = self.text();
        let start = self.current_pos;
        let length = self.input.unicode_len();
        let number = self.consume_number();
        proof {
            if start <= s.len() {
                lemma_digits_end_bounds(s, start as int);
            }
            if start < s.len() && decimal_digit(s[start as int]) {
                lemma_digits_end_bounds(s, start + 1);
            }
        }
        let fraction = match self.current_char() {
            Some(c) => c == '.' && match self.peek_char(1) {
                Some(d) => Self::is_number_start(&d),
                None => false,
            },
            None => false,
        };
        if fraction {
            self.current_pos += 1;
            let _ = self.consume_number();
            proof {
                lemma_digits_end_bounds(s, digits_end(s, start as int) + 1);
            }
            let literal = self.input.substring_char(start, self.current_pos);
            TokenKind::Float(unit.parse(literal))
        } else {
            TokenKind::Number(number)
        }
    }

    /// Scans a string literal from its opening quote to its closing quote, or
    /// to the end of the input, and returns its text with the escape
    /// sequences resolved.
    pub fn consume_string(&mut self) -> (r: TokenKind)
        requires
            old(self).bounded(),
        ensures
            final(self).input == old(self).input,
            old(self).current_pos <= old(self).text().len() ==> r@ == TokenKindView::String(
                string_scan(old(self).text(), old(self).current_pos + 1, Seq::empty()).0,
            ) && final(self).current_pos == string_scan(
                old(self).text(),
                old(self).current_pos + 1,
                Seq::empty(),
            ).1,
            old(self).current_pos > old(self).text().len() ==> r@ == TokenKindView::String(
                Seq::empty(),
            ) && final(self).current_pos == old(self).current_pos,
            old(self).current_pos < old(self).text().len() ==> old(self).current_pos < final(self).current_pos <= old(self).text().len(),
    {
        let ghost s = self.text();
        let ghost start = self.current_pos + 1;
        let length = self.input.unicode_len();
        if self.current_pos >= length {
            if self.current_pos == length {
                self.current_pos += 1;
            }
            return TokenKind::String(String::new());
        }
        self.current_pos += 1;
        let mut text = String::new();
        let mut open = true;
        while open && self.current_pos < length
            invariant
                self.input@ == s,
                self.input == old(self).input,
                length == s.len(),
                old(self).current_pos < self.current_pos <= length,
                open ==> string_scan(s, start, Seq::empty()) == string_scan(
                    s,
                    self.current_pos as int,
                    text@,
                ),
                !open ==> string_scan(s, start, Seq::empty()) == (text@, self.current_pos as int),
            decreases length - self.current_pos + (if open { 1int } else { 0int }),
        {
            let c = self.input.get_char(self.current_pos);
            if c == '"' {
                self.current_pos += 1;
                open = false;
            } else if c == '\\' {
                self.current_pos += 1;
                if self.current_pos < length {
                    let escaped = self.input.get_char(self.current_pos);
                    self.current_pos += 1;
                    let ghost before = text@;
                    if escaped == 'n' {
                        text.push('\n');
                    } else if escaped == 't' {
                        text.push('\t');
                    } else if escaped == 'r' {
                        text.push('\r');
                    } else if escaped == '\\' {
                        text.push('\\');
                    } else if escaped == '"' {
                        text.push('"');
                    } else {
                        text.push('\\');
                        text.push(escaped);
                    }
                    assert(text@ =~= before + escape(escaped));
                }
            } else {
                text.push(c);
                self.current_pos += 1;
            }
        }
        TokenKind::String(text)
    }

    /// Scans a run of identifier characters and tells a keyword or a truth
    /// value from an identifier by the whole run.
    pub fn consume_identifier(&mut self) -> (r: TokenKind)
        ensures
            final(self).input == old(self).input,
            final(self).current_pos == identifier_end(old(self).text(), old(self).current_pos as int),
            r@ == word_kind(word_at(old(self).text(), old(self).current_pos as int)),
            old(self).current_pos <= final(self).current_pos,
            old(self).current_pos <= old(self).text().len() ==> final(self).current_pos <= old(
                self,
            ).text().len(),
            old(self).current_pos < old(self).text().len() && identifier_continue(
                old(self).text()[old(self).current_pos as int],
            ) ==> old(self).current_pos < final(self).current_pos,
    {
        let ghost s = self.text();
        let start = self.current_pos;
        let length = self.input.unicode_len();
        while self.current_pos < length && Self::is_identifier_continue(
            &self.input.get_char(self.current_pos),
        )
            invariant
                self.input@ == s,
                self.input == old(self).input,
                length == s.len(),
                start == old(self).current_pos,
                start <= self.current_pos,
                start <= length ==> self.current_pos <= length,
                identifier_end(s, start as int) == identifier_end(s, self.current_pos as int),
                start < length && identifier_continue(s[start as int]) ==> start
                    < self.current_pos || identifier_continue(s[self.current_pos as int]),
            decreases length - self.current_pos,
        {
            self.current_pos += 1;
        }
        let word = if start <= length {
            self.input.substring_char(start, self.current_pos)
        } else {
            self.input.substring_char(0, 0)
        };
        assert(word@ =~= word_at(s, start as int));
        if same_text(word, "true") {
            TokenKind::Boolean(true)
        } else if same_text(word, "false") {
            TokenKind::Boolean(false)
        } else if same_text(word, "let") {
            TokenKind::Let
        } else if same_text(word, "const") {
            TokenKind::Const
        } else {
            TokenKind::Identifier(word.to_owned())
        }
    }

    /// The character `offset` positions behind the cursor, if that position is
    /// inside the input.
    pub fn peek_char(&self, offset: usize) -> (r: Option<char>)
        ensures
            r == char_at(self.text(), self.current_pos + offset),
    {
        let length = self.input.unicode_len();
        if offset < length && self.current_pos < length - offset {
            Some(self.input.get_char(self.current_pos + offset))
        } else {
            None
        }
    }

    /// Moves the cursor to the next line feed, or to the end of the input.
    pub fn consume_single_line_comment(&mut self)
        ensures
            final(self).input == old(self).input,
            final(self).current_pos == line_end(old(self).text(), old(self).current_pos as int),
            old(self).current_pos <= final(self).current_pos,
            old(self).current_pos <= old(self).text().len() ==> final(self).current_pos <= old(
                self,
            ).text().len(),
    {
        let ghost s = self.text();
        let length = self.input.unicode_len();
        while self.current_pos < length && self.input.get_char(self.current_pos) != '\n'
            invariant
                self.input@ == s,
                self.input == old(self).input,
                length == s.len(),
                old(self).current_pos <= self.current_pos,
                old(self).current_pos <= length ==> self.current_pos <= length,
                line_end(s, old(self).current_pos as int) == line_end(s, self.current_pos as int),
            decreases length - self.current_pos,
        {
            self.current_pos += 1;
        }
    }

    /// Moves the cursor behind the next `*/`, or to the end of the input.
    pub fn consume_multi_line_comment(&mut self)
        ensures
            final(self).input == old(self).input,
            final(self).current_pos == block_end(old(self).text(), old(self).current_pos as int),
            old(self).current_pos <= final(self).current_pos,
            old(self).current_pos <= old(self).text().len() ==> final(self).current_pos <= old(
                self,
            ).text().len(),
    {
        let ghost s = self.text();
        let length = self.input.unicode_len();
        let mut open = true;
        while open && self.current_pos < length
            invariant
                self.input@ == s,
                self.input == old(self).input,
                length == s.len(),
                old(self).current_pos <= self.current_pos,
                old(self).current_pos <= length ==> self.current_pos <= length,
                open ==> block_end(s, old(self).current_pos as int) == block_end(
                    s,
                    self.current_pos as int,
                ),
                !open ==> block_end(s, old(self).current_pos as int) == self.current_pos,
            decreases length - self.current_pos + (if open { 1int } else { 0int }),
        {
            let c = self.input.get_char(self.current_pos);
            if c == '*' && Self::holds(self.peek_char(1), '/') {
                self.current_pos += 2;
                open = false;
            } else {
                self.current_pos += 1;
            }
        }
    }
}


/// The position behind the first `count` tokens of a text.
pub open spec fn position_after(s: Seq<char>, count: nat) -> int
    decreases count,
{
    if count == 0 {
        0
    } else {
        token_end(s, position_after(s, (count - 1) as nat))
    }
}

/// The views of a sequence of tokens.
pub open spec fn token_views(tokens: Seq<Token>) -> Seq<TokenView> {
    tokens.map_values(|t: Token| t@)
}

/// Whether the first `count` of `tokens` are the first tokens of the text `s`,
/// each beginning where the one before it ends.
pub open spec fn scanned_prefix(s: Seq<char>, tokens: Seq<TokenView>, count: int) -> bool {
    forall|i: int|
        0 <= i < count ==> {
            let pos = position_after(s, i as nat);
            let end = position_after(s, (i + 1) as nat);
            &&& 0 <= pos < end <= s.len()
            &&& (#[trigger] tokens[i]).kind == token_kind(s, pos, tokens[i].kind.float_payload())
            &&& tokens[i].span == TextSpanView {
                start: pos as usize,
                end: end as usize,
                literal: s.subrange(pos, end),
            }
        }
}

/// Whether `tokens` is the token stream of the text `s`: its tokens in
/// order, with no gap between them, and the end token behind the last.
pub open spec fn scanned(s: Seq<char>, tokens: Seq<TokenView>) -> bool {
    &&& tokens.len() > 0
    &&& tokens.last() == end_token()
    &&& position_after(s, (tokens.len() - 1) as nat) == s.len()
    &&& scanned_prefix(s, tokens, tokens.len() - 1)
}

/// Scans a whole text into its token stream.
pub fn tokenize<F: FloatUnit>(input: &str, unit: &F) -> (r: Vec<Token>)
    requires
        input@.len() < usize::MAX,
    ensures
        scanned(input@, token_views(r@)),
{
    let ghost s = input@;
    let length = input.unicode_len();
    let mut lexer = Lexer::new(input);
    let mut tokens: Vec<Token> = Vec::new();
    while lexer.current_pos <= length
        invariant
            lexer.input == input,
            s == input@,
            length == s.len(),
            length < usize::MAX,
            lexer.current_pos <= length + 1,
            lexer.current_pos <= length ==> lexer.current_pos == position_after(
                s,
                tokens@.len(),
            ),
            lexer.current_pos <= length ==> scanned_prefix(
                s,
                token_views(tokens@),
                tokens@.len() as int,
            ),
            lexer.current_pos > length ==> scanned(s, token_views(tokens@)),
        decreases length + 1 - lexer.current_pos,
    {
        let ghost before = token_views(tokens@);
        let ghost count = tokens@.len();
        let next = lexer.next_token(unit);
        match next {
            Some(token) => {
                tokens.push(token);
                proof {
                    let after = token_views(tokens@);
                    assert(after.len() == count + 1);
                    assert(after[count as int] == token@);
                    assert forall|i: int| 0 <= i < count implies after[i] == before[i] by {}
                    assert(position_after(s, (count + 1) as nat) == token_end(
                        s,
                        position_after(s, count),
                    ));
                }
            },
            None => {},
        }
    }
    tokens
}


/// A run of identifier characters ends inside the text, at or behind its start.
pub proof fn lemma_identifier_end_bounds(s: Seq<char>, pos: int)
    requires
        0 <= pos <= s.len(),
    ensures
        pos <= identifier_end(s, pos) <= s.len(),
    decreases s.len() - pos,
{
    if pos < s.len() && identifier_continue(s[pos]) {
        lemma_identifier_end_bounds(s, pos + 1);
    }
}

/// A line ends inside the text, at or behind its start.
pub proof fn lemma_line_end_bounds(s: Seq<char>, pos: int)
    requires
        0 <= pos <= s.len(),
    ensures
        pos <= line_end(s, pos) <= s.len(),
    decreases s.len() - pos,
{
    if pos < s.len() && s[pos] != '\n' {
        lemma_line_end_bounds(s, pos + 1);
    }
}

/// A block comment ends inside the text, at or behind its start.
pub proof fn lemma_block_end_bounds(s: Seq<char>, pos: int)
    requires
        0 <= pos <= s.len(),
    ensures
        pos <= block_end(s, pos) <= s.len(),
    decreases s.len() - pos,
{
    if pos < s.len() && !(s[pos] == '*' && char_at(s, pos + 1) == Some('/')) {
        lemma_block_end_bounds(s, pos + 1);
    }
}

/// A string literal ends inside the text, at or behind the start of its body.
pub proof fn lemma_string_scan_bounds(s: Seq<char>, pos: int, text: Seq<char>)
    requires
        0 <= pos <= s.len(),
    ensures
        pos <= string_scan(s, pos, text).1 <= s.len(),
    decreases s.len() - pos,
{
    if pos < s.len() && s[pos] != '"' {
        if s[pos] == '\\' {
            if pos + 1 < s.len() {
                lemma_string_scan_bounds(s, pos + 2, text + escape(s[pos + 1]));
            }
        } else {
            lemma_string_scan_bounds(s, pos + 1, text.push(s[pos]));
        }
    }
}

/// A run of digits is found in a part of the text as in the whole, up to the
/// end of the part.
proof fn lemma_digits_end_local(s: Seq<char>, pos: int, from: int, end: int)
    requires
        0 <= pos <= from <= end <= s.len(),
    ensures
        digits_end(s.subrange(pos, end), from - pos) == (if digits_end(s, from) <= end {
            digits_end(s, from)
        } else {
            end
        }) - pos,
    decreases end - from,
{
    let part = s.subrange(pos, end);
    lemma_digits_end_bounds(s, from);
    if from < end {
        assert(part[from - pos] == s[from]);
        if decimal_digit(s[from]) {
            lemma_digits_end_local(s, pos, from + 1, end);
        }
    }
}

/// A run of identifier characters is found in a part of the text as in the
/// whole, up to the end of the part.
proof fn lemma_identifier_end_local(s: Seq<char>, pos: int, from: int, end: int)
    requires
        0 <= pos <= from <= end <= s.len(),
    ensures
        identifier_end(s.subrange(pos, end), from - pos) == (if identifier_end(s, from) <= end {
            identifier_end(s, from)
        } else {
            end
        }) - pos,
    decreases end - from,
{
    let part = s.subrange(pos, end);
    lemma_identifier_end_bounds(s, from);
    if from < end {
        assert(part[from - pos] == s[from]);
        if identifier_continue(s[from]) {
            lemma_identifier_end_local(s, pos, from + 1, end);
        }
    }
}

/// A line is found in a part of the text as in the whole, up to the end of the part.
proof fn lemma_line_end_local(s: Seq<char>, pos: int, from: int, end: int)
    requires
        0 <= pos <= from <= end <= s.len(),
    ensures
        line_end(s.subrange(pos, end), from - pos) == (if line_end(s, from) <= end {
            line_end(s, from)
        } else {
            end
        }) - pos,
    decreases end - from,
{
    let part = s.subrange(pos, end);
    lemma_line_end_bounds(s, from);
    if from < end {
        assert(part[from - pos] == s[from]);
        if s[from] != '\n' {
            lemma_line_end_local(s, pos, from + 1, end);
        }
    }
}

/// A block comment is found in the part of the text that ends with it as in the whole.
proof fn lemma_block_end_local(s: Seq<char>, pos: int, from: int)
    requires
        0 <= pos <= from <= s.len(),
    ensures
        block_end(s.subrange(pos, block_end(s, from)), from - pos) == block_end(s, from) - pos,
    decreases s.len() - from,
{
    let end = block_end(s, from);
    lemma_block_end_bounds(s, from);
    let part = s.subrange(pos, end);
    if from < s.len() {
        if s[from] == '*' && char_at(s, from + 1) == Some('/') {
            assert(part[from - pos] == s[from]);
            assert(part[from - pos + 1] == s[from + 1]);
        } else {
            lemma_block_end_bounds(s, from + 1);
            lemma_block_end_local(s, pos, from + 1);
            assert(part[from - pos] == s[from]);
            if from + 1 < end {
                assert(part[from - pos + 1] == s[from + 1]);
            }
        }
    }
}

/// A string literal is found in the part of the text that ends with it as in the whole.
proof fn lemma_string_scan_local(s: Seq<char>, pos: int, from: int, text: Seq<char>)
    requires
        0 <= pos <= from <= s.len(),
    ensures
        string_scan(s.subrange(pos, string_scan(s, from, text).1), from - pos, text) == (
            string_scan(s, from, text).0,
            string_scan(s, from, text).1 - pos,
        ),
    decreases s.len() - from,
{
    let end = string_scan(s, from, text).1;
    lemma_string_scan_bounds(s, from, text);
    let part = s.subrange(pos, end);
    if from < s.len() {
        if s[from] == '"' {
            assert(part[from - pos] == s[from]);
        } else if s[from] == '\\' {
            if from + 1 < s.len() {
                let more = text + escape(s[from + 1]);
                assert(string_scan(s, from, text) == string_scan(s, from + 2, more));
                lemma_string_scan_bounds(s, from + 2, more);
                lemma_string_scan_local(s, pos, from + 2, more);
                assert(part[from - pos] == s[from]);
                assert(part[from - pos + 1] == s[from + 1]);
            } else {
                assert(end == from + 1);
                assert(part[from - pos] == s[from]);
            }
        } else {
            let more = text.push(s[from]);
            assert(string_scan(s, from, text) == string_scan(s, from + 1, more));
            lemma_string_scan_bounds(s, from + 1, more);
            lemma_string_scan_local(s, pos, from + 1, more);
            assert(part[from - pos] == s[from]);
        }
    }
}

/// A token ends behind its start and inside the text.
pub proof fn lemma_token_end_bounds(s: Seq<char>, pos: int)
    requires
        0 <= pos < s.len(),
    ensures
        pos < token_end(s, pos) <= s.len(),
{
    let c = s[pos];
    if decimal_digit(c) {
        lemma_digits_end_bounds(s, pos + 1);
        let dot = digits_end(s, pos);
        if has_fraction(s, pos) {
            lemma_digits_end_bounds(s, dot + 1);
        }
    } else if whitespace(c) {
    } else if c == '"' {
        lemma_string_scan_bounds(s, pos + 1, Seq::empty());
    } else if identifier_start(c) {
        lemma_identifier_end_bounds(s, pos + 1);
    } else if c == '/' && char_at(s, pos + 1) == Some('/') {
        lemma_line_end_bounds(s, pos + 2);
    } else if c == '/' && char_at(s, pos + 1) == Some('*') {
        lemma_block_end_bounds(s, pos + 2);
    }
}

/// Scanning is idempotent on the text of a token: the text of any token of
/// an input, the end token included, scanned alone, begins with a token of
/// the same kind that covers the whole text. Of a float token the float unit
/// reads the same literal both times.
pub proof fn law_token_rescans(s: Seq<char>, pos: int, float: FloatBits)
    requires
        0 <= pos <= s.len(),
    ensures
        token_at(s, pos, float) is Some,
        token_at(token_at(s, pos, float)->0.span.literal, 0, float) is Some,
        token_at(token_at(s, pos, float)->0.span.literal, 0, float)->0.kind == token_at(
            s,
            pos,
            float,
        )->0.kind,
        token_at(token_at(s, pos, float)->0.span.literal, 0, float)->0.span.literal == token_at(
            s,
            pos,
            float,
        )->0.span.literal,
        pos < s.len() ==> pos < token_end(s, pos) <= s.len(),
        pos < s.len() ==> token_end(s.subrange(pos, token_end(s, pos)), 0) == token_end(s, pos)
            - pos,
        pos < s.len() ==> token_kind(s.subrange(pos, token_end(s, pos)), 0, float) == token_kind(
            s,
            pos,
            float,
        ),
{
    if pos < s.len() {
        lemma_inner_token_rescans(s, pos, float);
        let part = s.subrange(pos, token_end(s, pos));
        assert(part.subrange(0, part.len() as int) =~= part);
    }
}

/// The text of a token that begins inside the input, scanned alone, is one
/// token of the same kind.
proof fn lemma_inner_token_rescans(s: Seq<char>, pos: int, float: FloatBits)
    requires
        0 <= pos < s.len(),
    ensures
        pos < token_end(s, pos) <= s.len(),
        token_end(s.subrange(pos, token_end(s, pos)), 0) == token_end(s, pos) - pos,
        token_kind(s.subrange(pos, token_end(s, pos)), 0, float) == token_kind(s, pos, float),
{
    lemma_token_end_bounds(s, pos);
    let end = token_end(s, pos);
    let part = s.subrange(pos, end);
    let c = s[pos];
    assert(part[0] == c);
    if decimal_digit(c) {
        let dot = digits_end(s, pos);
        lemma_digits_end_bounds(s, pos);
        lemma_digits_end_local(s, pos, pos, end);
        if has_fraction(s, pos) {
            lemma_digits_end_bounds(s, dot + 2);
            assert(digits_end(s, dot + 1) == digits_end(s, dot + 2));
            lemma_digits_end_local(s, pos, dot + 1, end);
            assert(part[dot - pos] == s[dot]);
            assert(part[dot + 1 - pos] == s[dot + 1]);
            assert(has_fraction(part, 0));
        } else {
            assert(!has_fraction(part, 0));
            assert(part.subrange(0, dot - pos) =~= s.subrange(pos, dot));
        }
    } else if whitespace(c) {
    } else if c == '"' {
        lemma_string_scan_local(s, pos, pos + 1, Seq::empty());
    } else if identifier_start(c) {
        lemma_identifier_end_local(s, pos, pos, end);
        assert(part.subrange(0, end - pos) =~= s.subrange(pos, end));
    } else {
        let next = char_at(s, pos + 1);
        if end >= pos + 2 {
            assert(part[1] == s[pos + 1]);
        }
        if c == '/' && next == Some('/') {
            lemma_line_end_bounds(s, pos + 2);
            lemma_line_end_local(s, pos, pos + 2, end);
        } else if c == '/' && next == Some('*') {
            lemma_block_end_bounds(s, pos + 2);
            lemma_block_end_local(s, pos, pos + 2);
        }
    }
}

} // verus!
