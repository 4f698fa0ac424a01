//! The lexer. It turns source bytes into tokens and keeps the off-side rule: a
//! stack of indentation widths gives rise to `Indent` and `Dedent` tokens, so that
//! blocks reach the parser as if they stood in braces. Inside brackets line ends
//! and indentation carry no meaning.

use crate::text::{dec_nat, push_char, push_u64, str_eq};
use vstd::prelude::*;
use vstd::string::{StringExecFns, StringSliceAdditionalSpecFns};

verus! {

/// A token. The text of a float literal is kept as it was written, without
/// underscores.
#[derive(Debug, Clone, PartialEq)]
pub enum Tok {
    Int(i64),
    Float(String),
    Str(String),
    FStr(String),
    Ident(String),
    Let,
    Mut,
    Fn,
    If,
    Elif,
    Else,
    For,
    In,
    While,
    Return,
    Match,
    Case,
    Struct,
    Enum,
    Trait,
    Impl,
    Import,
    From,
    As,
    Export,
    Extern,
    TypeKw,
    Dynamic,
    Weak,
    And,
    Or,
    Not,
    True,
    False,
    Nil,
    Break,
    Continue,
    Try,
    Catch,
    Raise,
    Do,
    End,
    SelfKw,
    With,
    Plus,
    Minus,
    Star,
    StarStar,
    Slash,
    Percent,
    PlusEq,
    MinusEq,
    StarEq,
    SlashEq,
    EqEq,
    NotEq,
    Lt,
    LtEq,
    Gt,
    GtEq,
    Assign,
    Colon,
    Comma,
    Dot,
    Arrow,
    FatArrow,
    LParen,
    RParen,
    LBracket,
    RBracket,
    LBrace,
    RBrace,
    DotDot,
    Newline,
    Indent,
    Dedent,
    Eof,
}

/// What a token stands for; the tokens without a payload stand for themselves.
pub enum TokView {
    Int(i64),
    Float(Seq<char>),
    Str(Seq<char>),
    FStr(Seq<char>),
    Ident(Seq<char>),
    Plain(Tok),
}

impl View for Tok {
    type V = TokView;

    open spec fn view(&self) -> TokView {
        match *self {
            Tok::Int(n) => TokView::Int(n),
            Tok::Float(s) => TokView::Float(s@),
            Tok::Str(s) => TokView::Str(s@),
            Tok::FStr(s) => TokView::FStr(s@),
            Tok::Ident(s) => TokView::Ident(s@),
            t => TokView::Plain(t),
        }
    }
}

/// A token and the place just behind it, lines and columns counted from 1.
#[derive(Debug, Clone)]
pub struct Token {
    pub tok: Tok,
    pub line: usize,
    pub col: usize,
}

pub struct TokenView {
    pub tok: TokView,
    pub line: int,
    pub col: int,
}

impl View for Token {
    type V = TokenView;

    open spec fn view(&self) -> TokenView {
        TokenView { tok: self.tok@, line: self.line as int, col: self.col as int }
    }
}

pub open spec fn tokens_view(s: Seq<Token>) -> Seq<TokenView> {
    Seq::new(s.len(), |i: int| s[i]@)
}

/// The keyword that a word spells, if it spells one.
pub open spec fn keyword_spec(s: Seq<char>) -> Option<Tok> {
    if s == "let"@ {
        Some(Tok::Let)
    } else if s == "mut"@ {
        Some(Tok::Mut)
    } else if s == "fn"@ {
        Some(Tok::Fn)
    } else if s == "if"@ {
        Some(Tok::If)
    } else if s == "elif"@ {
        Some(Tok::Elif)
    } else if s == "else"@ {
        Some(Tok::Else)
    } else if s == "for"@ {
        Some(Tok::For)
    } else if s == "in"@ {
        Some(Tok::In)
    } else if s == "while"@ {
        Some(Tok::While)
    } else if s == "return"@ {
        Some(Tok::Return)
    } else if s == "match"@ {
        Some(Tok::Match)
    } else if s == "case"@ {
        Some(Tok::Case)
    } else if s == "struct"@ {
        Some(Tok::Struct)
    } else if s == "enum"@ {
        Some(Tok::Enum)
    } else if s == "trait"@ {
        Some(Tok::Trait)
    } else if s == "impl"@ {
        Some(Tok::Impl)
    } else if s == "import"@ {
        Some(Tok::Import)
    } else if s == "from"@ {
        Some(Tok::From)
    } else if s == "as"@ {
        Some(Tok::As)
    } else if s == "export"@ {
        Some(Tok::Export)
    } else if s == "extern"@ {
        Some(Tok::Extern)
    } else if s == "dynamic"@ {
        Some(Tok::Dynamic)
    } else if s == "weak"@ {
        Some(Tok::Weak)
    } else if s == "and"@ {
        Some(Tok::And)
    } else if s == "or"@ {
        Some(Tok::Or)
    } else if s == "not"@ {
        Some(Tok::Not)
    } else if s == "true"@ {
        Some(Tok::True)
    } else if s == "false"@ {
        Some(Tok::False)
    } else if s == "nil"@ {
        Some(Tok::Nil)
    } else if s == "break"@ {
        Some(Tok::Break)
    } else if s == "continue"@ {
        Some(Tok::Continue)
    } else if s == "try"@ {
        Some(Tok::Try)
    } else if s == "catch"@ {
        Some(Tok::Catch)
    } else if s == "raise"@ {
        Some(Tok::Raise)
    } else if s == "do"@ {
        Some(Tok::Do)
    } else if s == "end"@ {
        Some(Tok::End)
    } else if s == "self"@ {
        Some(Tok::SelfKw)
    } else if s == "with"@ {
        Some(Tok::With)
    } else {
        None
    }
}

fn keyword(s: &str) -> (r: Option<Tok>)
    ensures
        r == keyword_spec(s@),
{
    if str_eq(s, "let") {
        Some(Tok::Let)
    } else if str_eq(s, "mut") {
        Some(Tok::Mut)
    } else if str_eq(s, "fn") {
        Some(Tok::Fn)
    } else if str_eq(s, "if") {
        Some(Tok::If)
    } else if str_eq(s, "elif") {
        Some(Tok::Elif)
    } else if str_eq(s, "else") {
        Some(Tok::Else)
    } else if str_eq(s, "for") {
        Some(Tok::For)
    } else if str_eq(s, "in") {
        Some(Tok::In)
    } else if str_eq(s, "while") {
        Some(Tok::While)
    } else if str_eq(s, "return") {
        Some(Tok::Return)
    } else if str_eq(s, "match") {
        Some(Tok::Match)
    } else if str_eq(s, "case") {
        Some(Tok::Case)
    } else if str_eq(s, "struct") {
        Some(Tok::Struct)
    } else if str_eq(s, "enum") {
        Some(Tok::Enum)
    } else if str_eq(s, "trait") {
        Some(Tok::Trait)
    } else if str_eq(s, "impl") {
        Some(Tok::Impl)
    } else if str_eq(s, "import") {
        Some(Tok::Import)
    } else if str_eq(s, "from") {
        Some(Tok::From)
    } else if str_eq(s, "as") {
        Some(Tok::As)
    } else if str_eq(s, "export") {
        Some(Tok::Export)
    } else if str_eq(s, "extern") {
        Some(Tok::Extern)
    } else if str_eq(s, "dynamic") {
        Some(Tok::Dynamic)
    } else if str_eq(s, "weak") {
        Some(Tok::Weak)
    } else if str_eq(s, "and") {
        Some(Tok::And)
    } else if str_eq(s, "or") {
        Some(Tok::Or)
    } else if str_eq(s, "not") {
        Some(Tok::Not)
    } else if str_eq(s, "true") {
        Some(Tok::True)
    } else if str_eq(s, "false") {
        Some(Tok::False)
    } else if str_eq(s, "nil") {
        Some(Tok::Nil)
    } else if str_eq(s, "break") {
        Some(Tok::Break)
    } else if str_eq(s, "continue") {
        Some(Tok::Continue)
    } else if str_eq(s, "try") {
        Some(Tok::Try)
    } else if str_eq(s, "catch") {
        Some(Tok::Catch)
    } else if str_eq(s, "raise") {
        Some(Tok::Raise)
    } else if str_eq(s, "do") {
        Some(Tok::Do)
    } else if str_eq(s, "end") {
        Some(Tok::End)
    } else if str_eq(s, "self") {
        Some(Tok::SelfKw)
    } else if str_eq(s, "with") {
        Some(Tok::With)
    } else {
        None
    }
}

/// Kinds of bytes that the lexer runs over.
#[derive(Debug, Clone, Copy, PartialEq, Eq, Structural)]
pub enum Class {
    /// Space, tab and carriage return.
    Blank,
    /// Space and tab.
    Margin,
    /// All but the line end.
    Line,
    /// Letters, digits and the underscore.
    Word,
    /// Digits and the underscore.
    Number,
    Digit,
}

pub open spec fn is_digit(c: u8) -> bool {
    0x30 <= c <= 0x39
}

pub open spec fn is_letter(c: u8) -> bool {
    0x41 <= c <= 0x5a || 0x61 <= c <= 0x7a
}

pub open spec fn in_class(k: Class, c: u8) -> bool {
    match k {
        Class::Blank => c == 0x20 || c == 0x09 || c == 0x0d,
        Class::Margin => c == 0x20 || c == 0x09,
        Class::Line => c != 0x0a,
        Class::Word => is_letter(c) || is_digit(c) || c == 0x5f,
        Class::Number => is_digit(c) || c == 0x5f,
        Class::Digit => is_digit(c),
    }
}

fn class_has(k: Class, c: u8) -> (r: bool)
    ensures
        r == in_class(k, c),
{
    match k {
        Class::Blank => c == 0x20 || c == 0x09 || c == 0x0d,
        Class::Margin => c == 0x20 || c == 0x09,
        Class::Line => c != 0x0a,
        Class::Word => (0x41 <= c && c <= 0x5a) || (0x61 <= c && c <= 0x7a) || (0x30 <= c && c
            <= 0x39) || c == 0x5f,
        Class::Number => (0x30 <= c && c <= 0x39) || c == 0x5f,
        Class::Digit => 0x30 <= c && c <= 0x39,
    }
}

/// How far the lexer has come.
pub struct Lex {
    pub pos: int,
    pub line: int,
    pub col: int,
    pub indents: Seq<int>,
    pub pending: Seq<TokenView>,
    pub at_line_start: bool,
    pub depth: int,
}

pub open spec fn lex_start() -> Lex {
    Lex {
        pos: 0,
        line: 1,
        col: 1,
        indents: seq![0int],
        pending: Seq::empty(),
        at_line_start: true,
        depth: 0,
    }
}

/// The byte at `i`; 0 stands for the end.
pub open spec fn byte_at(src: Seq<u8>, i: int) -> u8 {
    if 0 <= i < src.len() {
        src[i]
    } else {
        0
    }
}

/// Steps over one byte.
pub open spec fn bump(src: Seq<u8>, s: Lex) -> Lex {
    if byte_at(src, s.pos) == 0x0a {
        Lex { pos: s.pos + 1, line: s.line + 1, col: 1, ..s }
    } else {
        Lex { pos: s.pos + 1, col: s.col + 1, ..s }
    }
}

/// Steps over the bytes of one kind.
pub open spec fn run(src: Seq<u8>, s: Lex, k: Class) -> Lex
    decreases src.len() - s.pos,
{
    if 0 <= s.pos < src.len() && in_class(k, src[s.pos]) {
        run(src, bump(src, s), k)
    } else {
        s
    }
}

/// Steps to behind the end of a block comment, or to the end of the source.
pub open spec fn block_end(src: Seq<u8>, s: Lex) -> Lex
    decreases src.len() - s.pos,
{
    if 0 <= s.pos < src.len() {
        if src[s.pos] == 0x5d && byte_at(src, s.pos + 1) == 0x23 {
            bump(src, bump(src, s))
        } else {
            block_end(src, bump(src, s))
        }
    } else {
        s
    }
}

/// Steps over a block comment from its opening `#[`.
pub open spec fn skip_block(src: Seq<u8>, s: Lex) -> Lex {
    block_end(src, bump(src, bump(src, s)))
}

/// Steps over blanks and comments.
pub open spec fn skip_trivia(src: Seq<u8>, s: Lex) -> Lex
    decreases src.len() + 2 - s.pos,
{
    let c = byte_at(src, s.pos);
    let t = if in_class(Class::Blank, c) {
        bump(src, s)
    } else if c == 0x23 {
        if byte_at(src, s.pos + 1) == 0x5b {
            skip_block(src, s)
        } else {
            run(src, s, Class::Line)
        }
    } else {
        s
    };
    if 0 <= s.pos < t.pos <= src.len() + 1 {
        skip_trivia(src, t)
    } else {
        t
    }
}

pub open spec fn mk(s: Lex, t: TokView) -> TokenView {
    TokenView { tok: t, line: s.line, col: s.col }
}

pub open spec fn line_error(s: Lex, m: Seq<char>) -> Seq<char> {
    "line "@ + dec_nat(s.line as nat) + ": "@ + m
}

/// The stack once every width above `width` is taken off.
pub open spec fn close(indents: Seq<int>, width: int) -> Seq<int>
    decreases indents.len(),
{
    if indents.len() > 0 && width < indents.last() {
        close(indents.drop_last(), width)
    } else {
        indents
    }
}

pub open spec fn dedents(s: Lex, n: int) -> Seq<TokenView> {
    Seq::new(n as nat, |i: int| mk(s, TokView::Plain(Tok::Dedent)))
}

/// The layout token for a line of the given indentation: an `Indent` where it is
/// wider than the enclosing block, a `Dedent` for each block that it leaves. All but
/// the first of these wait in `pending`.
pub open spec fn emit_indent(s: Lex, width: int) -> Result<(Lex, Option<TokenView>), Seq<char>> {
    let cur = s.indents.last();
    if width > cur {
        let t = Lex { indents: s.indents.push(width), ..s };
        Ok((t, Some(mk(t, TokView::Plain(Tok::Indent)))))
    } else if width < cur {
        let kept = close(s.indents, width);
        let t = Lex {
            indents: kept,
            pending: s.pending + dedents(s, s.indents.len() - kept.len() - 1),
            ..s
        };
        if width != kept.last() {
            Err(line_error(t, "inconsistent indentation"@))
        } else {
            Ok((t, Some(mk(t, TokView::Plain(Tok::Dedent)))))
        }
    } else {
        Ok((s, None))
    }
}

/// Takes up a line: a blank one or one of comments alone is stepped over; another
/// gives its layout token.
pub open spec fn handle_line(src: Seq<u8>, s: Lex) -> Result<(Lex, Option<TokenView>), Seq<char>> {
    let t = run(src, s, Class::Margin);
    let width = t.pos - s.pos;
    let c = byte_at(src, t.pos);
    if c == 0x23 && byte_at(src, t.pos + 1) == 0x5b {
        let u = run(src, skip_block(src, t), Class::Blank);
        let after = byte_at(src, u.pos);
        if after == 0x0a {
            Ok((Lex { at_line_start: true, ..bump(src, u) }, None))
        } else if after == 0 {
            Ok((Lex { at_line_start: true, ..u }, None))
        } else {
            emit_indent(Lex { at_line_start: false, ..u }, width)
        }
    } else if c == 0x0a {
        Ok((Lex { at_line_start: true, ..bump(src, t) }, None))
    } else if c == 0x23 {
        let u = run(src, t, Class::Line);
        let v = if byte_at(src, u.pos) == 0x0a {
            bump(src, u)
        } else {
            u
        };
        Ok((Lex { at_line_start: true, ..v }, None))
    } else if c == 0 {
        Ok((Lex { at_line_start: true, ..t }, None))
    } else {
        emit_indent(Lex { at_line_start: false, ..t }, width)
    }
}

/// Takes up lines until one has content, a layout token comes up or the source ends.
pub open spec fn handle_lines(src: Seq<u8>, s: Lex) -> Result<(Lex, Option<TokenView>), Seq<char>>
    decreases src.len() + 2 - s.pos,
{
    if s.at_line_start && s.depth == 0 {
        match handle_line(src, s) {
            Err(m) => Err(m),
            Ok((t, Some(tok))) => Ok((t, Some(tok))),
            Ok((t, None)) => if !t.at_line_start || byte_at(src, t.pos) == 0 {
                Ok((t, None))
            } else if s.pos < t.pos <= src.len() + 1 {
                handle_lines(src, t)
            } else {
                Ok((t, None))
            },
        }
    } else {
        Ok((s, None))
    }
}

/// The characters that the bytes from `i` to `j` stand for, one for one.
pub open spec fn chars_of(src: Seq<u8>, i: int, j: int) -> Seq<char> {
    Seq::new((j - i) as nat, |k: int| src[i + k] as char)
}

/// The characters of a word of bytes, without the underscores.
pub open spec fn digits_of(src: Seq<u8>, i: int, j: int) -> Seq<char>
    decreases j - i,
{
    if i >= j {
        Seq::empty()
    } else {
        let init = digits_of(src, i, j - 1);
        if src[j - 1] == 0x5f {
            init
        } else {
            init.push(src[j - 1] as char)
        }
    }
}

/// The number that the digits from `i` to `j` spell, underscores left out.
pub open spec fn numeral(src: Seq<u8>, i: int, j: int) -> nat
    decreases j - i,
{
    if i >= j {
        0
    } else if src[j - 1] == 0x5f {
        numeral(src, i, j - 1)
    } else {
        numeral(src, i, j - 1) * 10 + (src[j - 1] - 0x30) as nat
    }
}

/// A number literal: digits with underscores, a fraction where a digit follows the
/// point, an exponent.
pub open spec fn lex_number(src: Seq<u8>, s: Lex) -> Result<(Lex, TokenView), Seq<char>> {
    let a = run(src, s, Class::Number);
    let point = byte_at(src, a.pos) == 0x2e && is_digit(byte_at(src, a.pos + 1));
    let b = if point {
        run(src, bump(src, a), Class::Number)
    } else {
        a
    };
    let exponent = byte_at(src, b.pos) == 0x65 || byte_at(src, b.pos) == 0x45;
    if exponent {
        let c = bump(src, b);
        let d = if byte_at(src, c.pos) == 0x2b || byte_at(src, c.pos) == 0x2d {
            bump(src, c)
        } else {
            c
        };
        let e = run(src, d, Class::Digit);
        if e.pos == d.pos {
            Err(line_error(e, "bad float: invalid float literal"@))
        } else {
            Ok((e, mk(e, TokView::Float(digits_of(src, s.pos, e.pos)))))
        }
    } else if point {
        Ok((b, mk(b, TokView::Float(digits_of(src, s.pos, b.pos)))))
    } else {
        let n = numeral(src, s.pos, b.pos);
        if n > i64::MAX {
            Err(line_error(b, "bad int: number too large to fit in target type"@))
        } else {
            Ok((b, mk(b, TokView::Int(n as i64))))
        }
    }
}

/// What a backslash and `c` stand for in a string.
pub open spec fn escaped(c: u8) -> Seq<char> {
    if c == 0x6e {
        seq!['\n']
    } else if c == 0x74 {
        seq!['\t']
    } else if c == 0x72 {
        seq!['\r']
    } else if c == 0x5c {
        seq!['\\']
    } else if c == 0x22 {
        seq!['"']
    } else if c == 0x27 {
        seq!['\'']
    } else if c == 0x30 {
        seq!['\0']
    } else if c == 0x7b {
        seq!['{']
    } else if c == 0x7d {
        seq!['}']
    } else {
        seq!['\\', c as char]
    }
}

/// The rest of a string up to its closing quote, behind the characters read so far.
pub open spec fn string_body(src: Seq<u8>, s: Lex, quote: u8, acc: Seq<char>) -> Result<
    (Lex, Seq<char>),
    Seq<char>,
>
    decreases src.len() + 2 - s.pos,
{
    let c = byte_at(src, s.pos);
    if c == 0 || !(0 <= s.pos < src.len()) {
        Err(line_error(s, "unterminated string"@))
    } else if c == quote {
        Ok((bump(src, s), acc))
    } else if c == 0x5c {
        let t = bump(src, s);
        string_body(src, bump(src, t), quote, acc + escaped(byte_at(src, t.pos)))
    } else {
        string_body(src, bump(src, s), quote, acc.push(c as char))
    }
}

pub open spec fn lex_string(src: Seq<u8>, s: Lex, fstring: bool) -> Result<
    (Lex, TokenView),
    Seq<char>,
> {
    match string_body(src, bump(src, s), byte_at(src, s.pos), Seq::empty()) {
        Err(m) => Err(m),
        Ok((t, text)) => Ok(
            (
                t,
                mk(
                    t,
                    if fstring {
                        TokView::FStr(text)
                    } else {
                        TokView::Str(text)
                    },
                ),
            ),
        ),
    }
}

/// The text of a character between quotes, as `{:?}` prints it.
pub uninterp spec fn debug_text(c: char) -> Seq<char>;

/// `format!("{c:?}")`: the character between quotes, with an escape where it is not
/// printable. The text is named, not spelled out: it rests on a table of the
/// printable characters.
#[verifier::external_body]
fn debug_char(c: char) -> (r: String)
    ensures
        r@ == debug_text(c),
{
    format!("{c:?}")
}

/// The operator that starts with `c`, given the byte behind it, and whether it takes
/// up that byte too.
pub open spec fn operator(c: u8, next: u8) -> Option<(Tok, bool)> {
    if c == 0x2b {
        if next == 0x3d {
            Some((Tok::PlusEq, true))
        } else {
            Some((Tok::Plus, false))
        }
    } else if c == 0x2d {
        if next == 0x3e {
            Some((Tok::Arrow, true))
        } else if next == 0x3d {
            Some((Tok::MinusEq, true))
        } else {
            Some((Tok::Minus, false))
        }
    } else if c == 0x2a {
        if next == 0x2a {
            Some((Tok::StarStar, true))
        } else if next == 0x3d {
            Some((Tok::StarEq, true))
        } else {
            Some((Tok::Star, false))
        }
    } else if c == 0x2f {
        if next == 0x3d {
            Some((Tok::SlashEq, true))
        } else {
            Some((Tok::Slash, false))
        }
    } else if c == 0x25 {
        Some((Tok::Percent, false))
    } else if c == 0x28 {
        Some((Tok::LParen, false))
    } else if c == 0x29 {
        Some((Tok::RParen, false))
    } else if c == 0x5b {
        Some((Tok::LBracket, false))
    } else if c == 0x5d {
        Some((Tok::RBracket, false))
    } else if c == 0x7b {
        Some((Tok::LBrace, false))
    } else if c == 0x7d {
        Some((Tok::RBrace, false))
    } else if c == 0x3a {
        Some((Tok::Colon, false))
    } else if c == 0x2c {
        Some((Tok::Comma, false))
    } else if c == 0x2e {
        if next == 0x2e {
            Some((Tok::DotDot, true))
        } else {
            Some((Tok::Dot, false))
        }
    } else if c == 0x3d {
        if next == 0x3d {
            Some((Tok::EqEq, true))
        } else if next == 0x3e {
            Some((Tok::FatArrow, true))
        } else {
            Some((Tok::Assign, false))
        }
    } else if c == 0x21 && next == 0x3d {
        Some((Tok::NotEq, true))
    } else if c == 0x3c {
        if next == 0x3d {
            Some((Tok::LtEq, true))
        } else {
            Some((Tok::Lt, false))
        }
    } else if c == 0x3e {
        if next == 0x3d {
            Some((Tok::GtEq, true))
        } else {
            Some((Tok::Gt, false))
        }
    } else if c == 0x3b {
        Some((Tok::Newline, false))
    } else {
        None
    }
}

/// By how much the byte changes the depth of open brackets.
pub open spec fn depth_step(c: u8) -> int {
    if c == 0x28 || c == 0x5b || c == 0x7b {
        1
    } else if c == 0x29 || c == 0x5d || c == 0x7d {
        -1
    } else {
        0
    }
}

pub open spec fn lex_operator(src: Seq<u8>, s: Lex) -> Result<(Lex, TokenView), Seq<char>> {
    let c = byte_at(src, s.pos);
    let t = bump(src, s);
    match operator(c, byte_at(src, t.pos)) {
        Some((tok, wide)) => {
            let u = Lex {
                depth: t.depth + depth_step(c),
                ..if wide {
                    bump(src, t)
                } else {
                    t
                }
            };
            Ok((u, mk(u, TokView::Plain(tok))))
        },
        None => if c == 0x21 {
            Err(line_error(t, "unexpected '!'"@))
        } else {
            Err(line_error(t, "unexpected character "@ + debug_text(c as char)))
        },
    }
}

/// A word: a keyword or an identifier.
pub open spec fn lex_word(src: Seq<u8>, s: Lex) -> (Lex, TokenView) {
    let t = run(src, s, Class::Word);
    let word = chars_of(src, s.pos, t.pos);
    (
        t,
        mk(
            t,
            match keyword_spec(word) {
                Some(k) => TokView::Plain(k),
                None => TokView::Ident(word),
            },
        ),
    )
}

/// The token that starts at a byte other than a blank, a comment or a line end.
pub open spec fn lex_content(src: Seq<u8>, s: Lex) -> Result<(Lex, TokenView), Seq<char>> {
    let c = byte_at(src, s.pos);
    let next = byte_at(src, s.pos + 1);
    if is_letter(c) || c == 0x5f {
        if (c == 0x66 || c == 0x46) && (next == 0x22 || next == 0x27) {
            lex_string(src, bump(src, s), true)
        } else {
            Ok(lex_word(src, s))
        }
    } else if is_digit(c) {
        lex_number(src, s)
    } else if c == 0x22 || c == 0x27 {
        lex_string(src, s, false)
    } else {
        lex_operator(src, s)
    }
}

/// The next token.
pub open spec fn next_token_spec(src: Seq<u8>, s: Lex) -> Result<(Lex, TokenView), Seq<char>>
    decreases src.len() + 2 - s.pos,
{
    if s.pending.len() > 0 {
        Ok((Lex { pending: s.pending.drop_last(), ..s }, s.pending.last()))
    } else {
        match handle_lines(src, s) {
            Err(m) => Err(m),
            Ok((t, Some(tok))) => Ok((t, tok)),
            Ok((t, None)) => {
                let u = skip_trivia(src, t);
                let c = byte_at(src, u.pos);
                if c == 0 {
                    if u.indents.len() > 1 {
                        Ok(
                            (
                                Lex { indents: u.indents.drop_last(), ..u },
                                mk(u, TokView::Plain(Tok::Dedent)),
                            ),
                        )
                    } else {
                        Ok((u, mk(u, TokView::Plain(Tok::Eof))))
                    }
                } else if c == 0x0a {
                    let v = bump(src, u);
                    if v.depth == 0 {
                        Ok(
                            (
                                Lex { at_line_start: true, ..v },
                                mk(v, TokView::Plain(Tok::Newline)),
                            ),
                        )
                    } else if s.pos < v.pos <= src.len() + 1 {
                        next_token_spec(src, v)
                    } else {
                        Err(Seq::empty())
                    }
                } else {
                    lex_content(src, u)
                }
            },
        }
    }
}

/// What is left to do: bytes to read, blocks to close, tokens to hand out.
pub open spec fn work_left(src: Seq<u8>, s: Lex) -> int {
    3 * (src.len() + 2 - s.pos) + 2 * s.indents.len() + s.pending.len()
}

/// All tokens from a state on, up to the end.
pub open spec fn tokens_spec(src: Seq<u8>, s: Lex) -> Result<Seq<TokenView>, Seq<char>>
    decreases work_left(src, s),
{
    match next_token_spec(src, s) {
        Err(m) => Err(m),
        Ok((t, tok)) => if tok.tok == TokView::Plain(Tok::Eof) {
            Ok(seq![tok])
        } else if 0 <= work_left(src, t) < work_left(src, s) {
            match tokens_spec(src, t) {
                Err(m) => Err(m),
                Ok(rest) => Ok(seq![tok] + rest),
            }
        } else {
            Err(Seq::empty())
        },
    }
}

/// The lexer's state.
pub struct Lexer<'a> {
    src: &'a [u8],
    pos: usize,
    line: usize,
    col: usize,
    indents: Vec<usize>,
    pending: Vec<Token>,
    at_line_start: bool,
    depth: i64,
}

impl<'a> View for Lexer<'a> {
    type V = Lex;

    closed spec fn view(&self) -> Lex {
        Lex {
            pos: self.pos as int,
            line: self.line as int,
            col: self.col as int,
            indents: self.indents@.map_values(|w: usize| w as int),
            pending: tokens_view(self.pending@),
            at_line_start: self.at_line_start,
            depth: self.depth as int,
        }
    }
}

impl<'a> Lexer<'a> {
    pub closed spec fn bytes(&self) -> Seq<u8> {
        self.src@
    }

    /// The counters fit, and the indentation stack has its bottom.
    pub closed spec fn wf(&self) -> bool {
        &&& self.src@.len() <= isize::MAX
        &&& self.pos <= self.src@.len() + 1
        &&& 1 <= self.line <= self.pos + 1
        &&& 1 <= self.col <= self.pos + 1
        &&& -self.pos <= self.depth <= self.pos
        &&& self.indents@.len() > 0
        &&& self.indents@[0] == 0
        &&& self.indents@.len() <= self.pos + 1
        &&& self.pending@.len() <= self.pos + 1
    }

    /// A lexer at the start of `src`. (No string is longer than `isize::MAX` bytes.)
    pub fn new(src: &'a str) -> (r: Self)
        requires
            src.spec_bytes().len() <= isize::MAX,
        ensures
            r.wf(),
            r.bytes() == src.spec_bytes(),
            r@ == lex_start(),
    {
        let r = Lexer {
            src: src.as_bytes(),
            pos: 0,
            line: 1,
            col: 1,
            indents: vec![0],
            pending: Vec::new(),
            at_line_start: true,
            depth: 0,
        };
        assert(r@.indents =~= lex_start().indents);
        assert(r@.pending =~= lex_start().pending);
        r
    }

    fn peek(&self) -> (r: u8)
        ensures
            r == byte_at(self.bytes(), self@.pos),
    {
        if self.pos < self.src.len() {
            self.src[self.pos]
        } else {
            0
        }
    }

    fn peek2(&self) -> (r: u8)
        requires
            self.wf(),
        ensures
            r == byte_at(self.bytes(), self@.pos + 1),
    {
        if self.pos + 1 < self.src.len() {
            self.src[self.pos + 1]
        } else {
            0
        }
    }

    fn bump(&mut self)
        requires
            old(self).wf(),
            old(self)@.pos <= old(self).bytes().len(),
        ensures
            final(self).wf(),
            final(self).bytes() == old(self).bytes(),
            final(self)@ == bump(old(self).bytes(), old(self)@),
    {
        let c: u8 = self.peek();
        self.pos = self.pos + 1;
        if c == 0x0a {
            self.line = self.line + 1;
            self.col = 1;
        } else {
            self.col = self.col + 1;
        }
    }

    fn run(&mut self, k: Class)
        requires
            old(self).wf(),
        ensures
            final(self).wf(),
            final(self).bytes() == old(self).bytes(),
            final(self)@ == run(old(self).bytes(), old(self)@, k),
            final(self)@.pos >= old(self)@.pos,
            final(self)@.pos > old(self)@.pos ==> final(self)@.pos <= old(self).bytes().len(),
            forall|i: int|
                old(self)@.pos <= i < final(self)@.pos ==> in_class(
                    k,
                    #[trigger] old(self).bytes()[i],
                ),
            final(self)@.indents == old(self)@.indents,
            final(self)@.pending == old(self)@.pending,
            final(self)@.at_line_start == old(self)@.at_line_start,
            final(self)@.depth == old(self)@.depth,
            final(self)@.pos < old(self).bytes().len() ==> !in_class(
                k,
                old(self).bytes()[final(self)@.pos],
            ),
    {
        let ghost s0 = self@;
        let ghost src = self.bytes();
        while self.pos < self.src.len() && class_has(k, self.src[self.pos])
            invariant
                self.wf(),
                self.bytes() == src,
                run(src, s0, k) == run(src, self@, k),
                self@.pos >= s0.pos,
                self@.pos > s0.pos ==> self@.pos <= src.len(),
                forall|i: int| s0.pos <= i < self@.pos ==> in_class(k, #[trigger] src[i]),
                self@.indents == s0.indents,
                self@.pending == s0.pending,
                self@.at_line_start == s0.at_line_start,
                self@.depth == s0.depth,
            decreases src.len() - self@.pos,
        {
            self.bump();
        }
    }

    fn skip_block(&mut self)
        requires
            old(self).wf(),
            old(self)@.pos + 1 < old(self).bytes().len(),
        ensures
            final(self).wf(),
            final(self).bytes() == old(self).bytes(),
            final(self)@ == skip_block(old(self).bytes(), old(self)@),
            final(self)@.pos > old(self)@.pos,
            final(self)@.indents == old(self)@.indents,
            final(self)@.pending == old(self)@.pending,
            final(self)@.at_line_start == old(self)@.at_line_start,
            final(self)@.depth == old(self)@.depth,
    {
        let ghost old_s = self@;
        let ghost src = self.bytes();
        self.bump();
        self.bump();
        let ghost s0 = self@;
        while self.pos < self.src.len()
            invariant
                self.wf(),
                self.bytes() == src,
                src == old(self).bytes(),
                old_s == old(self)@,
                s0 == bump(src, bump(src, old_s)),
                block_end(src, s0) == block_end(src, self@),
                self@.pos >= s0.pos,
                self@.indents == s0.indents,
                self@.pending == s0.pending,
                self@.at_line_start == s0.at_line_start,
                self@.depth == s0.depth,
            decreases src.len() - self@.pos,
        {
            if self.peek() == 0x5d && self.peek2() == 0x23 {
                self.bump();
                self.bump();
                return ;
            }
            self.bump();
        }
    }

    fn skip_trivia(&mut self)
        requires
            old(self).wf(),
        ensures
            final(self).wf(),
            final(self).bytes() == old(self).bytes(),
            final(self)@ == skip_trivia(old(self).bytes(), old(self)@),
            final(self)@.pos >= old(self)@.pos,
            final(self)@.indents == old(self)@.indents,
            final(self)@.pending == old(self)@.pending,
            final(self)@.at_line_start == old(self)@.at_line_start,
            final(self)@.depth == old(self)@.depth,
        decreases old(self).bytes().len() + 2 - old(self)@.pos,
    {
        let c: u8 = self.peek();
        if class_has(Class::Blank, c) {
            self.bump();
            self.skip_trivia();
        } else if c == 0x23 {
            if self.peek2() == 0x5b {
                self.skip_block();
            } else {
                self.run(Class::Line);
                assert(self@.pos > old(self)@.pos) by {
                    assert(in_class(Class::Line, old(self).bytes()[old(self)@.pos]));
                }
            }
            self.skip_trivia();
        }
    }

    fn mk(&self, tok: Tok) -> (r: Token)
        ensures
            r@ == mk(self@, tok@),
    {
        Token { tok, line: self.line, col: self.col }
    }

    fn line_error(&self, m: &str) -> (r: String)
        ensures
            r@ == line_error(self@, m@),
    {
        let mut s = "line ".to_owned();
        push_u64(&mut s, self.line as u64);
        s.append(": ");
        s.append(m);
        s
    }

    fn emit_indent(&mut self, width: usize) -> (r: Result<Option<Token>, String>)
        requires
            old(self).wf(),
            width <= old(self)@.pos,
            old(self)@.pending.len() == 0,
            old(self)@.pos <= old(self).bytes().len(),
            width > old(self)@.indents.last() ==> old(self)@.indents.len() <= old(self)@.pos,
        ensures
            final(self).bytes() == old(self).bytes(),
            match r {
                Ok(o) => {
                    &&& final(self).wf()
                    &&& emit_indent(old(self)@, width as int) == Ok::<_, Seq<char>>(
                        (
                            final(self)@,
                            match o {
                                Some(t) => Some(t@),
                                None => None,
                            },
                        ),
                    )
                    &&& final(self)@.pos == old(self)@.pos
                    &&& o is Some && width > 0 ==> 2 * final(self)@.indents.len()
                        + final(self)@.pending.len() <= 2 * old(self)@.indents.len() + 2
                    &&& o is Some && width == 0 ==> 2 * final(self)@.indents.len()
                        + final(self)@.pending.len() < 2 * old(self)@.indents.len()
                    &&& o is None ==> final(self)@ == old(self)@
                    &&& o is Some ==> !(o->Some_0.tok is Eof)
                },
                Err(m) => emit_indent(old(self)@, width as int) == Err::<
                    (Lex, Option<TokenView>),
                    _,
                >(m@),
            },
    {
        let ghost s0 = self@;
        let cur: usize = self.indents[self.indents.len() - 1];
        if width > cur {
            self.indents.push(width);
            assert(self@.indents =~= s0.indents.push(width as int));
            return Ok(Some(self.mk(Tok::Indent)));
        }
        if width < cur {
            let first = self.mk(Tok::Dedent);
            let _ = self.indents.pop();
            assert(self@.indents =~= s0.indents.drop_last());
            assert(self@.pending =~= s0.pending + dedents(s0, 0));
            while width < self.indents[self.indents.len() - 1]
                invariant
                    self.wf(),
                    self.bytes() == old(self).bytes(),
                    s0 == old(self)@,
                    s0.pending.len() == 0,
                    self@.indents.len() < s0.indents.len(),
                    close(s0.indents, width as int) == close(self@.indents, width as int),
                    self@ == (Lex { indents: self@.indents, pending: self@.pending, ..s0 }),
                    self@.pending == s0.pending + dedents(
                        s0,
                        s0.indents.len() - self@.indents.len() - 1,
                    ),
                    s0.indents.len() <= s0.pos + 1,
                decreases self.indents@.len(),
            {
                let ghost s1 = self@;
                assert(self.indents@.len() > 1);
                let _ = self.indents.pop();
                assert(self@.indents =~= s1.indents.drop_last());
                let d = self.mk(Tok::Dedent);
                assert(d@ == mk(s0, TokView::Plain(Tok::Dedent)));
                let ghost p0 = self.pending@;
                self.pending.push(d);
                assert(self@.pending =~= tokens_view(p0).push(d@));
                assert(self@.pending =~= s0.pending + dedents(
                    s0,
                    s0.indents.len() - self@.indents.len() - 1
                ));
            }
            if width != self.indents[self.indents.len() - 1] {
                return Err(self.line_error("inconsistent indentation"));
            }
            return Ok(Some(first));
        }
        Ok(None)
    }

    fn handle_line(&mut self) -> (r: Result<Option<Token>, String>)
        requires
            old(self).wf(),
            old(self)@.pending.len() == 0,
        ensures
            final(self).bytes() == old(self).bytes(),
            match r {
                Ok(o) => {
                    &&& final(self).wf()
                    &&& handle_line(old(self).bytes(), old(self)@) == Ok::<_, Seq<char>>(
                        (
                            final(self)@,
                            match o {
                                Some(t) => Some(t@),
                                None => None,
                            },
                        ),
                    )
                    &&& final(self)@.pos >= old(self)@.pos
                    &&& o is Some ==> work_left(final(self).bytes(), final(self)@) < work_left(
                        old(self).bytes(),
                        old(self)@,
                    ) && !(o->Some_0.tok is Eof)
                    &&& o is None ==> final(self)@.indents == old(self)@.indents
                        && final(self)@.pending == old(self)@.pending && final(self)@.depth
                        == old(self)@.depth
                    &&& o is None && final(self)@.at_line_start && byte_at(
                        final(self).bytes(),
                        final(self)@.pos,
                    ) != 0 ==> final(self)@.pos > old(self)@.pos
                },
                Err(m) => handle_line(old(self).bytes(), old(self)@) == Err::<
                    (Lex, Option<TokenView>),
                    _,
                >(m@),
            },
    {
        let start: usize = self.pos;
        self.run(Class::Margin);
        let width: usize = self.pos - start;
        let c: u8 = self.peek();
        if c == 0x23 && self.peek2() == 0x5b {
            self.skip_block();
            self.run(Class::Blank);
            let after: u8 = self.peek();
            if after == 0x0a {
                self.bump();
                self.at_line_start = true;
                return Ok(None);
            }
            if after == 0 {
                self.at_line_start = true;
                return Ok(None);
            }
            self.at_line_start = false;
            return self.emit_indent(width);
        }
        if c == 0x0a {
            self.bump();
            self.at_line_start = true;
            return Ok(None);
        }
        if c == 0x23 {
            let ghost p1 = self@.pos;
            self.run(Class::Line);
            assert(self@.pos > p1) by {
                assert(in_class(Class::Line, old(self).bytes()[p1]));
            }
            if self.peek() == 0x0a {
                self.bump();
            }
            self.at_line_start = true;
            return Ok(None);
        }
        if c == 0 {
            self.at_line_start = true;
            return Ok(None);
        }
        self.at_line_start = false;
        self.emit_indent(width)
    }

    fn handle_lines(&mut self) -> (r: Result<Option<Token>, String>)
        requires
            old(self).wf(),
            old(self)@.pending.len() == 0,
        ensures
            final(self).bytes() == old(self).bytes(),
            match r {
                Ok(o) => {
                    &&& final(self).wf()
                    &&& handle_lines(old(self).bytes(), old(self)@) == Ok::<_, Seq<char>>(
                        (
                            final(self)@,
                            match o {
                                Some(t) => Some(t@),
                                None => None,
                            },
                        ),
                    )
                    &&& final(self)@.pos >= old(self)@.pos
                    &&& o is Some ==> work_left(final(self).bytes(), final(self)@) < work_left(
                        old(self).bytes(),
                        old(self)@,
                    ) && !(o->Some_0.tok is Eof)
                    &&& o is None ==> final(self)@.indents == old(self)@.indents
                        && final(self)@.pending == old(self)@.pending && final(self)@.depth
                        == old(self)@.depth
                },
                Err(m) => handle_lines(old(self).bytes(), old(self)@) == Err::<
                    (Lex, Option<TokenView>),
                    _,
                >(m@),
            },
        decreases old(self).bytes().len() + 2 - old(self)@.pos,
    {
        if self.at_line_start && self.depth == 0 {
            match self.handle_line() {
                Err(m) => Err(m),
                Ok(Some(t)) => Ok(Some(t)),
                Ok(None) => {
                    if !self.at_line_start || self.peek() == 0 {
                        Ok(None)
                    } else {
                        self.handle_lines()
                    }
                },
            }
        } else {
            Ok(None)
        }
    }

    /// The bytes from `i` to `j` as characters.
    fn text(&self, i: usize, j: usize) -> (r: String)
        requires
            i <= j <= self.bytes().len(),
        ensures
            r@ == chars_of(self.bytes(), i as int, j as int),
    {
        let mut s = String::new();
        for k in i..j
            invariant
                i <= j <= self.src@.len(),
                s@ == chars_of(self.src@, i as int, k as int),
        {
            push_char(&mut s, self.src[k] as char);
            assert(s@ =~= chars_of(self.src@, i as int, k + 1));
        }
        s
    }

    fn digits(&self, i: usize, j: usize) -> (r: String)
        requires
            i <= j <= self.bytes().len(),
        ensures
            r@ == digits_of(self.bytes(), i as int, j as int),
    {
        let mut s = String::new();
        for k in i..j
            invariant
                i <= j <= self.src@.len(),
                s@ == digits_of(self.src@, i as int, k as int),
        {
            if self.src[k] != 0x5f {
                push_char(&mut s, self.src[k] as char);
            }
        }
        s
    }

    fn number(&self, i: usize, j: usize) -> (r: Option<i64>)
        requires
            i <= j <= self.bytes().len(),
            forall|k: int| i <= k < j ==> in_class(Class::Number, #[trigger] self.bytes()[k]),
        ensures
            r is Some <==> numeral(self.bytes(), i as int, j as int) <= i64::MAX,
            r is Some ==> r->Some_0 == numeral(self.bytes(), i as int, j as int),
    {
        let mut n: u128 = 0;
        let mut over = false;
        for k in i..j
            invariant
                i <= j <= self.src@.len(),
                forall|q: int| i <= q < j ==> in_class(Class::Number, #[trigger] self.src@[q]),
                over ==> numeral(self.src@, i as int, k as int) > i64::MAX,
                !over ==> n == numeral(self.src@, i as int, k as int) && n <= i64::MAX,
        {
            let c: u8 = self.src[k];
            assert(in_class(Class::Number, self.src@[k as int]));
            if c != 0x5f && !over {
                n = n * 10 + (c - 0x30) as u128;
                if n > i64::MAX as u128 {
                    over = true;
                }
            }
        }
        if over {
            None
        } else {
            Some(n as i64)
        }
    }

    fn lex_number(&mut self) -> (r: Result<Token, String>)
        requires
            old(self).wf(),
            old(self)@.pos < old(self).bytes().len(),
            is_digit(old(self).bytes()[old(self)@.pos]),
        ensures
            final(self).bytes() == old(self).bytes(),
            match r {
                Ok(t) => {
                    &&& final(self).wf()
                    &&& lex_number(old(self).bytes(), old(self)@) == Ok::<_, Seq<char>>(
                        (final(self)@, t@),
                    )
                    &&& final(self)@.pos > old(self)@.pos
                    &&& final(self)@.indents == old(self)@.indents
                    &&& final(self)@.pending == old(self)@.pending
                    &&& !(t.tok is Eof)
                },
                Err(m) => lex_number(old(self).bytes(), old(self)@) == Err::<(Lex, TokenView), _>(
                    m@,
                ),
            },
    {
        let start: usize = self.pos;
        self.run(Class::Number);
        assert(self@.pos > start) by {
            assert(in_class(Class::Number, old(self).bytes()[start as int]));
        }
        let ghost a = self@;
        let mut point = false;
        if self.peek() == 0x2e {
            let d: u8 = self.peek2();
            if 0x30 <= d && d <= 0x39 {
                point = true;
                self.bump();
                self.run(Class::Number);
            }
        }
        let e: u8 = self.peek();
        if e == 0x65 || e == 0x45 {
            self.bump();
            let sign: u8 = self.peek();
            if sign == 0x2b || sign == 0x2d {
                self.bump();
            }
            let from: usize = self.pos;
            self.run(Class::Digit);
            if self.pos == from {
                return Err(self.line_error("bad float: invalid float literal"));
            }
            let s = self.digits(start, self.pos);
            return Ok(self.mk(Tok::Float(s)));
        }
        if point {
            let s = self.digits(start, self.pos);
            return Ok(self.mk(Tok::Float(s)));
        }
        match self.number(start, self.pos) {
            Some(n) => Ok(self.mk(Tok::Int(n))),
            None => Err(
                self.line_error("bad int: number too large to fit in target type"),
            ),
        }
    }

    fn lex_string(&mut self, fstring: bool) -> (r: Result<Token, String>)
        requires
            old(self).wf(),
            old(self)@.pos < old(self).bytes().len(),
        ensures
            final(self).bytes() == old(self).bytes(),
            match r {
                Ok(t) => {
                    &&& final(self).wf()
                    &&& lex_string(old(self).bytes(), old(self)@, fstring) == Ok::<_, Seq<char>>(
                        (final(self)@, t@),
                    )
                    &&& final(self)@.pos > old(self)@.pos
                    &&& final(self)@.indents == old(self)@.indents
                    &&& final(self)@.pending == old(self)@.pending
                    &&& !(t.tok is Eof)
                },
                Err(m) => lex_string(old(self).bytes(), old(self)@, fstring) == Err::<
                    (Lex, TokenView),
                    _,
                >(m@),
            },
    {
        let ghost src = self.bytes();
        let quote: u8 = self.peek();
        self.bump();
        let ghost s0 = self@;
        let mut s = String::new();
        loop
            invariant
                self.wf(),
                self.bytes() == src,
                src == old(self).bytes(),
                quote == byte_at(src, old(self)@.pos),
                s0 == bump(src, old(self)@),
                self@.pos >= s0.pos,
                self@.indents == s0.indents,
                self@.pending == s0.pending,
                string_body(src, s0, quote, Seq::empty()) == string_body(src, self@, quote, s@),
            decreases src.len() + 2 - self@.pos,
        {
            let c: u8 = self.peek();
            if c == 0 {
                return Err(self.line_error("unterminated string"));
            }
            if c == quote {
                self.bump();
                let t = if fstring {
                    Tok::FStr(s)
                } else {
                    Tok::Str(s)
                };
                return Ok(self.mk(t));
            }
            if c == 0x5c {
                self.bump();
                let e: u8 = self.peek();
                self.bump();
                let ghost a0 = s@;
                match e {
                    0x6e => push_char(&mut s, '\n'),
                    0x74 => push_char(&mut s, '\t'),
                    0x72 => push_char(&mut s, '\r'),
                    0x5c => push_char(&mut s, '\\'),
                    0x22 => push_char(&mut s, '"'),
                    0x27 => push_char(&mut s, '\''),
                    0x30 => push_char(&mut s, '\0'),
                    0x7b => push_char(&mut s, '{'),
                    0x7d => push_char(&mut s, '}'),
                    _ => {
                        push_char(&mut s, '\\');
                        push_char(&mut s, e as char);
                    },
                }
                assert(s@ =~= a0 + escaped(e));
            } else {
                self.bump();
                push_char(&mut s, c as char);
            }
        }
    }

    fn lex_operator(&mut self) -> (r: Result<Token, String>)
        requires
            old(self).wf(),
            old(self)@.pos < old(self).bytes().len(),
        ensures
            final(self).bytes() == old(self).bytes(),
            match r {
                Ok(t) => {
                    &&& final(self).wf()
                    &&& lex_operator(old(self).bytes(), old(self)@) == Ok::<_, Seq<char>>(
                        (final(self)@, t@),
                    )
                    &&& final(self)@.pos > old(self)@.pos
                    &&& final(self)@.indents == old(self)@.indents
                    &&& final(self)@.pending == old(self)@.pending
                    &&& !(t.tok is Eof)
                },
                Err(m) => lex_operator(old(self).bytes(), old(self)@) == Err::<
                    (Lex, TokenView),
                    _,
                >(m@),
            },
    {
        let c: u8 = self.peek();
        self.bump();
        match find_operator(c, self.peek()) {
            Some((tok, wide)) => {
                if wide {
                    self.bump();
                }
                if c == 0x28 || c == 0x5b || c == 0x7b {
                    self.depth = self.depth + 1;
                } else if c == 0x29 || c == 0x5d || c == 0x7d {
                    self.depth = self.depth - 1;
                }
                Ok(self.mk(tok))
            },
            None => {
                if c == 0x21 {
                    Err(self.line_error("unexpected '!'"))
                } else {
                    let mut m = "unexpected character ".to_owned();
                    m.append(debug_char(c as char).as_str());
                    Err(self.line_error(m.as_str()))
                }
            },
        }
    }

    fn lex_content(&mut self) -> (r: Result<Token, String>)
        requires
            old(self).wf(),
            old(self)@.pos < old(self).bytes().len(),
        ensures
            final(self).bytes() == old(self).bytes(),
            match r {
                Ok(t) => {
                    &&& final(self).wf()
                    &&& lex_content(old(self).bytes(), old(self)@) == Ok::<_, Seq<char>>(
                        (final(self)@, t@),
                    )
                    &&& final(self)@.pos > old(self)@.pos
                    &&& final(self)@.indents == old(self)@.indents
                    &&& final(self)@.pending == old(self)@.pending
                    &&& !(t.tok is Eof)
                },
                Err(m) => lex_content(old(self).bytes(), old(self)@) == Err::<
                    (Lex, TokenView),
                    _,
                >(m@),
            },
    {
        let c: u8 = self.peek();
        if (0x41 <= c && c <= 0x5a) || (0x61 <= c && c <= 0x7a) || c == 0x5f {
            let next: u8 = self.peek2();
            if (c == 0x66 || c == 0x46) && (next == 0x22 || next == 0x27) {
                self.bump();
                return self.lex_string(true);
            }
            let start: usize = self.pos;
            self.run(Class::Word);
            assert(self@.pos > start) by {
                assert(in_class(Class::Word, old(self).bytes()[start as int]));
            }
            let word = self.text(start, self.pos);
            if let Some(k) = keyword(word.as_str()) {
                return Ok(self.mk(k));
            }
            return Ok(self.mk(Tok::Ident(word)));
        }
        if 0x30 <= c && c <= 0x39 {
            return self.lex_number();
        }
        if c == 0x22 || c == 0x27 {
            return self.lex_string(false);
        }
        self.lex_operator()
    }

    /// The next token. There is less left to do behind every token but `Eof`.
    fn next_token(&mut self) -> (r: Result<Token, String>)
        requires
            old(self).wf(),
        ensures
            final(self).bytes() == old(self).bytes(),
            match r {
                Ok(t) => {
                    &&& final(self).wf()
                    &&& next_token_spec(old(self).bytes(), old(self)@) == Ok::<_, Seq<char>>(
                        (final(self)@, t@),
                    )
                    &&& !(t.tok is Eof) ==> work_left(final(self).bytes(), final(self)@)
                        < work_left(old(self).bytes(), old(self)@)
                },
                Err(m) => next_token_spec(old(self).bytes(), old(self)@) == Err::<
                    (Lex, TokenView),
                    _,
                >(m@),
            },
        decreases old(self).bytes().len() + 2 - old(self)@.pos,
    {
        let ghost s0 = self@;
        let ghost p0 = self.pending@;
        if let Some(t) = self.pending.pop() {
            assert(self@.pending =~= s0.pending.drop_last());
            assert(t@ == s0.pending.last());
            return Ok(t);
        }
        match self.handle_lines() {
            Err(m) => {
                return Err(m);
            },
            Ok(Some(t)) => {
                return Ok(t);
            },
            Ok(None) => {},
        }
        self.skip_trivia();
        let c: u8 = self.peek();
        if c == 0 {
            if self.indents.len() > 1 {
                let ghost s1 = self@;
                let t = self.mk(Tok::Dedent);
                let _ = self.indents.pop();
                assert(self@.indents =~= s1.indents.drop_last());
                return Ok(t);
            }
            return Ok(self.mk(Tok::Eof));
        }
        if c == 0x0a {
            self.bump();
            if self.depth == 0 {
                let t = self.mk(Tok::Newline);
                self.at_line_start = true;
                return Ok(t);
            }
            return self.next_token();
        }
        self.lex_content()
    }

    /// All tokens of the source, the last of them `Eof`.
    pub fn tokenize(self) -> (r: Result<Vec<Token>, String>)
        requires
            self.wf(),
        ensures
            match r {
                Ok(v) => tokens_spec(self.bytes(), self@) == Ok::<_, Seq<char>>(tokens_view(v@)),
                Err(m) => tokens_spec(self.bytes(), self@) == Err::<Seq<TokenView>, _>(m@),
            },
    {
        let mut lx = self;
        let ghost src = lx.bytes();
        let ghost s0 = lx@;
        let mut out: Vec<Token> = Vec::new();
        assert(tokens_view(out@) =~= Seq::empty());
        assert(prefixed(Seq::empty(), tokens_spec(src, s0)) == tokens_spec(src, s0)) by {
            match tokens_spec(src, s0) {
                Ok(v) => {
                    assert(Seq::empty() + v =~= v);
                },
                Err(_) => {},
            }
        }
        loop
            invariant
                lx.wf(),
                lx.bytes() == src,
                src == self.bytes(),
                s0 == self@,
                tokens_spec(src, s0) == prefixed(tokens_view(out@), tokens_spec(src, lx@)),
            decreases work_left(src, lx@),
        {
            let ghost s1 = lx@;
            let ghost o1 = tokens_view(out@);
            match lx.next_token() {
                Err(m) => {
                    return Err(m);
                },
                Ok(t) => {
                    let done = matches!(t.tok, Tok::Eof);
                    let ghost tv = t@;
                    out.push(t);
                    assert(tokens_view(out@) =~= o1.push(tv));
                    if done {
                        assert(tokens_view(out@) =~= o1 + seq![tv]);
                        return Ok(out);
                    }
                    proof {
                        match tokens_spec(src, lx@) {
                            Ok(rest) => {
                                assert(o1 + (seq![tv] + rest) =~= o1.push(tv) + rest);
                            },
                            Err(_) => {},
                        }
                    }
                },
            }
        }
    }
}

/// A result with more tokens in front.
pub open spec fn prefixed(front: Seq<TokenView>, r: Result<Seq<TokenView>, Seq<char>>) -> Result<
    Seq<TokenView>,
    Seq<char>,
> {
    match r {
        Ok(v) => Ok(front + v),
        Err(m) => Err(m),
    }
}

fn find_operator(c: u8, next: u8) -> (r: Option<(Tok, bool)>)
    ensures
        r == operator(c, next),
        r is Some ==> !(r->Some_0.0 is Eof),
        r is Some ==> r->Some_0.0@ == TokView::Plain(r->Some_0.0),
        r is Some && r->Some_0.1 ==> next != 0,
{
    if c == 0x2b {
        if next == 0x3d {
            Some((Tok::PlusEq, true))
        } else {
            Some((Tok::Plus, false))
        }
    } else if c == 0x2d {
        if next == 0x3e {
            Some((Tok::Arrow, true))
        } else if next == 0x3d {
            Some((Tok::MinusEq, true))
        } else {
            Some((Tok::Minus, false))
        }
    } else if c == 0x2a {
        if next == 0x2a {
            Some((Tok::StarStar, true))
        } else if next == 0x3d {
            Some((Tok::StarEq, true))
        } else {
            Some((Tok::Star, false))
        }
    } else if c == 0x2f {
        if next == 0x3d {
            Some((Tok::SlashEq, true))
        } else {
            Some((Tok::Slash, false))
        }
    } else if c == 0x25 {
        Some((Tok::Percent, false))
    } else if c == 0x28 {
        Some((Tok::LParen, false))
    } else if c == 0x29 {
        Some((Tok::RParen, false))
    } else if c == 0x5b {
        Some((Tok::LBracket, false))
    } else if c == 0x5d {
        Some((Tok::RBracket, false))
    } else if c == 0x7b {
        Some((Tok::LBrace, false))
    } else if c == 0x7d {
        Some((Tok::RBrace, false))
    } else if c == 0x3a {
        Some((Tok::Colon, false))
    } else if c == 0x2c {
        Some((Tok::Comma, false))
    } else if c == 0x2e {
        if next == 0x2e {
            Some((Tok::DotDot, true))
        } else {
            Some((Tok::Dot, false))
        }
    } else if c == 0x3d {
        if next == 0x3d {
            Some((Tok::EqEq, true))
        } else if next == 0x3e {
            Some((Tok::FatArrow, true))
        } else {
            Some((Tok::Assign, false))
        }
    } else if c == 0x21 && next == 0x3d {
        Some((Tok::NotEq, true))
    } else if c == 0x3c {
        if next == 0x3d {
            Some((Tok::LtEq, true))
        } else {
            Some((Tok::Lt, false))
        }
    } else if c == 0x3e {
        if next == 0x3d {
            Some((Tok::GtEq, true))
        } else {
            Some((Tok::Gt, false))
        }
    } else if c == 0x3b {
        Some((Tok::Newline, false))
    } else {
        None
    }
}

/// Whether the result of a step keeps account of the blocks: an `Indent` opens one,
/// a `Dedent` closes one, no other token does either. Blocks whose `Dedent` is still
/// to be handed out count as open.
pub open spec fn open_blocks(s: Lex) -> int {
    s.indents.len() - 1 + s.pending.len()
}

pub open spec fn block_step(t: TokenView) -> int {
    if t.tok == TokView::Plain(Tok::Indent) {
        1
    } else if t.tok == TokView::Plain(Tok::Dedent) {
        -1
    } else {
        0
    }
}

/// The bottom of the stack stays, and only `Dedent` tokens wait.
pub open spec fn layout_ok(s: Lex) -> bool {
    &&& s.pos >= 0
    &&& s.indents.len() > 0
    &&& s.indents[0] == 0
    &&& forall|i: int|
        0 <= i < s.pending.len() ==> (#[trigger] s.pending[i]).tok == TokView::Plain(Tok::Dedent)
}

pub open spec fn same_layout(s: Lex, t: Lex) -> bool {
    t.indents == s.indents && t.pending == s.pending && t.pos >= s.pos
}

proof fn run_layout(src: Seq<u8>, s: Lex, k: Class)
    ensures
        same_layout(s, run(src, s, k)),
    decreases src.len() - s.pos,
{
    if 0 <= s.pos < src.len() && in_class(k, src[s.pos]) {
        run_layout(src, bump(src, s), k);
    }
}

proof fn block_end_layout(src: Seq<u8>, s: Lex)
    ensures
        same_layout(s, block_end(src, s)),
    decreases src.len() - s.pos,
{
    if 0 <= s.pos < src.len() && !(src[s.pos] == 0x5d && byte_at(src, s.pos + 1) == 0x23) {
        block_end_layout(src, bump(src, s));
    }
}

proof fn skip_trivia_layout(src: Seq<u8>, s: Lex)
    ensures
        same_layout(s, skip_trivia(src, s)),
    decreases src.len() + 2 - s.pos,
{
    let c = byte_at(src, s.pos);
    run_layout(src, s, Class::Line);
    block_end_layout(src, bump(src, bump(src, s)));
    let t = if in_class(Class::Blank, c) {
        bump(src, s)
    } else if c == 0x23 {
        if byte_at(src, s.pos + 1) == 0x5b {
            skip_block(src, s)
        } else {
            run(src, s, Class::Line)
        }
    } else {
        s
    };
    if 0 <= s.pos < t.pos <= src.len() + 1 {
        skip_trivia_layout(src, t);
    }
}

proof fn close_bottom(indents: Seq<int>, width: int)
    requires
        indents.len() > 0,
        indents[0] == 0,
        width >= 0,
    ensures
        0 < close(indents, width).len() <= indents.len(),
        close(indents, width)[0] == 0,
        width < indents.last() ==> close(indents, width).len() < indents.len(),
    decreases indents.len(),
{
    if width < indents.last() {
        close_bottom(indents.drop_last(), width);
    }
}

spec fn step_ok(s: Lex, r: Result<(Lex, Option<TokenView>), Seq<char>>) -> bool {
    match r {
        Err(_) => true,
        Ok((t, o)) => layout_ok(t) && open_blocks(t) == open_blocks(s) + (match o {
            Some(tok) => block_step(tok),
            None => 0,
        }) && (match o {
            Some(tok) => tok.tok != TokView::Plain(Tok::Eof),
            None => t.indents == s.indents && t.pending == s.pending,
        }),
    }
}

proof fn emit_indent_ok(s: Lex, width: int)
    requires
        layout_ok(s),
        width >= 0,
    ensures
        step_ok(s, emit_indent(s, width)),
{
    if width < s.indents.last() {
        close_bottom(s.indents, width);
        let n = s.indents.len() - close(s.indents, width).len() - 1;
        let p = s.pending + dedents(s, n);
        assert(p.len() == s.pending.len() + n);
    }
}

proof fn handle_line_ok(src: Seq<u8>, s: Lex)
    requires
        layout_ok(s),
    ensures
        step_ok(s, handle_line(src, s)),
{
    run_layout(src, s, Class::Margin);
    let t = run(src, s, Class::Margin);
    let width = t.pos - s.pos;
    block_end_layout(src, bump(src, bump(src, t)));
    let b = skip_block(src, t);
    run_layout(src, b, Class::Blank);
    run_layout(src, t, Class::Line);
    emit_indent_ok(Lex { at_line_start: false, ..run(src, b, Class::Blank) }, width);
    emit_indent_ok(Lex { at_line_start: false, ..t }, width);
}

proof fn handle_lines_ok(src: Seq<u8>, s: Lex)
    requires
        layout_ok(s),
    ensures
        step_ok(s, handle_lines(src, s)),
    decreases src.len() + 2 - s.pos,
{
    if s.at_line_start && s.depth == 0 {
        handle_line_ok(src, s);
        match handle_line(src, s) {
            Ok((t, None)) => {
                if !(
                    !t.at_line_start || byte_at(src, t.pos) == 0
                ) && s.pos < t.pos <= src.len() + 1 {
                    handle_lines_ok(src, t);
                }
            },
            _ => {},
        }
    }
}

proof fn string_body_layout(src: Seq<u8>, s: Lex, quote: u8, acc: Seq<char>)
    ensures
        match string_body(src, s, quote, acc) {
            Ok((t, _)) => same_layout(s, t),
            Err(_) => true,
        },
    decreases src.len() + 2 - s.pos,
{
    let c = byte_at(src, s.pos);
    if !(c == 0 || !(0 <= s.pos < src.len())) && c != quote {
        if c == 0x5c {
            let t = bump(src, s);
            string_body_layout(src, bump(src, t), quote, acc + escaped(byte_at(src, t.pos)));
        } else {
            string_body_layout(src, bump(src, s), quote, acc.push(c as char));
        }
    }
}

spec fn neutral(s: Lex, r: Result<(Lex, TokenView), Seq<char>>) -> bool {
    match r {
        Err(_) => true,
        Ok((t, tok)) => same_layout(s, t) && block_step(tok) == 0 && tok.tok != TokView::Plain(
            Tok::Eof,
        ),
    }
}

proof fn lex_content_ok(src: Seq<u8>, s: Lex)
    ensures
        neutral(s, lex_content(src, s)),
{
    string_body_layout(
        src,
        bump(src, bump(src, s)),
        byte_at(src, bump(src, s).pos),
        Seq::empty(),
    );
    string_body_layout(src, bump(src, s), byte_at(src, s.pos), Seq::empty());
    run_layout(src, s, Class::Word);
    run_layout(src, s, Class::Number);
    let a = run(src, s, Class::Number);
    run_layout(src, bump(src, a), Class::Number);
    let b1 = run(src, bump(src, a), Class::Number);
    run_layout(src, bump(src, a), Class::Digit);
    run_layout(src, bump(src, bump(src, a)), Class::Digit);
    run_layout(src, bump(src, b1), Class::Digit);
    run_layout(src, bump(src, bump(src, b1)), Class::Digit);
}

/// Lines that are taken up without a token leave the layout sound.
pub(crate) proof fn lines_keep_layout(src: Seq<u8>, s: Lex)
    requires
        layout_ok(s),
    ensures
        match handle_lines(src, s) {
            Ok((t, None)) => layout_ok(skip_trivia(src, t)),
            _ => true,
        },
{
    handle_lines_ok(src, s);
    match handle_lines(src, s) {
        Ok((t, None)) => {
            skip_trivia_layout(src, t);
        },
        _ => {},
    }
}

/// Every token keeps account of the blocks.
pub proof fn next_token_layout(src: Seq<u8>, s: Lex)
    requires
        layout_ok(s),
    ensures
        match next_token_spec(src, s) {
            Err(_) => true,
            Ok((t, tok)) => {
                &&& layout_ok(t)
                &&& open_blocks(t) == open_blocks(s) + block_step(tok)
                &&& tok.tok == TokView::Plain(Tok::Eof) ==> open_blocks(t) == 0
            },
        },
    decreases src.len() + 2 - s.pos,
{
    if s.pending.len() == 0 {
        handle_lines_ok(src, s);
        match handle_lines(src, s) {
            Ok((t, None)) => {
                skip_trivia_layout(src, t);
                let u = skip_trivia(src, t);
                let c = byte_at(src, u.pos);
                if c == 0x0a {
                    let v = bump(src, u);
                    if v.depth != 0 && s.pos < v.pos <= src.len() + 1 {
                        next_token_layout(src, v);
                    }
                } else if c != 0 {
                    lex_content_ok(src, u);
                }
            },
            _ => {},
        }
    } else {
        assert(s.pending[s.pending.len() - 1].tok == TokView::Plain(Tok::Dedent));
    }
}

/// How many more `Indent` than `Dedent` tokens there are.
pub open spec fn balance(toks: Seq<TokenView>) -> int
    decreases toks.len(),
{
    if toks.len() == 0 {
        0
    } else {
        balance(toks.drop_last()) + block_step(toks.last())
    }
}

proof fn balance_cons(t: TokenView, rest: Seq<TokenView>)
    ensures
        balance(seq![t] + rest) == block_step(t) + balance(rest),
    decreases rest.len(),
{
    let all = seq![t] + rest;
    if rest.len() == 0 {
        assert(all.drop_last() =~= Seq::empty());
        assert(all.last() == t);
        assert(balance(all.drop_last()) == 0);
    } else {
        assert(all.last() == rest.last());
        balance_cons(t, rest.drop_last());
        assert(all.drop_last() =~= seq![t] + rest.drop_last());
    }
}

proof fn tokens_balanced(src: Seq<u8>, s: Lex)
    requires
        layout_ok(s),
    ensures
        match tokens_spec(src, s) {
            Err(_) => true,
            Ok(v) => {
                &&& v.len() > 0
                &&& v.last().tok == TokView::Plain(Tok::Eof)
                &&& forall|i: int|
                    0 <= i < v.len() - 1 ==> (#[trigger] v[i]).tok != TokView::Plain(Tok::Eof)
                &&& balance(v) == -open_blocks(s)
                &&& forall|i: int|
                    0 <= i <= v.len() ==> balance(#[trigger] v.take(i)) >= -open_blocks(s)
            },
        },
    decreases work_left(src, s),
{
    next_token_layout(src, s);
    match next_token_spec(src, s) {
        Ok((t, tok)) => {
            if tok.tok == TokView::Plain(Tok::Eof) {
                let v = seq![tok];
                assert(v.drop_last() =~= Seq::empty());
                assert(balance(v.drop_last()) == 0);
                assert(balance(v) == 0);
                assert forall|i: int| 0 <= i <= v.len() implies balance(#[trigger] v.take(i))
                    >= -open_blocks(s) by {
                    if i == 0 {
                        assert(v.take(i) =~= Seq::empty());
                    } else {
                        assert(v.take(i) =~= v);
                    }
                }
            } else if 0 <= work_left(src, t) < work_left(src, s) {
                tokens_balanced(src, t);
                match tokens_spec(src, t) {
                    Ok(rest) => {
                        let v = seq![tok] + rest;
                        balance_cons(tok, rest);
                        assert(v.last() == rest.last());
                        assert forall|i: int| 0 <= i < v.len() - 1 implies (#[trigger] v[i]).tok
                            != TokView::Plain(Tok::Eof) by {
                            if i > 0 {
                                assert(v[i] == rest[i - 1]);
                            }
                        }
                        assert forall|i: int| 0 <= i <= v.len() implies balance(
                            #[trigger] v.take(i),
                        ) >= -open_blocks(s) by {
                            if i == 0 {
                                assert(v.take(i) =~= Seq::empty());
                            } else {
                                assert(v.take(i) =~= seq![tok] + rest.take(i - 1));
                                balance_cons(tok, rest.take(i - 1));
                            }
                        }
                    },
                    Err(_) => {},
                }
            }
        },
        Err(_) => {},
    }
}

/// The tokens of a source form well-nested blocks: `Indent` and `Dedent` balance, no
/// block is closed before it is opened, and `Eof` stands at the end and nowhere else.
pub proof fn blocks_are_nested(src: Seq<u8>)
    ensures
        match tokens_spec(src, lex_start()) {
            Err(_) => true,
            Ok(v) => {
                &&& v.len() > 0
                &&& v.last().tok == TokView::Plain(Tok::Eof)
                &&& forall|i: int|
                    0 <= i < v.len() - 1 ==> (#[trigger] v[i]).tok != TokView::Plain(Tok::Eof)
                &&& balance(v) == 0
                &&& forall|i: int| 0 <= i <= v.len() ==> balance(#[trigger] v.take(i)) >= 0
            },
        },
{
    tokens_balanced(src, lex_start());
}

} // verus!
