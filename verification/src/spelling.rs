//! Laws of the lexer: the tokens of a text spell that text. Each token stands for a piece
//! of the source, which it spells, and between the pieces there is nothing but blanks, line
//! ends and comments.

use crate::lexer::{
    block_end, bump, byte_at, chars_of, digits_of, emit_indent, escaped, handle_line, handle_lines,
    in_class, is_digit, is_letter, keyword_spec, layout_ok, lex_content, lex_number, lex_start,
    lex_string, lex_word, next_token_layout, next_token_spec, numeral, operator, run, skip_block,
    skip_trivia, string_body, tokens_spec, work_left, Class, Lex, Tok, TokView, TokenView,
};
use crate::strings::digits_value;
use vstd::prelude::*;

verus! {

/// How a keyword or an operator is written.
pub open spec fn spelling(t: Tok) -> Option<Seq<char>> {
    match t {
        Tok::Let => Some("let"@),
        Tok::Mut => Some("mut"@),
        Tok::Fn => Some("fn"@),
        Tok::If => Some("if"@),
        Tok::Elif => Some("elif"@),
        Tok::Else => Some("else"@),
        Tok::For => Some("for"@),
        Tok::In => Some("in"@),
        Tok::While => Some("while"@),
        Tok::Return => Some("return"@),
        Tok::Match => Some("match"@),
        Tok::Case => Some("case"@),
        Tok::Struct => Some("struct"@),
        Tok::Enum => Some("enum"@),
        Tok::Trait => Some("trait"@),
        Tok::Impl => Some("impl"@),
        Tok::Import => Some("import"@),
        Tok::From => Some("from"@),
        Tok::As => Some("as"@),
        Tok::Export => Some("export"@),
        Tok::Extern => Some("extern"@),
        Tok::Dynamic => Some("dynamic"@),
        Tok::Weak => Some("weak"@),
        Tok::And => Some("and"@),
        Tok::Or => Some("or"@),
        Tok::Not => Some("not"@),
        Tok::True => Some("true"@),
        Tok::False => Some("false"@),
        Tok::Nil => Some("nil"@),
        Tok::Break => Some("break"@),
        Tok::Continue => Some("continue"@),
        Tok::Try => Some("try"@),
        Tok::Catch => Some("catch"@),
        Tok::Raise => Some("raise"@),
        Tok::Do => Some("do"@),
        Tok::End => Some("end"@),
        Tok::SelfKw => Some("self"@),
        Tok::With => Some("with"@),
        Tok::Plus => Some("+"@),
        Tok::Minus => Some("-"@),
        Tok::Star => Some("*"@),
        Tok::StarStar => Some("**"@),
        Tok::Slash => Some("/"@),
        Tok::Percent => Some("%"@),
        Tok::PlusEq => Some("+="@),
        Tok::MinusEq => Some("-="@),
        Tok::StarEq => Some("*="@),
        Tok::SlashEq => Some("/="@),
        Tok::EqEq => Some("=="@),
        Tok::NotEq => Some("!="@),
        Tok::Lt => Some("<"@),
        Tok::LtEq => Some("<="@),
        Tok::Gt => Some(">"@),
        Tok::GtEq => Some(">="@),
        Tok::Assign => Some("="@),
        Tok::Colon => Some(":"@),
        Tok::Comma => Some(","@),
        Tok::Dot => Some("."@),
        Tok::Arrow => Some("->"@),
        Tok::FatArrow => Some("=>"@),
        Tok::LParen => Some("("@),
        Tok::RParen => Some(")"@),
        Tok::LBracket => Some("["@),
        Tok::RBracket => Some("]"@),
        Tok::LBrace => Some("{"@),
        Tok::RBrace => Some("}"@),
        Tok::DotDot => Some(".."@),
        _ => None,
    }
}

/// A number for a text, of its length and its first characters.
spec fn mark(s: Seq<char>) -> int {
    let a = if s.len() > 0 {
        s[0] as int
    } else {
        0
    };
    let b = if s.len() > 1 {
        s[1] as int
    } else {
        0
    };
    let c = if s.len() > 2 {
        s[2] as int
    } else {
        0
    };
    s.len() * 0x20_0000 + a * 0x4000 + b * 0x80 + c
}

/// The number of the text of each keyword and operator.
spec fn mark_of(t: Tok) -> int {
    match t {
        Tok::Let => 8073972,
        Tok::Mut => 8092404,
        Tok::Fn => 5879552,
        Tok::If => 5927680,
        Tok::Elif => 10057321,
        Tok::Else => 10057331,
        Tok::For => 7976946,
        Tok::In => 5928704,
        Tok::While => 12448873,
        Tok::Return => 14463732,
        Tok::Match => 12284148,
        Tok::Case => 10023155,
        Tok::Struct => 14482034,
        Tok::Enum => 10057589,
        Tok::Trait => 12400993,
        Tok::Impl => 10122992,
        Tok::Import => 14317296,
        Tok::From => 10074479,
        Tok::As => 5798272,
        Tok::Export => 14253168,
        Tok::Extern => 14253172,
        Tok::Dynamic => 16334062,
        Tok::Weak => 10351329,
        Tok::And => 7894884,
        Tok::Or => 6027520,
        Tok::Not => 8108020,
        Tok::True => 10303861,
        Tok::False => 12169452,
        Tok::Nil => 8107244,
        Tok::Break => 12106085,
        Tok::Continue => 18413550,
        Tok::Try => 8206713,
        Tok::Catch => 12120308,
        Tok::Raise => 12366057,
        Tok::Do => 5846912,
        Tok::End => 7960420,
        Tok::SelfKw => 10285804,
        Tok::With => 10351860,
        Tok::Plus => 2801664,
        Tok::Minus => 2834432,
        Tok::Star => 2785280,
        Tok::StarStar => 4887808,
        Tok::Slash => 2867200,
        Tok::Percent => 2703360,
        Tok::PlusEq => 4906624,
        Tok::MinusEq => 4939392,
        Tok::StarEq => 4890240,
        Tok::SlashEq => 4972160,
        Tok::EqEq => 5201536,
        Tok::NotEq => 4742784,
        Tok::Lt => 3080192,
        Tok::LtEq => 5185152,
        Tok::Gt => 3112960,
        Tok::GtEq => 5217920,
        Tok::Assign => 3096576,
        Tok::Colon => 3047424,
        Tok::Comma => 2818048,
        Tok::Dot => 2850816,
        Tok::Arrow => 4939520,
        Tok::FatArrow => 5201664,
        Tok::LParen => 2752512,
        Tok::RParen => 2768896,
        Tok::LBracket => 3588096,
        Tok::RBracket => 3620864,
        Tok::LBrace => 4112384,
        Tok::RBrace => 4145152,
        Tok::DotDot => 4953856,
        _ => 0,
    }
}

proof fn marks(t: Tok)
    requires
        spelling(t) is Some,
    ensures
        mark(spelling(t)->0) == mark_of(t),
{
    reveal_strlit("let");
    reveal_strlit("mut");
    reveal_strlit("fn");
    reveal_strlit("if");
    reveal_strlit("elif");
    reveal_strlit("else");
    reveal_strlit("for");
    reveal_strlit("in");
    reveal_strlit("while");
    reveal_strlit("return");
    reveal_strlit("match");
    reveal_strlit("case");
    reveal_strlit("struct");
    reveal_strlit("enum");
    reveal_strlit("trait");
    reveal_strlit("impl");
    reveal_strlit("import");
    reveal_strlit("from");
    reveal_strlit("as");
    reveal_strlit("export");
    reveal_strlit("extern");
    reveal_strlit("dynamic");
    reveal_strlit("weak");
    reveal_strlit("and");
    reveal_strlit("or");
    reveal_strlit("not");
    reveal_strlit("true");
    reveal_strlit("false");
    reveal_strlit("nil");
    reveal_strlit("break");
    reveal_strlit("continue");
    reveal_strlit("try");
    reveal_strlit("catch");
    reveal_strlit("raise");
    reveal_strlit("do");
    reveal_strlit("end");
    reveal_strlit("self");
    reveal_strlit("with");
    reveal_strlit("+");
    reveal_strlit("-");
    reveal_strlit("*");
    reveal_strlit("**");
    reveal_strlit("/");
    reveal_strlit("%");
    reveal_strlit("+=");
    reveal_strlit("-=");
    reveal_strlit("*=");
    reveal_strlit("/=");
    reveal_strlit("==");
    reveal_strlit("!=");
    reveal_strlit("<");
    reveal_strlit("<=");
    reveal_strlit(">");
    reveal_strlit(">=");
    reveal_strlit("=");
    reveal_strlit(":");
    reveal_strlit(",");
    reveal_strlit(".");
    reveal_strlit("->");
    reveal_strlit("=>");
    reveal_strlit("(");
    reveal_strlit(")");
    reveal_strlit("[");
    reveal_strlit("]");
    reveal_strlit("{");
    reveal_strlit("}");
    reveal_strlit("..");
}

/// No two keywords or operators are written alike.
pub proof fn spellings_differ(t: Tok, u: Tok)
    requires
        spelling(t) is Some,
        spelling(t) == spelling(u),
    ensures
        t == u,
{
    marks(t);
    marks(u);
    assert(mark_of(t) != 0);
    same_mark(t, u);
}

proof fn same_mark(t: Tok, u: Tok)
    requires
        mark_of(t) != 0,
        mark_of(t) == mark_of(u),
    ensures
        t == u,
{
}

/// Whether the bytes from `i` to `j` are these characters.
pub open spec fn written(src: Seq<u8>, i: int, j: int, s: Seq<char>) -> bool {
    &&& 0 <= i <= j <= src.len()
    &&& j - i == s.len()
    &&& forall|k: int| 0 <= k < s.len() ==> src[i + k] as char == #[trigger] s[k]
}

/// The characters from `i` to `j` without underscores.
pub open spec fn plain_digits(src: Seq<u8>, i: int, j: int) -> Seq<char> {
    Seq::new((j - i) as nat, |k: int| src[i + k] as char).filter(|c: char| c != '_')
}

/// What the characters between the quotes of a string stand for: a backslash and the
/// character behind it stand for one character, or for themselves; any other character
/// stands for itself.
pub open spec fn unescaped(s: Seq<char>) -> Seq<char>
    decreases s.len(),
{
    if s.len() == 0 {
        Seq::empty()
    } else if s[0] == '\\' && s.len() > 1 {
        (match s[1] {
            'n' => seq!['\n'],
            't' => seq!['\t'],
            'r' => seq!['\r'],
            '0' => seq!['\0'],
            '\\' | '"' | '\'' | '{' | '}' => seq![s[1]],
            c => seq!['\\', c],
        }) + unescaped(s.skip(2))
    } else {
        seq![s[0]] + unescaped(s.skip(1))
    }
}

/// Whether a quote at `j` ends the string that opens before `i`: no quote of its kind
/// stands between, except behind a backslash.
pub open spec fn closes(src: Seq<u8>, i: int, j: int, quote: u8) -> bool
    decreases j - i,
{
    &&& 0 <= i <= j < src.len()
    &&& if i == j {
        src[i] == quote
    } else {
        src[i] != quote && src[i] != 0 && (if src[i] == 0x5c {
            i + 2 <= j && closes(src, i + 2, j, quote)
        } else {
            closes(src, i + 1, j, quote)
        })
    }
}

/// Whether a quoted string stands from `i` to `j`, with what it holds.
pub open spec fn quoted(src: Seq<u8>, i: int, j: int, t: Seq<char>) -> bool {
    &&& 0 <= i < j - 1 < src.len()
    &&& src[i] == 0x22 || src[i] == 0x27
    &&& closes(src, i + 1, j - 1, src[i])
    &&& t == unescaped(chars_of(src, i + 1, j - 1))
}

/// Whether the bytes from `i` to `j` are what a token stands for.
pub open spec fn spelled(src: Seq<u8>, i: int, j: int, t: TokView) -> bool {
    &&& 0 <= i <= j <= src.len()
    &&& match t {
        TokView::Plain(Tok::Newline) => j == i + 1 && (src[i] == 0x0a || src[i] == 0x3b),
        TokView::Plain(Tok::Indent) => i == j,
        TokView::Plain(Tok::Dedent) => i == j,
        TokView::Plain(Tok::Eof) => i == j && byte_at(src, i) == 0,
        TokView::Plain(k) => spelling(k) matches Some(s) && written(src, i, j, s) && (is_letter(
            src[i],
        ) ==> !in_class(Class::Word, byte_at(src, j))),
        TokView::Ident(w) => {
            &&& i < j
            &&& written(src, i, j, w)
            &&& !is_digit(src[i])
            &&& forall|k: int| i <= k < j ==> in_class(Class::Word, #[trigger] src[k])
            &&& !in_class(Class::Word, byte_at(src, j))
            &&& forall|k: Tok| #[trigger] spelling(k) != Some(w)
        },
        TokView::Int(n) => {
            &&& i < j
            &&& is_digit(src[i])
            &&& forall|k: int| i <= k < j ==> in_class(Class::Number, #[trigger] src[k])
            &&& !in_class(Class::Number, byte_at(src, j))
            &&& n == digits_value(plain_digits(src, i, j))
        },
        TokView::Float(x) => {
            &&& i < j
            &&& is_digit(src[i])
            &&& x == plain_digits(src, i, j)
            &&& !in_class(Class::Digit, byte_at(src, j))
            &&& exists|k: int|
                i < k < j && (#[trigger] src[k] == 0x2e || src[k] == 0x65 || src[k] == 0x45)
        },
        TokView::Str(x) => quoted(src, i, j, x),
        TokView::FStr(x) => i < j && (src[i] == 0x66 || src[i] == 0x46) && quoted(
            src,
            i + 1,
            j,
            x,
        ),
    }
}

/// Whether a block comment that opens at `i` ends at `j`: behind the first closing mark, or
/// at the end of the source where there is none.
pub open spec fn block_comment(src: Seq<u8>, i: int, j: int) -> bool {
    &&& forall|k: int|
        i + 2 <= k < j - 2 ==> !(#[trigger] src[k] == 0x5d && byte_at(src, k + 1) == 0x23)
    &&& (i + 4 <= j && src[j - 2] == 0x5d && src[j - 1] == 0x23) || (j == src.len() && forall|
        k: int,
    |
        i + 2 <= k < j ==> !(#[trigger] src[k] == 0x5d && byte_at(src, k + 1) == 0x23))
}

/// Whether one thing without meaning stands from `i` to `j`: a blank, a line end, or a
/// comment.
pub open spec fn skipped(src: Seq<u8>, i: int, j: int) -> bool {
    &&& 0 <= i < j <= src.len()
    &&& if in_class(Class::Blank, src[i]) || src[i] == 0x0a {
        j == i + 1
    } else if src[i] == 0x23 && byte_at(src, i + 1) == 0x5b {
        block_comment(src, i, j)
    } else {
        &&& src[i] == 0x23
        &&& forall|k: int| i <= k < j ==> #[trigger] src[k] != 0x0a
        &&& j == src.len() || src[j] == 0x0a
    }
}

/// Whether there is nothing of meaning from `i` to `a`.
pub open spec fn gap(src: Seq<u8>, i: int, a: int) -> bool
    decreases a - i,
{
    0 <= i <= a <= src.len() && (i == a || exists|j: int| #[trigger]
        skipped(src, i, j) && i < j <= a && gap(src, j, a))
}

proof fn gap_one(src: Seq<u8>, i: int, j: int, a: int)
    requires
        skipped(src, i, j),
        gap(src, j, a),
    ensures
        gap(src, i, a),
{
}

proof fn gap_single(src: Seq<u8>, i: int, j: int)
    requires
        skipped(src, i, j),
    ensures
        gap(src, i, j),
{
    assert(gap(src, j, j));
}

proof fn gap_joins(src: Seq<u8>, i: int, j: int, a: int)
    requires
        gap(src, i, j),
        gap(src, j, a),
    ensures
        gap(src, i, a),
    decreases j - i,
{
    if i < j {
        let k = choose|k: int| #[trigger] skipped(src, i, k) && i < k <= j && gap(src, k, j);
        gap_joins(src, k, j, a);
    }
}

/// How many line ends there are before a place.
pub open spec fn line_ends(src: Seq<u8>, i: int) -> nat
    decreases i,
{
    if i <= 0 {
        0
    } else {
        line_ends(src, i - 1) + (if byte_at(src, i - 1) == 0x0a {
            1nat
        } else {
            0
        })
    }
}

/// How far a place is behind the last line end.
pub open spec fn in_line(src: Seq<u8>, i: int) -> nat
    decreases i,
{
    if i <= 0 || byte_at(src, i - 1) == 0x0a {
        0
    } else {
        in_line(src, i - 1) + 1
    }
}

/// The lexer counts lines and columns from 1.
pub open spec fn placed(src: Seq<u8>, s: Lex) -> bool {
    &&& 0 <= s.pos <= src.len()
    &&& s.line == 1 + line_ends(src, s.pos)
    &&& s.col == 1 + in_line(src, s.pos)
}

proof fn run_ends(src: Seq<u8>, s: Lex, k: Class)
    requires
        placed(src, s),
    ensures
        placed(src, run(src, s, k)),
        s.pos <= run(src, s, k).pos,
        forall|i: int| s.pos <= i < run(src, s, k).pos ==> in_class(k, #[trigger] src[i]),
        run(src, s, k).pos < src.len() ==> !in_class(k, src[run(src, s, k).pos]),
        run(src, s, k).pending == s.pending,
        run(src, s, k).depth == s.depth,
        run(src, s, k).indents == s.indents,
    decreases src.len() - s.pos,
{
    if s.pos < src.len() && in_class(k, src[s.pos]) {
        run_ends(src, bump(src, s), k);
    }
}

proof fn blanks_are_gap(src: Seq<u8>, i: int, j: int)
    requires
        0 <= i <= j <= src.len(),
        forall|k: int| i <= k < j ==> in_class(Class::Blank, #[trigger] src[k]),
    ensures
        gap(src, i, j),
    decreases j - i,
{
    if i < j {
        blanks_are_gap(src, i + 1, j);
        assert(skipped(src, i, i + 1));
    }
}

proof fn block_end_ends(src: Seq<u8>, s: Lex)
    requires
        placed(src, s),
    ensures
        placed(src, block_end(src, s)),
        s.pos <= block_end(src, s).pos,
        block_end(src, s).pending == s.pending,
        block_end(src, s).depth == s.depth,
        block_end(src, s).indents == s.indents,
        forall|k: int|
            s.pos <= k < block_end(src, s).pos - 2 ==> !(#[trigger] src[k] == 0x5d && byte_at(
                src,
                k + 1,
            ) == 0x23),
        (s.pos + 2 <= block_end(src, s).pos && src[block_end(src, s).pos - 2] == 0x5d
            && src[block_end(src, s).pos - 1] == 0x23) || (block_end(src, s).pos == src.len()
            && forall|k: int|
            s.pos <= k < src.len() ==> !(#[trigger] src[k] == 0x5d && byte_at(src, k + 1)
                == 0x23)),
    decreases src.len() - s.pos,
{
    if s.pos < src.len() && !(src[s.pos] == 0x5d && byte_at(src, s.pos + 1) == 0x23) {
        block_end_ends(src, bump(src, s));
    } else if s.pos < src.len() {
        assert(placed(src, bump(src, s)));
    }
}

proof fn block_is_skipped(src: Seq<u8>, s: Lex)
    requires
        placed(src, s),
        byte_at(src, s.pos) == 0x23,
        byte_at(src, s.pos + 1) == 0x5b,
    ensures
        placed(src, skip_block(src, s)),
        skipped(src, s.pos, skip_block(src, s).pos),
        skip_block(src, s).pending == s.pending,
        skip_block(src, s).depth == s.depth,
        skip_block(src, s).indents == s.indents,
{
    let t = bump(src, bump(src, s));
    assert(placed(src, bump(src, s)));
    block_end_ends(src, t);
}

proof fn trivia_is_gap(src: Seq<u8>, s: Lex)
    requires
        placed(src, s),
    ensures
        placed(src, skip_trivia(src, s)),
        gap(src, s.pos, skip_trivia(src, s).pos),
        skip_trivia(src, s).pending == s.pending,
        skip_trivia(src, s).depth == s.depth,
        skip_trivia(src, s).indents == s.indents,
        !in_class(Class::Blank, byte_at(src, skip_trivia(src, s).pos)),
        byte_at(src, skip_trivia(src, s).pos) != 0x23,
    decreases src.len() + 2 - s.pos,
{
    let c = byte_at(src, s.pos);
    if in_class(Class::Blank, c) {
        let t = bump(src, s);
        trivia_is_gap(src, t);
        assert(skipped(src, s.pos, t.pos));
    } else if c == 0x23 {
        if byte_at(src, s.pos + 1) == 0x5b {
            let t = skip_block(src, s);
            block_is_skipped(src, s);
            trivia_is_gap(src, t);
        } else {
            let t = run(src, s, Class::Line);
            run_ends(src, s, Class::Line);
            assert(t.pos > s.pos) by {
                assert(in_class(Class::Line, src[s.pos]));
            }
            assert(skipped(src, s.pos, t.pos));
            trivia_is_gap(src, t);
        }
    }
}

/// What taking up lines does: it steps over a gap, and a layout token has no characters.
spec fn took(src: Seq<u8>, s: Lex, r: Result<(Lex, Option<TokenView>), Seq<char>>) -> bool {
    match r {
        Err(_) => true,
        Ok((t, o)) => {
            &&& placed(src, t)
            &&& gap(src, s.pos, t.pos)
            &&& o matches Some(k) ==> spelled(src, t.pos, t.pos, k.tok) && k.line == t.line
                && k.col == t.col && !(k.tok == TokView::Plain(Tok::Eof))
        },
    }
}

proof fn indent_took(src: Seq<u8>, s: Lex, t: Lex, width: int)
    requires
        placed(src, t),
        gap(src, s.pos, t.pos),
    ensures
        took(src, s, emit_indent(t, width)),
{
}

proof fn line_took(src: Seq<u8>, s: Lex)
    requires
        placed(src, s),
    ensures
        took(src, s, handle_line(src, s)),
{
    let t = run(src, s, Class::Margin);
    let width = t.pos - s.pos;
    run_ends(src, s, Class::Margin);
    assert forall|k: int| s.pos <= k < t.pos implies in_class(Class::Blank, #[trigger] src[k]) by {
        assert(in_class(Class::Margin, src[k]));
    }
    blanks_are_gap(src, s.pos, t.pos);
    let c = byte_at(src, t.pos);
    if c == 0x23 && byte_at(src, t.pos + 1) == 0x5b {
        block_is_skipped(src, t);
        let b = skip_block(src, t);
        let u = run(src, b, Class::Blank);
        run_ends(src, b, Class::Blank);
        blanks_are_gap(src, b.pos, u.pos);
        gap_one(src, t.pos, b.pos, u.pos);
        gap_joins(src, s.pos, t.pos, u.pos);
        if byte_at(src, u.pos) == 0x0a {
            assert(skipped(src, u.pos, u.pos + 1));
            gap_single(src, u.pos, u.pos + 1);
            gap_joins(src, s.pos, u.pos, u.pos + 1);
        } else if byte_at(src, u.pos) != 0 {
            indent_took(src, s, Lex { at_line_start: false, ..u }, width);
        }
    } else if c == 0x0a {
        assert(skipped(src, t.pos, t.pos + 1));
        gap_single(src, t.pos, t.pos + 1);
        gap_joins(src, s.pos, t.pos, t.pos + 1);
    } else if c == 0x23 {
        let u = run(src, t, Class::Line);
        run_ends(src, t, Class::Line);
        assert(in_class(Class::Line, src[t.pos]));
        assert(skipped(src, t.pos, u.pos));
        assert(gap(src, u.pos, u.pos));
        gap_one(src, t.pos, u.pos, u.pos);
        gap_joins(src, s.pos, t.pos, u.pos);
        if byte_at(src, u.pos) == 0x0a {
            assert(skipped(src, u.pos, u.pos + 1));
            gap_single(src, u.pos, u.pos + 1);
            gap_joins(src, s.pos, u.pos, u.pos + 1);
        }
    } else if c != 0 {
        indent_took(src, s, Lex { at_line_start: false, ..t }, width);
    }
}

proof fn lines_took(src: Seq<u8>, s: Lex)
    requires
        placed(src, s),
    ensures
        took(src, s, handle_lines(src, s)),
    decreases src.len() + 2 - s.pos,
{
    if s.at_line_start && s.depth == 0 {
        line_took(src, s);
        match handle_line(src, s) {
            Ok((t, None)) => {
                if !(
                    !t.at_line_start || byte_at(src, t.pos) == 0
                ) && s.pos < t.pos <= src.len() + 1 {
                    lines_took(src, t);
                    match handle_lines(src, t) {
                        Ok((u, _)) => {
                            gap_joins(src, s.pos, t.pos, u.pos);
                        },
                        _ => {},
                    }
                }
            },
            _ => {},
        }
    }
}

proof fn digits_plain(src: Seq<u8>, i: int, j: int)
    requires
        0 <= i <= j <= src.len(),
    ensures
        digits_of(src, i, j) == plain_digits(src, i, j),
    decreases j - i,
{
    reveal(Seq::filter);
    let s = Seq::new((j - i) as nat, |k: int| src[i + k] as char);
    if i < j {
        digits_plain(src, i, j - 1);
        assert(s.drop_last() =~= Seq::new((j - 1 - i) as nat, |k: int| src[i + k] as char));
        assert(s.last() == src[j - 1] as char);
        assert((src[j - 1] as char == '_') == (src[j - 1] == 0x5f));
    } else {
        assert(s =~= Seq::empty());
    }
}

proof fn numeral_value(src: Seq<u8>, i: int, j: int)
    requires
        0 <= i <= j <= src.len(),
        forall|k: int| i <= k < j ==> in_class(Class::Number, #[trigger] src[k]),
    ensures
        numeral(src, i, j) == digits_value(digits_of(src, i, j)),
    decreases j - i,
{
    if i < j {
        numeral_value(src, i, j - 1);
        assert(in_class(Class::Number, src[j - 1]));
        let d = digits_of(src, i, j);
        if src[j - 1] != 0x5f {
            assert(d.drop_last() =~= digits_of(src, i, j - 1));
            assert(d.last() as int - 48 == src[j - 1] - 0x30);
        }
    }
}

spec fn good(src: Seq<u8>, s: Lex, r: Result<(Lex, TokenView), Seq<char>>) -> bool {
    match r {
        Err(_) => true,
        Ok((t, k)) => placed(src, t) && spelled(src, s.pos, t.pos, k.tok) && k.line == t.line
            && k.col == t.col && s.pos < t.pos,
    }
}

proof fn number_good(src: Seq<u8>, s: Lex)
    requires
        placed(src, s),
        is_digit(byte_at(src, s.pos)),
    ensures
        good(src, s, lex_number(src, s)),
{
    let i = s.pos;
    let a = run(src, s, Class::Number);
    run_ends(src, s, Class::Number);
    assert(in_class(Class::Number, src[i]));
    assert(a.pos > i);
    let point = byte_at(src, a.pos) == 0x2e && is_digit(byte_at(src, a.pos + 1));
    let b = if point {
        run(src, bump(src, a), Class::Number)
    } else {
        a
    };
    if point {
        run_ends(src, bump(src, a), Class::Number);
        assert(src[a.pos] == 0x2e);
        assert(is_digit(byte_at(src, bump(src, a).pos)));
        assert(in_class(Class::Number, src[bump(src, a).pos]));
    }
    digits_plain(src, i, b.pos);
    if byte_at(src, b.pos) == 0x65 || byte_at(src, b.pos) == 0x45 {
        let c = bump(src, b);
        assert(placed(src, c));
        let d = if byte_at(src, c.pos) == 0x2b || byte_at(src, c.pos) == 0x2d {
            bump(src, c)
        } else {
            c
        };
        assert(placed(src, d));
        let e = run(src, d, Class::Digit);
        run_ends(src, d, Class::Digit);
        digits_plain(src, i, e.pos);
        assert(src[b.pos] == 0x65 || src[b.pos] == 0x45);
    } else if point {
        assert(!in_class(Class::Number, byte_at(src, b.pos)));
    } else {
        numeral_value(src, i, b.pos);
    }
}

proof fn string_good(src: Seq<u8>, s: Lex, quote: u8, acc: Seq<char>)
    requires
        placed(src, s),
        quote != 0x5c,
    ensures
        match string_body(src, s, quote, acc) {
            Err(_) => true,
            Ok((t, x)) => placed(src, t) && s.pos < t.pos && closes(
                src,
                s.pos,
                t.pos - 1,
                quote,
            ) && x == acc + unescaped(chars_of(src, s.pos, t.pos - 1)),
        },
    decreases src.len() + 2 - s.pos,
{
    let c = byte_at(src, s.pos);
    let i = s.pos;
    if c == 0 || !(s.pos < src.len()) {
    } else if c == quote {
        assert(chars_of(src, i, i) =~= Seq::empty());
        assert(acc + Seq::<char>::empty() =~= acc);
    } else if c == 0x5c {
        let t = bump(src, s);
        let e = byte_at(src, t.pos);
        let u = bump(src, t);
        assert(placed(src, t));
        if t.pos < src.len() {
            string_good(src, u, quote, acc + escaped(e));
            match string_body(src, u, quote, acc + escaped(e)) {
                Ok((w, x)) => {
                    let r = chars_of(src, i, w.pos - 1);
                    assert(r.skip(2) =~= chars_of(src, u.pos, w.pos - 1));
                    assert(r[0] == '\\');
                    assert(r[1] == e as char);
                    let q = unescaped(r.skip(2));
                    escape_table(e);
                    assert(unescaped(r) == escaped(e) + q);
                    assert((acc + escaped(e)) + q =~= acc + (escaped(e) + q));
                },
                Err(_) => {},
            }
        } else {
            assert(string_body(src, u, quote, acc + escaped(e)) is Err);
        }
    } else {
        let t = bump(src, s);
        string_good(src, t, quote, acc.push(c as char));
        match string_body(src, t, quote, acc.push(c as char)) {
            Ok((w, x)) => {
                let r = chars_of(src, i, w.pos - 1);
                assert(r.skip(1) =~= chars_of(src, t.pos, w.pos - 1));
                assert(r[0] == c as char);
                let q = unescaped(r.skip(1));
                assert(unescaped(r) == seq![c as char] + q);
                assert(acc.push(c as char) + q =~= acc + (seq![c as char] + q));
            },
            Err(_) => {},
        }
    }
}

/// What a backslash and a character stand for.
proof fn escape_table(e: u8)
    ensures
        escaped(e) == (match e as char {
            'n' => seq!['\n'],
            't' => seq!['\t'],
            'r' => seq!['\r'],
            '0' => seq!['\0'],
            '\\' | '"' | '\'' | '{' | '}' => seq![e as char],
            c => seq!['\\', c],
        }),
{
}

proof fn quoted_good(src: Seq<u8>, s: Lex, f: bool)
    requires
        placed(src, s),
        byte_at(src, s.pos) == 0x22 || byte_at(src, s.pos) == 0x27,
    ensures
        match lex_string(src, s, f) {
            Err(_) => true,
            Ok((t, k)) => placed(src, t) && k.line == t.line && k.col == t.col && s.pos < t.pos
                && match k.tok {
                TokView::Str(x) => !f && quoted(src, s.pos, t.pos, x),
                TokView::FStr(x) => f && quoted(src, s.pos, t.pos, x),
                _ => false,
            },
        },
{
    let t = bump(src, s);
    let q = byte_at(src, s.pos);
    string_good(src, t, q, Seq::empty());
    match string_body(src, t, q, Seq::empty()) {
        Ok((u, x)) => {
            let r = unescaped(chars_of(src, t.pos, u.pos - 1));
            assert(Seq::<char>::empty() + r =~= r);
        },
        Err(_) => {},
    }
}

/// An operator takes up the bytes that it is written with.
proof fn operator_written(src: Seq<u8>, i: int)
    requires
        0 <= i < src.len(),
        operator(src[i], byte_at(src, i + 1)) is Some,
    ensures
        ({
            let (k, wide) = operator(src[i], byte_at(src, i + 1))->0;
            let j = if wide {
                i + 2
            } else {
                i + 1
            };
            !is_letter(src[i]) && !(k is Indent) && !(k is Dedent) && !(k is Eof) && spelled(
                src,
                i,
                j,
                TokView::Plain(k),
            )
        }),
{
    reveal_strlit("+");
    reveal_strlit("-");
    reveal_strlit("*");
    reveal_strlit("**");
    reveal_strlit("/");
    reveal_strlit("%");
    reveal_strlit("+=");
    reveal_strlit("-=");
    reveal_strlit("*=");
    reveal_strlit("/=");
    reveal_strlit("==");
    reveal_strlit("!=");
    reveal_strlit("<");
    reveal_strlit("<=");
    reveal_strlit(">");
    reveal_strlit(">=");
    reveal_strlit("=");
    reveal_strlit(":");
    reveal_strlit(",");
    reveal_strlit(".");
    reveal_strlit("->");
    reveal_strlit("=>");
    reveal_strlit("(");
    reveal_strlit(")");
    reveal_strlit("[");
    reveal_strlit("]");
    reveal_strlit("{");
    reveal_strlit("}");
    reveal_strlit("..");
}

/// A word that is written like a keyword is that keyword, and no other word is one.
pub proof fn keywords_are_words(w: Seq<char>)
    ensures
        match keyword_spec(w) {
            Some(k) => spelling(k) == Some(w) && w.len() > 1 && w[0] >= 'a' && w[0] <= 'z',
            None => forall|k: Tok| #[trigger] spelling(k) == Some(w) ==> !(w[0] >= 'a' && w[0] <= 'z'),
        },
{
    reveal_strlit("let");
    reveal_strlit("mut");
    reveal_strlit("fn");
    reveal_strlit("if");
    reveal_strlit("elif");
    reveal_strlit("else");
    reveal_strlit("for");
    reveal_strlit("in");
    reveal_strlit("while");
    reveal_strlit("return");
    reveal_strlit("match");
    reveal_strlit("case");
    reveal_strlit("struct");
    reveal_strlit("enum");
    reveal_strlit("trait");
    reveal_strlit("impl");
    reveal_strlit("import");
    reveal_strlit("from");
    reveal_strlit("as");
    reveal_strlit("export");
    reveal_strlit("extern");
    reveal_strlit("dynamic");
    reveal_strlit("weak");
    reveal_strlit("and");
    reveal_strlit("or");
    reveal_strlit("not");
    reveal_strlit("true");
    reveal_strlit("false");
    reveal_strlit("nil");
    reveal_strlit("break");
    reveal_strlit("continue");
    reveal_strlit("try");
    reveal_strlit("catch");
    reveal_strlit("raise");
    reveal_strlit("do");
    reveal_strlit("end");
    reveal_strlit("self");
    reveal_strlit("with");
    reveal_strlit("+");
    reveal_strlit("-");
    reveal_strlit("*");
    reveal_strlit("**");
    reveal_strlit("/");
    reveal_strlit("%");
    reveal_strlit("+=");
    reveal_strlit("-=");
    reveal_strlit("*=");
    reveal_strlit("/=");
    reveal_strlit("==");
    reveal_strlit("!=");
    reveal_strlit("<");
    reveal_strlit("<=");
    reveal_strlit(">");
    reveal_strlit(">=");
    reveal_strlit("=");
    reveal_strlit(":");
    reveal_strlit(",");
    reveal_strlit(".");
    reveal_strlit("->");
    reveal_strlit("=>");
    reveal_strlit("(");
    reveal_strlit(")");
    reveal_strlit("[");
    reveal_strlit("]");
    reveal_strlit("{");
    reveal_strlit("}");
    reveal_strlit("..");
}

proof fn word_good(src: Seq<u8>, s: Lex)
    requires
        placed(src, s),
        is_letter(byte_at(src, s.pos)) || byte_at(src, s.pos) == 0x5f,
    ensures
        good(src, s, Ok(lex_word(src, s))),
{
    let t = run(src, s, Class::Word);
    run_ends(src, s, Class::Word);
    assert(in_class(Class::Word, src[s.pos]));
    let w = chars_of(src, s.pos, t.pos);
    assert(written(src, s.pos, t.pos, w)) by {
        assert forall|k: int| 0 <= k < w.len() implies src[s.pos + k] as char == #[trigger] w[k] by {}
    }
    keywords_are_words(w);
    assert(w[0] == src[s.pos] as char);
    match keyword_spec(w) {
        Some(k) => {},
        None => {
            assert forall|k: Tok| #[trigger] spelling(k) != Some(w) by {
                if spelling(k) == Some(w) {
                    starts(k);
                }
            }
        },
    }
}

/// A keyword starts with a small letter, an operator with no letter and no underscore.
proof fn starts(k: Tok)
    requires
        spelling(k) is Some,
    ensures
        spelling(k)->0.len() > 0,
        ({
            let c = spelling(k)->0[0];
            (c >= 'a' && c <= 'z') || !((c >= 'A' && c <= 'Z') || c == '_')
        }),
{
    reveal_strlit("let");
    reveal_strlit("mut");
    reveal_strlit("fn");
    reveal_strlit("if");
    reveal_strlit("elif");
    reveal_strlit("else");
    reveal_strlit("for");
    reveal_strlit("in");
    reveal_strlit("while");
    reveal_strlit("return");
    reveal_strlit("match");
    reveal_strlit("case");
    reveal_strlit("struct");
    reveal_strlit("enum");
    reveal_strlit("trait");
    reveal_strlit("impl");
    reveal_strlit("import");
    reveal_strlit("from");
    reveal_strlit("as");
    reveal_strlit("export");
    reveal_strlit("extern");
    reveal_strlit("dynamic");
    reveal_strlit("weak");
    reveal_strlit("and");
    reveal_strlit("or");
    reveal_strlit("not");
    reveal_strlit("true");
    reveal_strlit("false");
    reveal_strlit("nil");
    reveal_strlit("break");
    reveal_strlit("continue");
    reveal_strlit("try");
    reveal_strlit("catch");
    reveal_strlit("raise");
    reveal_strlit("do");
    reveal_strlit("end");
    reveal_strlit("self");
    reveal_strlit("with");
    reveal_strlit("+");
    reveal_strlit("-");
    reveal_strlit("*");
    reveal_strlit("**");
    reveal_strlit("/");
    reveal_strlit("%");
    reveal_strlit("+=");
    reveal_strlit("-=");
    reveal_strlit("*=");
    reveal_strlit("/=");
    reveal_strlit("==");
    reveal_strlit("!=");
    reveal_strlit("<");
    reveal_strlit("<=");
    reveal_strlit(">");
    reveal_strlit(">=");
    reveal_strlit("=");
    reveal_strlit(":");
    reveal_strlit(",");
    reveal_strlit(".");
    reveal_strlit("->");
    reveal_strlit("=>");
    reveal_strlit("(");
    reveal_strlit(")");
    reveal_strlit("[");
    reveal_strlit("]");
    reveal_strlit("{");
    reveal_strlit("}");
    reveal_strlit("..");
}

proof fn content_good(src: Seq<u8>, s: Lex)
    requires
        placed(src, s),
        s.pos < src.len(),
        byte_at(src, s.pos) != 0x0a,
    ensures
        good(src, s, lex_content(src, s)),
{
    let c = byte_at(src, s.pos);
    let next = byte_at(src, s.pos + 1);
    if is_letter(c) || c == 0x5f {
        if (c == 0x66 || c == 0x46) && (next == 0x22 || next == 0x27) {
            quoted_good(src, bump(src, s), true);
        } else {
            word_good(src, s);
        }
    } else if is_digit(c) {
        number_good(src, s);
    } else if c == 0x22 || c == 0x27 {
        quoted_good(src, s, false);
    } else {
        let t = bump(src, s);
        assert(placed(src, t));
        if operator(c, next) is Some {
            operator_written(src, s.pos);
            assert((operator(c, next)->0).1 ==> placed(src, bump(src, t)));
        }
    }
}

/// The next token spells a piece of the source, with nothing of meaning before it, and
/// tells the line and the column behind it.
pub proof fn token_spells(src: Seq<u8>, s: Lex)
    requires
        layout_ok(s),
        placed(src, s),
    ensures
        match next_token_spec(src, s) {
            Err(_) => true,
            Ok((t, k)) => placed(src, t) && s.pos <= t.pos && exists|a: int| #[trigger]
                gap(src, s.pos, a) && spelled(src, a, t.pos, k.tok),
        },
    decreases src.len() + 2 - s.pos,
{
    if s.pending.len() > 0 {
        assert(s.pending[s.pending.len() - 1].tok == TokView::Plain(Tok::Dedent));
        assert(gap(src, s.pos, s.pos));
    } else {
        lines_took(src, s);
        match handle_lines(src, s) {
            Ok((t, None)) => {
                let u = skip_trivia(src, t);
                trivia_is_gap(src, t);
                gap_joins(src, s.pos, t.pos, u.pos);
                let c = byte_at(src, u.pos);
                if c == 0x0a {
                    let v = bump(src, u);
                    if v.depth != 0 && s.pos < v.pos <= src.len() + 1 {
                        next_layout(src, s);
                        token_spells(src, v);
                        assert(skipped(src, u.pos, v.pos));
                        gap_single(src, u.pos, v.pos);
                        gap_joins(src, s.pos, u.pos, v.pos);
                        match next_token_spec(src, v) {
                            Ok((w, k)) => {
                                let a = choose|a: int| #[trigger]
                                    gap(src, v.pos, a) && spelled(src, a, w.pos, k.tok);
                                gap_joins(src, s.pos, v.pos, a);
                            },
                            Err(_) => {},
                        }
                    } else {
                        assert(gap(src, s.pos, u.pos));
                    }
                } else if c != 0 {
                    content_good(src, u);
                    assert(gap(src, s.pos, u.pos));
                }
            },
            Ok((t, Some(k))) => {
                assert(gap(src, s.pos, t.pos));
            },
            _ => {},
        }
    }
}

/// Lines taken up without a token leave the layout sound.
proof fn next_layout(src: Seq<u8>, s: Lex)
    requires
        layout_ok(s),
    ensures
        match handle_lines(src, s) {
            Ok((t, None)) => layout_ok(skip_trivia(src, t)) && layout_ok(
                bump(src, skip_trivia(src, t)),
            ),
            _ => true,
        },
{
    crate::lexer::lines_keep_layout(src, s);
}

/// Whether tokens spell the source from a place on: each a piece, in their order, with
/// nothing of meaning between, and the end of the source after the last.
pub open spec fn spell(src: Seq<u8>, i: int, toks: Seq<TokenView>) -> bool
    decreases toks.len(),
{
    toks.len() > 0 && exists|a: int, b: int| #[trigger]
        gap(src, i, a) && #[trigger] spelled(src, a, b, toks[0].tok) && if toks.len() == 1 {
            toks[0].tok == TokView::Plain(Tok::Eof)
        } else {
            spell(src, b, toks.skip(1))
        }
}

proof fn tokens_spell_from(src: Seq<u8>, s: Lex)
    requires
        layout_ok(s),
        placed(src, s),
    ensures
        match tokens_spec(src, s) {
            Err(_) => true,
            Ok(v) => spell(src, s.pos, v),
        },
    decreases work_left(src, s),
{
    token_spells(src, s);
    next_token_layout(src, s);
    match next_token_spec(src, s) {
        Ok((t, k)) => {
            let a = choose|a: int| #[trigger]
                gap(src, s.pos, a) && spelled(src, a, t.pos, k.tok);
            if k.tok == TokView::Plain(Tok::Eof) {
                let v = seq![k];
                assert(gap(src, s.pos, a) && spelled(src, a, t.pos, v[0].tok));
            } else if 0 <= work_left(src, t) < work_left(src, s) {
                tokens_spell_from(src, t);
                match tokens_spec(src, t) {
                    Ok(rest) => {
                        let v = seq![k] + rest;
                        assert(v.skip(1) =~= rest);
                        assert(gap(src, s.pos, a) && spelled(src, a, t.pos, v[0].tok));
                    },
                    Err(_) => {},
                }
            }
        },
        Err(_) => {},
    }
}

/// The tokens of a text spell that text: joined, with blanks, line ends and comments
/// between them, they are the text.
pub proof fn tokens_spell_source(src: Seq<u8>)
    ensures
        match tokens_spec(src, lex_start()) {
            Err(_) => true,
            Ok(v) => spell(src, 0, v),
        },
{
    tokens_spell_from(src, lex_start());
}

} // verus!
