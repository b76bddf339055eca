use vstd::prelude::*;

use crate::ast;
use crate::peg_parser::{body_ok, rule_ok, spans, utf8_len, CharClass, ParseMark, Parsed, ParsedRange, PegParserImpl};
use crate::text::{char_from_u32, is_scalar_value, string_from_chars, string_push};

verus! {

/// The names of the grammar's rules.
#[derive(Copy, Clone, Debug, Hash, PartialEq, Eq)]
pub enum RuleName {
    Statement,
    EmptyStatement,
    ExpressionStatement,
    IfStatement,
    WhileStatement,
    BreakStatement,
    ContinueStatement,
    ReturnStatement,
    BlockStatement,
    ForStatement,
    SwitchStatement,
    VarDecl,
    VarDeclStatement,
    FunctionDeclStatement,
    FunctionDeclArg,
    FunctionDeclArgs,
    CommaExpression,
    AssignmentExpression,
    TernaryExpression,
    TernaryExpressionTerm,
    WsChar,
    Ws,
    Sp,
    OptSp,
    LineComment,
    BlockComment,
    WordBoundary,
    Identifier,
    ReservedWord,
    BooleanLiteral,
    NullLiteral,
    StringLiteral,
    StringLiteralChar,
    DecimalLiteral,
    HexLiteral,
    OctalLiteral,
    BinaryLiteral,
    IntLiteral,
    AddExpression,
    MultExpression,
    BitshiftExpression,
    RelationalExpression,
    EqualityExpression,
    BitwiseAndExpression,
    BitwiseXorExpression,
    BitwiseOrExpression,
    LogicalAndExpression,
    LogicalOrExpression,
    UnaryExpression,
    MemberExpression,
    DotAccess,
    FunctionCall,
    FunctionCallArgs,
    IndexAccess,
    NonNullAssert,
    GroupingExpression,
    GroupedExpression,
    PrimaryExpression,
    IdentifierExpression,
    LiteralExpression,
    NoLineEndSpace,
    StatementEnd,
}

//--------------------------------------------------
// Character classes of the grammar

pub open spec fn is_ascii_letter(c: char) -> bool {
    ('A' <= c && c <= 'Z') || ('a' <= c && c <= 'z')
}

pub open spec fn is_ascii_digit(c: char) -> bool {
    '0' <= c && c <= '9'
}

/// A character that may start an identifier.
pub open spec fn is_identifier_start_char(c: char) -> bool {
    is_ascii_letter(c) || c == '_'
}

/// A character that may continue an identifier.
pub open spec fn is_identifier_rest_char(c: char) -> bool {
    is_ascii_letter(c) || is_ascii_digit(c) || c == '_'
}

pub open spec fn is_newline_char(c: char) -> bool {
    c == '\r' || c == '\n'
}

//--------------------------------------------------
// The text that the lexical rules look at

/// The character at index `i` of `s`, if there is one.
pub open spec fn char_at(s: Seq<char>, i: int) -> Option<char> {
    if 0 <= i < s.len() {
        Some(s[i])
    } else {
        None
    }
}

/// No identifier character stands at index `i` of `s`.
pub open spec fn boundary_at(s: Seq<char>, i: int) -> bool {
    !(char_at(s, i) matches Some(c) && is_identifier_rest_char(c))
}

/// `s` holds `w` from index `i` on.
pub open spec fn str_at(s: Seq<char>, i: int, w: Seq<char>) -> bool {
    &&& 0 <= i
    &&& i + w.len() <= s.len()
    &&& s.subrange(i, i + w.len()) == w
}

/// `s` holds the keyword `w` from index `i` on: the word, then no identifier character.
pub open spec fn keyword_at(s: Seq<char>, i: int, w: Seq<char>) -> bool {
    str_at(s, i, w) && boundary_at(s, i + w.len())
}

/// The index of the first of the words, from the `k`th on, that `s` holds at index `i`.
pub open spec fn first_str_at(s: Seq<char>, i: int, words: Seq<&'static str>, k: int) -> Option<
    int,
>
    decreases words.len() - k,
{
    if k < 0 || k >= words.len() {
        None
    } else if str_at(s, i, words[k]@) {
        Some(k)
    } else {
        first_str_at(s, i, words, k + 1)
    }
}

/// The end of the run of identifier characters that starts at index `j`.
pub open spec fn ident_end(s: Seq<char>, j: int) -> int
    decreases s.len() - j,
{
    if 0 <= j < s.len() && is_identifier_rest_char(s[j]) {
        ident_end(s, j + 1)
    } else {
        j
    }
}

/// The reserved words, in the order in which they are tried.
pub open spec fn spec_reserved_words() -> Seq<&'static str> {
    seq![
        "true",
        "false",
        "null",
        "if",
        "else",
        "while",
        "return",
        "break",
        "continue",
        "for",
        "switch",
        "case",
        "default",
        "function",
        "var",
        "let",
        "const",
    ]
}

/// A reserved word stands at index `i` of `s`: the first reserved word that `s` holds there
/// is followed by no identifier character.
pub open spec fn reserved_at(s: Seq<char>, i: int) -> bool {
    match first_str_at(s, i, spec_reserved_words(), 0) {
        Some(k) => boundary_at(s, i + spec_reserved_words()[k]@.len()),
        None => false,
    }
}

/// The boolean literal at index `i` of `s`, if there is one.
pub open spec fn spec_boolean_at(s: Seq<char>, i: int) -> Option<bool> {
    if keyword_at(s, i, "true"@) {
        Some(true)
    } else if keyword_at(s, i, "false"@) {
        Some(false)
    } else {
        None
    }
}

/// The text of a boolean literal.
pub open spec fn spec_boolean_word(b: bool) -> Seq<char> {
    if b {
        "true"@
    } else {
        "false"@
    }
}

pub fn any_char() -> (res: CharClass<'static>)
    ensures
        forall|c: char| res.spec_matches(c),
{
    CharClass::new().except()
}

pub fn ws_chars() -> (res: CharClass<'static>)
    ensures
        !res.negated,
        forall|c: char| res.spec_matches(c) <==> (c == ' ' || c == '\n' || c == '\r' || c == '\t'),
{
    let r = CharClass::new().chars(&[' ', '\n', '\r', '\t']);
    assert forall|c: char| r.spec_matches(c) <==> (c == ' ' || c == '\n' || c == '\r' || c == '\t') by {
        if c == ' ' {
            assert(r.singles@[0] == c);
        } else if c == '\n' {
            assert(r.singles@[1] == c);
        } else if c == '\r' {
            assert(r.singles@[2] == c);
        } else if c == '\t' {
            assert(r.singles@[3] == c);
        }
    }
    r
}

pub fn no_line_end_ws_chars() -> (res: CharClass<'static>)
    ensures
        !res.negated,
        forall|c: char| res.spec_matches(c) <==> (c == ' ' || c == '\t'),
{
    let r = CharClass::new().chars(&[' ', '\t']);
    assert forall|c: char| r.spec_matches(c) <==> (c == ' ' || c == '\t') by {
        if c == ' ' {
            assert(r.singles@[0] == c);
        } else if c == '\t' {
            assert(r.singles@[1] == c);
        }
    }
    r
}

pub fn identifier_start_chars() -> (res: CharClass<'static>)
    ensures
        !res.negated,
        forall|c: char| res.spec_matches(c) <==> is_identifier_start_char(c),
{
    let r = CharClass::new().ranges(&[('A', 'Z'), ('a', 'z')]).chars(&['_']);
    assert forall|c: char| r.spec_matches(c) <==> is_identifier_start_char(c) by {
        if 'A' <= c && c <= 'Z' {
            assert(r.ranges@[0] == ('A', 'Z'));
        } else if 'a' <= c && c <= 'z' {
            assert(r.ranges@[1] == ('a', 'z'));
        } else if c == '_' {
            assert(r.singles@[0] == c);
        }
        if r.spec_matches(c) {
            if exists|i: int| 0 <= i < r.ranges@.len() && (#[trigger] r.ranges@[i]).0 <= c && c
                <= r.ranges@[i].1 {
                let i = choose|i: int|
                    0 <= i < r.ranges@.len() && (#[trigger] r.ranges@[i]).0 <= c && c
                        <= r.ranges@[i].1;
                assert(i == 0 || i == 1);
            }
        }
    }
    r
}

pub fn identifier_rest_chars() -> (res: CharClass<'static>)
    ensures
        !res.negated,
        forall|c: char| res.spec_matches(c) <==> is_identifier_rest_char(c),
{
    let r = CharClass::new().ranges(&[('A', 'Z'), ('a', 'z'), ('0', '9')]).chars(&['_']);
    assert forall|c: char| r.spec_matches(c) <==> is_identifier_rest_char(c) by {
        if 'A' <= c && c <= 'Z' {
            assert(r.ranges@[0] == ('A', 'Z'));
        } else if 'a' <= c && c <= 'z' {
            assert(r.ranges@[1] == ('a', 'z'));
        } else if '0' <= c && c <= '9' {
            assert(r.ranges@[2] == ('0', '9'));
        } else if c == '_' {
            assert(r.singles@[0] == c);
        }
        if r.spec_matches(c) {
            if exists|i: int| 0 <= i < r.ranges@.len() && (#[trigger] r.ranges@[i]).0 <= c && c
                <= r.ranges@[i].1 {
                let i = choose|i: int|
                    0 <= i < r.ranges@.len() && (#[trigger] r.ranges@[i]).0 <= c && c
                        <= r.ranges@[i].1;
                assert(i == 0 || i == 1 || i == 2);
            }
        }
    }
    r
}

pub fn decimal_digit() -> (res: CharClass<'static>)
    ensures
        !res.negated,
        forall|c: char| res.spec_matches(c) <==> is_ascii_digit(c),
{
    let r = CharClass::new().ranges(&[('0', '9')]);
    assert forall|c: char| r.spec_matches(c) <==> is_ascii_digit(c) by {
        if is_ascii_digit(c) {
            assert(r.ranges@[0] == ('0', '9'));
        }
    }
    r
}

pub fn hex_digit_chars() -> (res: CharClass<'static>)
    ensures
        !res.negated,
        forall|c: char|
            res.spec_matches(c) <==> (is_ascii_digit(c) || ('a' <= c && c <= 'f') || ('A' <= c
                && c <= 'F')),
{
    let r = CharClass::new().ranges(&[('0', '9'), ('a', 'f'), ('A', 'F')]);
    assert forall|c: char|
        r.spec_matches(c) <==> (is_ascii_digit(c) || ('a' <= c && c <= 'f') || ('A' <= c && c
            <= 'F')) by {
        if is_ascii_digit(c) {
            assert(r.ranges@[0] == ('0', '9'));
        } else if 'a' <= c && c <= 'f' {
            assert(r.ranges@[1] == ('a', 'f'));
        } else if 'A' <= c && c <= 'F' {
            assert(r.ranges@[2] == ('A', 'F'));
        }
        if r.spec_matches(c) {
            let i = choose|i: int|
                0 <= i < r.ranges@.len() && (#[trigger] r.ranges@[i]).0 <= c && c
                    <= r.ranges@[i].1;
            assert(i == 0 || i == 1 || i == 2);
        }
    }
    r
}

pub fn octal_digit() -> (res: CharClass<'static>)
    ensures
        !res.negated,
        forall|c: char| res.spec_matches(c) <==> ('0' <= c && c <= '7'),
{
    let r = CharClass::new().ranges(&[('0', '7')]);
    assert forall|c: char| r.spec_matches(c) <==> ('0' <= c && c <= '7') by {
        if '0' <= c && c <= '7' {
            assert(r.ranges@[0] == ('0', '7'));
        }
    }
    r
}

pub fn binary_digit() -> (res: CharClass<'static>)
    ensures
        !res.negated,
        forall|c: char| res.spec_matches(c) <==> ('0' <= c && c <= '1'),
{
    let r = CharClass::new().ranges(&[('0', '1')]);
    assert forall|c: char| r.spec_matches(c) <==> ('0' <= c && c <= '1') by {
        if '0' <= c && c <= '1' {
            assert(r.ranges@[0] == ('0', '1'));
        }
    }
    r
}

pub fn newline_chars() -> (res: CharClass<'static>)
    ensures
        !res.negated,
        forall|c: char| res.spec_matches(c) <==> is_newline_char(c),
{
    let r = CharClass::new().chars(&['\r', '\n']);
    assert forall|c: char| r.spec_matches(c) <==> is_newline_char(c) by {
        if c == '\r' {
            assert(r.singles@[0] == c);
        } else if c == '\n' {
            assert(r.singles@[1] == c);
        }
    }
    r
}

pub fn not_newline_chars() -> (res: CharClass<'static>)
    ensures
        forall|c: char| res.spec_matches(c) <==> !is_newline_char(c),
{
    newline_chars().except()
}

/// The reserved words of the language.
pub fn reserved_words() -> (res: &'static [&'static str])
    ensures
        res@ == spec_reserved_words(),
{
    let words: &'static [&'static str] = &[
        "true",
        "false",
        "null",
        "if",
        "else",
        "while",
        "return",
        "break",
        "continue",
        "for",
        "switch",
        "case",
        "default",
        "function",
        "var",
        "let",
        "const",
    ];
    assert(words@ =~= spec_reserved_words());
    words
}

//--------------------------------------------------
// Values that the lexical rules produce

pub enum DigitOrUnderscore {
    Digit(char),
    Underscore,
}

pub enum CharOrLineBreak {
    Char(char),
    // Represents a "\" followed by a newline, representing a line continuation in a string
    // literal that doesn't actually contribute any characters
    LineBreak,
}

impl CharOrLineBreak {
    pub open spec fn spec_to_char(&self) -> Option<char> {
        match self {
            CharOrLineBreak::Char(ch) => Some(*ch),
            CharOrLineBreak::LineBreak => None,
        }
    }

    pub fn to_char(&self) -> (res: Option<char>)
        ensures
            res == self.spec_to_char(),
    {
        match self {
            Self::Char(ch) => Some(*ch),
            Self::LineBreak => None,
        }
    }
}

/// The value of a digit character in the given radix (as `char::to_digit` computes it).
pub open spec fn spec_to_digit(c: char, radix: u32) -> Option<u32> {
    let v: int = if '0' <= c && c <= '9' {
        c as int - '0' as int
    } else if 'a' <= c && c <= 'z' {
        c as int - 'a' as int + 10
    } else if 'A' <= c && c <= 'Z' {
        c as int - 'A' as int + 10
    } else {
        -1
    };
    if 0 <= v && v < radix {
        Some(v as u32)
    } else {
        None
    }
}

/// The value of a digit character in the given radix, if it is one.
pub fn to_digit(c: char, radix: u32) -> (res: Option<u32>)
    requires
        radix <= 36,
    ensures
        res == spec_to_digit(c, radix),
{
    let v: u32 = if c >= '0' && c <= '9' {
        (c as u32) - ('0' as u32)
    } else if c >= 'a' && c <= 'z' {
        (c as u32) - ('a' as u32) + 10
    } else if c >= 'A' && c <= 'Z' {
        (c as u32) - ('A' as u32) + 10
    } else {
        return None;
    };
    if v < radix {
        Some(v)
    } else {
        None
    }
}

/// The number that a sequence of digits and underscores spells in the given radix, with the
/// underscores ignored; `None` when one of the digits is not a digit of that radix.
pub open spec fn spec_digits_value(ds: Seq<Parsed<DigitOrUnderscore>>, radix: u32) -> Option<
    nat,
>
    decreases ds.len(),
{
    if ds.len() == 0 {
        Some(0)
    } else {
        match spec_digits_value(ds.drop_last(), radix) {
            None => None,
            Some(acc) => match ds.last().value {
                DigitOrUnderscore::Digit(d) => match spec_to_digit(d, radix) {
                    Some(dv) => Some((acc * radix + dv) as nat),
                    None => None,
                },
                DigitOrUnderscore::Underscore => Some(acc),
            },
        }
    }
}

/// What a character of a number stands for: an underscore, or a digit.
pub open spec fn digit_of(c: char) -> DigitOrUnderscore {
    if c == '_' {
        DigitOrUnderscore::Underscore
    } else {
        DigitOrUnderscore::Digit(c)
    }
}

/// The number that the digits and underscores of `cs` spell in the given radix, with the
/// underscores ignored; `None` when another character is not a digit of that radix.
pub open spec fn spec_chars_value(cs: Seq<char>, radix: u32) -> Option<nat>
    decreases cs.len(),
{
    if cs.len() == 0 {
        Some(0)
    } else {
        match spec_chars_value(cs.drop_last(), radix) {
            None => None,
            Some(acc) => if cs.last() == '_' {
                Some(acc)
            } else {
                match spec_to_digit(cs.last(), radix) {
                    Some(dv) => Some((acc * radix + dv) as nat),
                    None => None,
                }
            },
        }
    }
}

/// The character is a digit of the radix.
pub open spec fn is_radix_digit(c: char, radix: u32) -> bool {
    spec_to_digit(c, radix) is Some
}

/// The end of the run of digits of the radix and underscores that starts at index `j`.
pub open spec fn digit_run_end(s: Seq<char>, j: int, radix: u32) -> int
    decreases s.len() - j,
{
    if 0 <= j < s.len() && (s[j] == '_' || is_radix_digit(s[j], radix)) {
        digit_run_end(s, j + 1, radix)
    } else {
        j
    }
}

/// The integer literal of one radix at index `i` of `s`: the prefix, a digit, then digits and
/// underscores.  Its value and the index where it ends; `None` where no such literal stands
/// there or its value does not fit in 64 bits.
pub open spec fn spec_radix_literal_at(s: Seq<char>, i: int, prefix: Seq<char>, radix: u32) -> Option<
    (u64, int),
> {
    let d = i + prefix.len();
    if str_at(s, i, prefix) && d < s.len() && is_radix_digit(s[d], radix) {
        let e = digit_run_end(s, d + 1, radix);
        match spec_chars_value(s.subrange(d, e), radix) {
            Some(v) => if v <= u64::MAX {
                Some((v as u64, e))
            } else {
                None
            },
            None => None,
        }
    } else {
        None
    }
}

/// The integer literal at index `i` of `s`: hexadecimal, octal, binary or decimal, tried in
/// that order.  Its value, the index where it ends, and its radix.
pub open spec fn spec_int_literal_at(s: Seq<char>, i: int) -> Option<(u64, int, ast::Radix)> {
    if let Some((v, e)) = spec_radix_literal_at(s, i, "0x"@, 16) {
        Some((v, e, ast::Radix::Hex))
    } else if let Some((v, e)) = spec_radix_literal_at(s, i, "0o"@, 8) {
        Some((v, e, ast::Radix::Octal))
    } else if let Some((v, e)) = spec_radix_literal_at(s, i, "0b"@, 2) {
        Some((v, e, ast::Radix::Binary))
    } else if let Some((v, e)) = spec_radix_literal_at(s, i, ""@, 10) {
        Some((v, e, ast::Radix::Decimal))
    } else {
        None
    }
}

/// A rule's result is the integer literal `lit` of the radix, if there is one, and covers the
/// text that the rule consumed.
pub open spec fn int_literal_result(
    old_p: PegParserImpl,
    new_p: PegParserImpl,
    res: Option<Parsed<ast::Expression>>,
    lit: Option<(u64, int)>,
    radix: ast::Radix,
) -> bool {
    match lit {
        Some((v, e)) => res matches Some(r) && {
            &&& r.value == ast::Expression::IntLiteral(ast::IntLiteral { value: v, radix, suffix: None })
            &&& r.range.start == old_p.position()
            &&& r.range.end == new_p.position()
            &&& new_p.index() == e
        },
        None => res is None,
    }
}

/// The escapes that stand for one character: `\\n`, `\\r`, `\\t`, `\\v`, `\\b`, `\\f`,
/// `\\\\`, `\\'`, `\\"` and `\\0`, in the order in which they are tried.
pub open spec fn spec_single_escapes() -> Seq<(char, char)> {
    seq![
        ('n', '\n'),
        ('r', '\r'),
        ('t', '\t'),
        ('v', '\x0b'),
        ('b', '\x08'),
        ('f', '\x0c'),
        ('\\', '\\'),
        ('\'', '\''),
        ('\"', '\"'),
        ('0', '\0'),
    ]
}

/// The replacement of the first entry of the mapping, from the `k`th on, whose key is `c`.
pub open spec fn first_mapping(mapping: Seq<(char, char)>, c: char, k: int) -> Option<char>
    decreases mapping.len() - k,
{
    if k < 0 || k >= mapping.len() {
        None
    } else if mapping[k].0 == c {
        Some(mapping[k].1)
    } else {
        first_mapping(mapping, c, k + 1)
    }
}

/// The value of the hexadecimal digit at index `j`, if one stands there.
pub open spec fn hex_digit_at(s: Seq<char>, j: int) -> Option<u32> {
    match char_at(s, j) {
        Some(c) => spec_to_digit(c, 16),
        None => None,
    }
}

/// The number that a sequence of hexadecimal digits spells.
pub open spec fn spec_hex_value(cs: Seq<char>) -> nat
    decreases cs.len(),
{
    if cs.len() == 0 {
        0
    } else {
        (spec_hex_value(cs.drop_last()) * 16 + spec_to_digit(cs.last(), 16)->0) as nat
    }
}

/// All the characters are hexadecimal digits.
pub open spec fn all_hex(cs: Seq<char>) -> bool {
    forall|k: int| 0 <= k < cs.len() ==> is_radix_digit(#[trigger] cs[k], 16)
}

/// The end of the run of hexadecimal digits that starts at index `j`.
pub open spec fn hex_run_end(s: Seq<char>, j: int) -> int
    decreases s.len() - j,
{
    if 0 <= j < s.len() && is_radix_digit(s[j], 16) {
        hex_run_end(s, j + 1)
    } else {
        j
    }
}

/// The character with the given code, if the code is a Unicode scalar value.
pub open spec fn spec_char_from(code: nat) -> Option<char> {
    if code <= u32::MAX && is_scalar_value(code as u32) {
        Some(code as char)
    } else {
        None
    }
}

/// `xHH` at index `j`: the character whose code the two hexadecimal digits spell.
pub open spec fn spec_hex_escape_at(s: Seq<char>, j: int) -> Option<char> {
    if char_at(s, j) == Some('x') && str_all_hex(s, j + 1, j + 3) {
        spec_char_from(spec_hex_value(s.subrange(j + 1, j + 3)))
    } else {
        None
    }
}

/// The text from `a` to `b` lies in `s` and holds only hexadecimal digits.
pub open spec fn str_all_hex(s: Seq<char>, a: int, b: int) -> bool {
    0 <= a <= b <= s.len() && all_hex(s.subrange(a, b))
}

/// `uHHHH` at index `j`: the character whose code the four hexadecimal digits spell.
pub open spec fn spec_unicode_escape_at(s: Seq<char>, j: int) -> Option<char> {
    if char_at(s, j) == Some('u') && str_all_hex(s, j + 1, j + 5) {
        spec_char_from(spec_hex_value(s.subrange(j + 1, j + 5)))
    } else {
        None
    }
}

/// `u{H...}` at index `j`, with one to six hexadecimal digits: the character whose code they
/// spell, and the index after the closing brace.
pub open spec fn spec_codepoint_escape_at(s: Seq<char>, j: int) -> Option<(char, int)> {
    let e = hex_run_end(s, j + 2);
    if str_at(s, j, "u{"@) && j + 2 < e && e - (j + 2) <= 6 && char_at(s, e) == Some('}') {
        match spec_char_from(spec_hex_value(s.subrange(j + 2, e))) {
            Some(c) => Some((c, e + 1)),
            None => None,
        }
    } else {
        None
    }
}

/// What follows a backslash at index `j` in a string literal: the character it stands for
/// (none for a line continuation) and the index after it.  The forms are tried in order: the
/// single-character escapes, `xHH`, `uHHHH`, `u{H...}`, a line break, and then any character
/// but the delimiter, which stands for itself.
pub open spec fn spec_escape_at(s: Seq<char>, j: int, delimiter: char) -> Option<(Option<char>, int)> {
    if char_at(s, j) is Some && first_mapping(spec_single_escapes(), s[j], 0) is Some {
        Some((first_mapping(spec_single_escapes(), s[j], 0), j + 1))
    } else if let Some(c) = spec_hex_escape_at(s, j) {
        Some((Some(c), j + 3))
    } else if let Some(c) = spec_unicode_escape_at(s, j) {
        Some((Some(c), j + 5))
    } else if let Some((c, e)) = spec_codepoint_escape_at(s, j) {
        Some((Some(c), e))
    } else if char_at(s, j) is Some && is_newline_char(s[j]) {
        Some((None, j + 1))
    } else if char_at(s, j) is Some && s[j] != delimiter {
        Some((Some(s[j]), j + 1))
    } else {
        None
    }
}

/// One character of a string literal at index `i`: any character but the delimiter and the
/// backslash stands for itself, and a backslash starts an escape.
pub open spec fn spec_string_char_at(s: Seq<char>, i: int, delimiter: char) -> Option<
    (Option<char>, int),
> {
    match char_at(s, i) {
        None => None,
        Some(c) => if c != delimiter && c != '\\' {
            Some((Some(c), i + 1))
        } else if c == '\\' {
            spec_escape_at(s, i + 1, delimiter)
        } else {
            None
        },
    }
}

/// The characters, if any, that one string character contributes.
pub open spec fn opt_chars(v: Option<char>) -> Seq<char> {
    match v {
        Some(c) => seq![c],
        None => Seq::empty(),
    }
}

/// The body of a string literal from index `i` on: string characters are read as long as one
/// parses.  The characters they contribute, and the index where the body ends.
pub open spec fn spec_string_body(s: Seq<char>, i: int, delimiter: char) -> (Seq<char>, int)
    decreases s.len() - i,
{
    match spec_string_char_at(s, i, delimiter) {
        Some((v, e)) => if i < e <= s.len() {
            let rest = spec_string_body(s, e, delimiter);
            (opt_chars(v) + rest.0, rest.1)
        } else {
            (Seq::empty(), i)
        },
        None => (Seq::empty(), i),
    }
}

/// The string literal with the given delimiter at index `i`: its value and the index after
/// the closing delimiter.
pub open spec fn spec_string_literal_for_at(s: Seq<char>, i: int, delimiter: char) -> Option<
    (Seq<char>, int),
> {
    let body = spec_string_body(s, i + 1, delimiter);
    if char_at(s, i) == Some(delimiter) && char_at(s, body.1) == Some(delimiter) {
        Some((body.0, body.1 + 1))
    } else {
        None
    }
}

/// Where a failed string literal with the given delimiter at index `i` leaves the cursor:
/// after the characters read past an opening delimiter, else at `i`.
pub open spec fn string_fail_end(s: Seq<char>, i: int, delimiter: char) -> int {
    if char_at(s, i) == Some(delimiter) {
        spec_string_body(s, i + 1, delimiter).1
    } else {
        i
    }
}

/// Where a failed string literal at index `i` leaves the cursor: the single-quoted try reads
/// what it can, and the double-quoted try starts where it stopped.
pub open spec fn string_literal_fail_end(s: Seq<char>, i: int) -> int {
    string_fail_end(s, string_fail_end(s, i, '\''), '\"')
}

/// A string character that parses moves forward, and stays within the text.
proof fn lemma_string_char_progress(s: Seq<char>, k: int, d: char)
    requires
        0 <= k,
        spec_string_char_at(s, k, d) is Some,
    ensures
        ({
            let x = spec_string_char_at(s, k, d)->0;
            k < x.1 <= s.len()
        }),
{
    reveal_strlit("u{");
}

/// The characters of a string body end where no string character parses: at the end of the
/// text, at a backslash that starts no escape, or at the delimiter.
proof fn lemma_string_body_end(s: Seq<char>, j: int, d: char)
    requires
        0 <= j,
    ensures
        j <= spec_string_body(s, j, d).1,
        spec_string_char_at(s, spec_string_body(s, j, d).1, d) is None,
        ({
            let k = spec_string_body(s, j, d).1;
            char_at(s, k) is None || char_at(s, k) == Some('\\') || char_at(s, k) == Some(d)
        }),
    decreases s.len() - j,
{
    if spec_string_char_at(s, j, d) is Some {
        lemma_string_char_progress(s, j, d);
        let x = spec_string_char_at(s, j, d)->0;
        lemma_string_body_end(s, x.1, d);
    }
}

/// A string literal that fails leaves the cursor where it started, or where no identifier
/// starts: at the end of the text or at a backslash.
proof fn lemma_string_literal_fail_end(s: Seq<char>, i: int)
    requires
        0 <= i,
        spec_string_literal_at(s, i) is None,
    ensures
        ({
            let k = string_literal_fail_end(s, i);
            &&& i <= k
            &&& (k == i || char_at(s, k) is None || char_at(s, k) == Some('\\'))
        }),
{
    if char_at(s, i) == Some('\'') {
        lemma_string_body_end(s, i + 1, '\'');
    } else if char_at(s, i) == Some('\"') {
        lemma_string_body_end(s, i + 1, '\"');
    }
}

/// The string literal at index `i`: single-quoted, or else double-quoted.
pub open spec fn spec_string_literal_at(s: Seq<char>, i: int) -> Option<(Seq<char>, int)> {
    if let Some(r) = spec_string_literal_for_at(s, i, '\'') {
        Some(r)
    } else {
        spec_string_literal_for_at(s, i, '\"')
    }
}

/// A rule's result is a parsed character-or-line-break: the optional character `v`, ending at
/// index `e`, when `x` is `Some((v, e))`; no result when `x` is `None`.
pub open spec fn char_result(
    old_p: PegParserImpl,
    new_p: PegParserImpl,
    res: Option<Parsed<CharOrLineBreak>>,
    x: Option<(Option<char>, int)>,
) -> bool {
    match x {
        Some((v, e)) => res matches Some(r) && {
            &&& r.value.spec_to_char() == v
            &&& r.range.start == old_p.position()
            &&& r.range.end == new_p.position()
            &&& new_p.index() == e
        },
        None => res is None,
    }
}

/// One more hexadecimal digit: the value grows by a place, and the run stays all digits.
proof fn lemma_hex_step(s: Seq<char>, a: int, b: int)
    requires
        0 <= a <= b < s.len(),
    ensures
        spec_hex_value(s.subrange(a, b + 1)) == spec_hex_value(s.subrange(a, b)) * 16
            + spec_to_digit(s[b], 16)->0,
        all_hex(s.subrange(a, b)) && is_radix_digit(s[b], 16) ==> all_hex(s.subrange(a, b + 1)),
{
    assert(s.subrange(a, b + 1).drop_last() =~= s.subrange(a, b));
    if all_hex(s.subrange(a, b)) && is_radix_digit(s[b], 16) {
        assert forall|k: int| 0 <= k < b + 1 - a implies is_radix_digit(
            #[trigger] s.subrange(a, b + 1)[k],
            16,
        ) by {
            if k < b - a {
                assert(s.subrange(a, b + 1)[k] == s.subrange(a, b)[k]);
            }
        }
    }
}

/// A text with a character that is no hexadecimal digit is not all digits.
proof fn lemma_not_all_hex(s: Seq<char>, a: int, b: int, k: int)
    requires
        a <= k < b,
        hex_digit_at(s, k) is None,
    ensures
        !str_all_hex(s, a, b),
{
    if 0 <= a && b <= s.len() {
        assert(s.subrange(a, b)[k - a] == s[k]);
    }
}

/// A rule's result is the string literal `lit`, if there is one: its value, and the text up to
/// the index where it ends.
pub open spec fn string_literal_result(
    old_p: PegParserImpl,
    new_p: PegParserImpl,
    res: Option<Parsed<ast::Expression>>,
    lit: Option<(Seq<char>, int)>,
) -> bool {
    match lit {
        Some((v, e)) => res matches Some(r) && {
            &&& r.value matches ast::Expression::StringLiteral(sv) && sv@ == v
            &&& r.range.start == old_p.position()
            &&& r.range.end == new_p.position()
            &&& new_p.index() == e
        },
        None => res is None,
    }
}

/// A whitespace character: a space, a line feed, a carriage return or a tab.
pub open spec fn is_ws_char(c: char) -> bool {
    c == ' ' || c == '\n' || c == '\r' || c == '\t'
}

/// The end of the run of characters other than line breaks that starts at index `j`.
pub open spec fn line_rest_end(s: Seq<char>, j: int) -> int
    decreases s.len() - j,
{
    if 0 <= j < s.len() && !is_newline_char(s[j]) {
        line_rest_end(s, j + 1)
    } else {
        j
    }
}

/// The line comment at index `i`: `//` and the rest of the line, without its line break.  The
/// index where it ends.
pub open spec fn spec_line_comment_at(s: Seq<char>, i: int) -> Option<int> {
    if str_at(s, i, "//"@) {
        Some(line_rest_end(s, i + 2))
    } else {
        None
    }
}

/// The index after the first `*/` that starts at or after index `k`.
pub open spec fn close_comment_end(s: Seq<char>, k: int) -> Option<int>
    decreases s.len() - k,
{
    if k < 0 || k >= s.len() {
        None
    } else if str_at(s, k, "*/"@) {
        Some(k + 2)
    } else {
        close_comment_end(s, k + 1)
    }
}

/// The block comment at index `i`: `/*` up to the next `*/`.  The index where it ends.
pub open spec fn spec_block_comment_at(s: Seq<char>, i: int) -> Option<int> {
    if str_at(s, i, "/*"@) {
        close_comment_end(s, i + 2)
    } else {
        None
    }
}

/// One piece of space at index `i`: a whitespace character, a line comment or a block
/// comment, tried in that order.  The index after it.
pub open spec fn spec_space_piece_at(s: Seq<char>, i: int) -> Option<int> {
    if char_at(s, i) is Some && is_ws_char(s[i]) {
        Some(i + 1)
    } else if let Some(e) = spec_line_comment_at(s, i) {
        Some(e)
    } else {
        spec_block_comment_at(s, i)
    }
}

/// The end of the run of space that starts at index `i`.
pub open spec fn spec_space_end(s: Seq<char>, i: int) -> int
    decreases s.len() - i,
{
    match spec_space_piece_at(s, i) {
        Some(e) => if i < e <= s.len() {
            spec_space_end(s, e)
        } else {
            i
        },
        None => i,
    }
}

/// One piece of space within a line at index `i`: a space, a tab or a block comment.  The
/// index after it.
pub open spec fn spec_inline_space_piece_at(s: Seq<char>, i: int) -> Option<int> {
    if char_at(s, i) is Some && (s[i] == ' ' || s[i] == '\t') {
        Some(i + 1)
    } else {
        spec_block_comment_at(s, i)
    }
}

/// The end of the run of space within a line that starts at index `i`.
pub open spec fn spec_inline_space_end(s: Seq<char>, i: int) -> int
    decreases s.len() - i,
{
    match spec_inline_space_piece_at(s, i) {
        Some(e) => if i < e <= s.len() {
            spec_inline_space_end(s, e)
        } else {
            i
        },
        None => i,
    }
}

/// The end of a statement at index `i`: after space within the line, a `;`, a line comment or
/// a line break, which are consumed, or the end of the input, a `}` or a `)`, which are not.
/// The index after it.
pub open spec fn spec_statement_end_at(s: Seq<char>, i: int) -> Option<int> {
    let j = spec_inline_space_end(s, i);
    if char_at(s, j) == Some(';') {
        Some(j + 1)
    } else if let Some(e) = spec_line_comment_at(s, j) {
        Some(e)
    } else if char_at(s, j) is Some && is_newline_char(s[j]) {
        Some(j + 1)
    } else if char_at(s, j) is None || s[j] == '}' || s[j] == ')' {
        Some(j)
    } else {
        None
    }
}

/// A rule that matches text without a value matched up to index `x`, when `x` is `Some`, and
/// failed when it is `None`.
pub open spec fn unit_result(
    old_p: PegParserImpl,
    new_p: PegParserImpl,
    res: Option<Parsed<()>>,
    x: Option<int>,
) -> bool {
    match x {
        Some(e) => res matches Some(r) && {
            &&& r.range.start == old_p.position()
            &&& r.range.end == new_p.position()
            &&& new_p.index() == e
        },
        None => res is None,
    }
}

/// The space that starts at index `i` ends between `i` and the end of the text.
pub proof fn lemma_space_end_bounds(s: Seq<char>, i: int)
    requires
        0 <= i <= s.len(),
    ensures
        i <= spec_space_end(s, i) <= s.len(),
    decreases s.len() - i,
{
    if let Some(e) = spec_space_piece_at(s, i) {
        if i < e <= s.len() {
            lemma_space_end_bounds(s, e);
        }
    }
}

proof fn lemma_inline_space_end_ge(s: Seq<char>, i: int)
    ensures
        spec_inline_space_end(s, i) >= i,
    decreases s.len() - i,
{
    if let Some(e) = spec_inline_space_piece_at(s, i) {
        if i < e <= s.len() {
            lemma_inline_space_end_ge(s, e);
        }
    }
}

/// An identifier starts at index `i`: no reserved word stands there, and the character there
/// may start an identifier.
pub open spec fn identifier_at(s: Seq<char>, i: int) -> bool {
    &&& !reserved_at(s, i)
    &&& char_at(s, i) matches Some(c)
    &&& is_identifier_start_char(c)
}

/// The text of an optional parsed name.
pub open spec fn opt_text(l: Option<Parsed<String>>) -> Option<Seq<char>> {
    match l {
        Some(l) => Some(l.value@),
        None => None,
    }
}

/// The optional label at index `j`: space, then an identifier.  Its text and the index after
/// it, or no label and `j` itself.
pub open spec fn spec_label_at(s: Seq<char>, j: int) -> (Option<Seq<char>>, int) {
    let k = spec_space_end(s, j);
    if identifier_at(s, k) {
        let e = ident_end(s, k + 1);
        (Some(s.subrange(k, e)), e)
    } else {
        (None, j)
    }
}

/// The `break` or `continue` statement with the keyword `w` at index `i`: the keyword, an
/// optional label and the end of the statement.  Its label and the index where it ends.
pub open spec fn spec_jump_at(s: Seq<char>, i: int, w: Seq<char>) -> Option<
    (Option<Seq<char>>, int),
> {
    if str_at(s, i, w) {
        let label = spec_label_at(s, i + w.len());
        match spec_statement_end_at(s, label.1) {
            Some(e) => Some((label.0, e)),
            None => None,
        }
    } else {
        None
    }
}

/// A rule's result is the literal at the parser's index: boolean, integer, null or string,
/// tried in that order.
pub open spec fn literal_result(
    old_p: PegParserImpl,
    new_p: PegParserImpl,
    res: Option<Parsed<ast::Expression>>,
) -> bool {
    let s = old_p.source();
    let i = old_p.index() as int;
    if let Some(b) = spec_boolean_at(s, i) {
        res matches Some(r) && {
            &&& r.value == ast::Expression::BooleanLiteral(b)
            &&& r.range.start == old_p.position()
            &&& r.range.end == new_p.position()
            &&& new_p.index() == i + spec_boolean_word(b).len()
        }
    } else if let Some((v, e, radix)) = spec_int_literal_at(s, i) {
        int_literal_result(old_p, new_p, res, Some((v, e)), radix)
    } else if keyword_at(s, i, "null"@) {
        res matches Some(r) && {
            &&& r.value == ast::Expression::NullLiteral
            &&& r.range.start == old_p.position()
            &&& r.range.end == new_p.position()
            &&& new_p.index() == i + "null"@.len()
        }
    } else {
        string_literal_result(old_p, new_p, res, spec_string_literal_at(s, i))
    }
}

/// A literal stands at index `i`.
pub open spec fn literal_at(s: Seq<char>, i: int) -> bool {
    ||| spec_boolean_at(s, i) is Some
    ||| spec_int_literal_at(s, i) is Some
    ||| keyword_at(s, i, "null"@)
    ||| spec_string_literal_at(s, i) is Some
}

/// A rule's result is the identifier at the parser's index, as an expression.
pub open spec fn identifier_expression_result(
    old_p: PegParserImpl,
    new_p: PegParserImpl,
    res: Option<Parsed<ast::Expression>>,
) -> bool {
    let s = old_p.source();
    let i = old_p.index() as int;
    if identifier_at(s, i) {
        res matches Some(r) && {
            &&& r.value matches ast::Expression::IdentifierExpression(x) && x.name@ == s.subrange(
                i,
                ident_end(s, i + 1),
            )
            &&& r.range.start == old_p.position()
            &&& r.range.end == new_p.position()
            &&& new_p.index() == ident_end(s, i + 1)
        }
    } else {
        res is None
    }
}

/// The literal keywords `true`, `false` and `null` are reserved words: where one of them
/// stands, no identifier starts.
pub proof fn lemma_literal_keywords_are_not_identifiers(s: Seq<char>, i: int)
    requires
        spec_boolean_at(s, i) is Some || keyword_at(s, i, "null"@),
    ensures
        !identifier_at(s, i),
{
    reveal_strlit("true");
    reveal_strlit("false");
    reveal_strlit("null");
    let words = spec_reserved_words();
    assert(words[0]@ == "true"@);
    assert(words[1]@ == "false"@);
    assert(words[2]@ == "null"@);
    if keyword_at(s, i, "true"@) {
        assert(first_str_at(s, i, words, 0) == Some(0int));
    } else if keyword_at(s, i, "false"@) {
        assert(s.subrange(i, i + 5)[0] == s[i]);
        assert(!str_at(s, i, words[0]@)) by {
            if str_at(s, i, words[0]@) {
                assert(s.subrange(i, i + 4)[0] == s[i]);
            }
        }
        assert(first_str_at(s, i, words, 1) == Some(1int));
    } else {
        assert(s.subrange(i, i + 4)[0] == s[i]);
        assert(!str_at(s, i, words[0]@)) by {
            if str_at(s, i, words[0]@) {
                assert(s.subrange(i, i + 4)[0] == s[i]);
            }
        }
        assert(!str_at(s, i, words[1]@)) by {
            if str_at(s, i, words[1]@) {
                assert(s.subrange(i, i + 5)[0] == s[i]);
            }
        }
        assert(first_str_at(s, i, words, 2) == Some(2int));
        assert(first_str_at(s, i, words, 1) == Some(2int));
    }
}

proof fn lemma_digits_of_chars(ds: Seq<Parsed<DigitOrUnderscore>>, cs: Seq<char>, radix: u32)
    requires
        ds.len() == cs.len(),
        forall|k: int| 0 <= k < ds.len() ==> ds[k].value == digit_of(cs[k]),
    ensures
        spec_digits_value(ds, radix) == spec_chars_value(cs, radix),
    decreases ds.len(),
{
    if ds.len() > 0 {
        lemma_digits_of_chars(ds.drop_last(), cs.drop_last(), radix);
    }
}

proof fn lemma_digits_value_grows(ds: Seq<Parsed<DigitOrUnderscore>>, radix: u32, i: int)
    requires
        0 <= i <= ds.len(),
        1 <= radix,
        spec_digits_value(ds, radix) is Some,
    ensures
        spec_digits_value(ds.take(i), radix) is Some,
        spec_digits_value(ds.take(i), radix)->0 <= spec_digits_value(ds, radix)->0,
    decreases ds.len(),
{
    if i < ds.len() {
        assert(ds.drop_last().take(i) =~= ds.take(i));
        lemma_digits_value_grows(ds.drop_last(), radix, i);
        let acc = spec_digits_value(ds.drop_last(), radix)->0;
        match ds.last().value {
            DigitOrUnderscore::Digit(d) => {
                let dv = spec_to_digit(d, radix)->0;
                assert(acc * radix >= acc) by (nonlinear_arith)
                    requires
                        radix >= 1,
                ;
            },
            DigitOrUnderscore::Underscore => {},
        }
    } else {
        assert(ds.take(i) =~= ds);
    }
}

/// Collect digit characters into a single number parsed with the given radix, ignoring
/// underscores.  `None` when a digit is not one of the radix, or when the number does not
/// fit in 64 bits.
fn collect_digits(digits: &Vec<Parsed<DigitOrUnderscore>>, radix: u32) -> (res: Option<u64>)
    requires
        2 <= radix <= 36,
    ensures
        match spec_digits_value(digits@, radix) {
            Some(v) => if v <= u64::MAX {
                res == Some(v as u64)
            } else {
                res is None
            },
            None => res is None,
        },
{
    let mut acc: u64 = 0;
    let mut i: usize = 0;
    assert(digits@.take(0) =~= Seq::<Parsed<DigitOrUnderscore>>::empty());
    while i < digits.len()
        invariant
            2 <= radix <= 36,
            i <= digits@.len(),
            spec_digits_value(digits@.take(i as int), radix) == Some(acc as nat),
        decreases digits@.len() - i,
    {
        assert(digits@.take(i + 1).drop_last() =~= digits@.take(i as int));
        assert(digits@.take(i + 1).last() == digits@[i as int]);
        match &digits[i].value {
            DigitOrUnderscore::Digit(d) => {
                match to_digit(*d, radix) {
                    Some(dv) => {
                        let m = acc.checked_mul(radix as u64);
                        let next = match m {
                            Some(mv) => mv.checked_add(dv as u64),
                            None => None,
                        };
                        match next {
                            Some(n) => {
                                acc = n;
                            },
                            None => {
                                proof {
                                    if spec_digits_value(digits@, radix) is Some {
                                        lemma_digits_value_grows(digits@, radix, i + 1);
                                    }
                                }
                                return None;
                            },
                        }
                    },
                    None => {
                        proof {
                            if spec_digits_value(digits@, radix) is Some {
                                lemma_digits_value_grows(digits@, radix, i + 1);
                            }
                        }
                        return None;
                    },
                }
            },
            DigitOrUnderscore::Underscore => {},
        }
        i = i + 1;
    }
    assert(digits@.take(digits@.len() as int) =~= digits@);
    Some(acc)
}

// Combines the given first and rest into a single Vec
fn first_and_rest<R>(first: Parsed<R>, rest: Parsed<Vec<Parsed<R>>>) -> (res: Vec<Parsed<R>>)
    ensures
        res@ == seq![first] + rest.value@,
{
    let mut v: Vec<Parsed<R>> = Vec::new();
    v.push(first);
    let mut r = rest.value;
    v.append(&mut r);
    v
}

/// A grammar level of left-associative binary operators, from the loosest to the tightest.
#[derive(Copy, Clone, PartialEq, Eq, Structural)]
pub enum BinaryLevel {
    Assignment,
    LogicalOr,
    LogicalAnd,
    BitwiseOr,
    BitwiseXor,
    BitwiseAnd,
    Equality,
    Relational,
    Bitshift,
    Add,
    Mult,
}

/// The rank of the operands of a level, for termination: each level's operand rule is ranked
/// below the level's own rules.
pub open spec fn operand_rank(level: BinaryLevel) -> nat {
    match level {
        BinaryLevel::Assignment => 53,
        BinaryLevel::LogicalOr => 47,
        BinaryLevel::LogicalAnd => 43,
        BinaryLevel::BitwiseOr => 39,
        BinaryLevel::BitwiseXor => 35,
        BinaryLevel::BitwiseAnd => 31,
        BinaryLevel::Equality => 27,
        BinaryLevel::Relational => 23,
        BinaryLevel::Bitshift => 19,
        BinaryLevel::Add => 15,
        BinaryLevel::Mult => 11,
    }
}

/// The operators of each level, in the order in which they are tried.
pub open spec fn spec_binary_ops(level: BinaryLevel) -> Seq<(&'static str, ast::BinaryOp)> {
    match level {
        BinaryLevel::Assignment => seq![("=", ast::BinaryOp::Assign), ("+=", ast::BinaryOp::PlusAssign), ("-=", ast::BinaryOp::MinusAssign), ("*=", ast::BinaryOp::TimesAssign), ("/=", ast::BinaryOp::DivideAssign), ("%=", ast::BinaryOp::ModAssign), ("<<=", ast::BinaryOp::ShiftLeftAssign), (">>>=", ast::BinaryOp::LogicalShiftRightAssign), (">>=", ast::BinaryOp::ArithmeticShiftRightAssign), ("&=", ast::BinaryOp::BitwiseAndAssign), ("^=", ast::BinaryOp::BitwiseXorAssign), ("|=", ast::BinaryOp::BitwiseOrAssign), ("&&=", ast::BinaryOp::LogicalAndAssign), ("||=", ast::BinaryOp::LogicalOrAssign)],
        BinaryLevel::LogicalOr => seq![("||", ast::BinaryOp::LogicalOr)],
        BinaryLevel::LogicalAnd => seq![("&&", ast::BinaryOp::LogicalAnd)],
        BinaryLevel::BitwiseOr => seq![("|", ast::BinaryOp::BitwiseOr)],
        BinaryLevel::BitwiseXor => seq![("^", ast::BinaryOp::BitwiseXor)],
        BinaryLevel::BitwiseAnd => seq![("&", ast::BinaryOp::BitwiseAnd)],
        BinaryLevel::Equality => seq![("==", ast::BinaryOp::Equals), ("!=", ast::BinaryOp::NotEquals)],
        BinaryLevel::Relational => seq![("<=", ast::BinaryOp::LessThanOrEquals), ("<", ast::BinaryOp::LessThan), (">=", ast::BinaryOp::GreaterThanOrEquals), (">", ast::BinaryOp::GreaterThan)],
        BinaryLevel::Bitshift => seq![("<<", ast::BinaryOp::ShiftLeft), (">>>", ast::BinaryOp::LogicalShiftRight), (">>", ast::BinaryOp::ArithmeticShiftRight)],
        BinaryLevel::Add => seq![("+", ast::BinaryOp::Plus), ("-", ast::BinaryOp::Minus)],
        BinaryLevel::Mult => seq![("*", ast::BinaryOp::Times), ("/", ast::BinaryOp::Divide), ("%", ast::BinaryOp::Mod)],
    }
}

/// The operators of each level, in the order in which they are tried.
fn binary_ops(level: BinaryLevel) -> (res: &'static [(&'static str, ast::BinaryOp)])
    ensures
        res@ == spec_binary_ops(level),
{
    match level {
        BinaryLevel::Assignment => {
            let ops: &'static [(&'static str, ast::BinaryOp)] = &[("=", ast::BinaryOp::Assign), ("+=", ast::BinaryOp::PlusAssign), ("-=", ast::BinaryOp::MinusAssign), ("*=", ast::BinaryOp::TimesAssign), ("/=", ast::BinaryOp::DivideAssign), ("%=", ast::BinaryOp::ModAssign), ("<<=", ast::BinaryOp::ShiftLeftAssign), (">>>=", ast::BinaryOp::LogicalShiftRightAssign), (">>=", ast::BinaryOp::ArithmeticShiftRightAssign), ("&=", ast::BinaryOp::BitwiseAndAssign), ("^=", ast::BinaryOp::BitwiseXorAssign), ("|=", ast::BinaryOp::BitwiseOrAssign), ("&&=", ast::BinaryOp::LogicalAndAssign), ("||=", ast::BinaryOp::LogicalOrAssign)];
            assert(ops@ =~= spec_binary_ops(level));
            ops
        },
        BinaryLevel::LogicalOr => {
            let ops: &'static [(&'static str, ast::BinaryOp)] = &[("||", ast::BinaryOp::LogicalOr)];
            assert(ops@ =~= spec_binary_ops(level));
            ops
        },
        BinaryLevel::LogicalAnd => {
            let ops: &'static [(&'static str, ast::BinaryOp)] = &[("&&", ast::BinaryOp::LogicalAnd)];
            assert(ops@ =~= spec_binary_ops(level));
            ops
        },
        BinaryLevel::BitwiseOr => {
            let ops: &'static [(&'static str, ast::BinaryOp)] = &[("|", ast::BinaryOp::BitwiseOr)];
            assert(ops@ =~= spec_binary_ops(level));
            ops
        },
        BinaryLevel::BitwiseXor => {
            let ops: &'static [(&'static str, ast::BinaryOp)] = &[("^", ast::BinaryOp::BitwiseXor)];
            assert(ops@ =~= spec_binary_ops(level));
            ops
        },
        BinaryLevel::BitwiseAnd => {
            let ops: &'static [(&'static str, ast::BinaryOp)] = &[("&", ast::BinaryOp::BitwiseAnd)];
            assert(ops@ =~= spec_binary_ops(level));
            ops
        },
        BinaryLevel::Equality => {
            let ops: &'static [(&'static str, ast::BinaryOp)] = &[("==", ast::BinaryOp::Equals), ("!=", ast::BinaryOp::NotEquals)];
            assert(ops@ =~= spec_binary_ops(level));
            ops
        },
        BinaryLevel::Relational => {
            let ops: &'static [(&'static str, ast::BinaryOp)] = &[("<=", ast::BinaryOp::LessThanOrEquals), ("<", ast::BinaryOp::LessThan), (">=", ast::BinaryOp::GreaterThanOrEquals), (">", ast::BinaryOp::GreaterThan)];
            assert(ops@ =~= spec_binary_ops(level));
            ops
        },
        BinaryLevel::Bitshift => {
            let ops: &'static [(&'static str, ast::BinaryOp)] = &[("<<", ast::BinaryOp::ShiftLeft), (">>>", ast::BinaryOp::LogicalShiftRight), (">>", ast::BinaryOp::ArithmeticShiftRight)];
            assert(ops@ =~= spec_binary_ops(level));
            ops
        },
        BinaryLevel::Add => {
            let ops: &'static [(&'static str, ast::BinaryOp)] = &[("+", ast::BinaryOp::Plus), ("-", ast::BinaryOp::Minus)];
            assert(ops@ =~= spec_binary_ops(level));
            ops
        },
        BinaryLevel::Mult => {
            let ops: &'static [(&'static str, ast::BinaryOp)] = &[("*", ast::BinaryOp::Times), ("/", ast::BinaryOp::Divide), ("%", ast::BinaryOp::Mod)];
            assert(ops@ =~= spec_binary_ops(level));
            ops
        },
    }
}

/// The unary operators, in the order in which they are tried.
pub open spec fn spec_unary_ops() -> Seq<(&'static str, ast::UnaryOp)> {
    seq![("+", ast::UnaryOp::Plus), ("-", ast::UnaryOp::Minus), ("!", ast::UnaryOp::LogicalNot), ("~", ast::UnaryOp::BitwiseNot)]
}

fn unary_ops() -> (res: &'static [(&'static str, ast::UnaryOp)])
    ensures
        res@ == spec_unary_ops(),
{
    let ops: &'static [(&'static str, ast::UnaryOp)] = &[("+", ast::UnaryOp::Plus), ("-", ast::UnaryOp::Minus), ("!", ast::UnaryOp::LogicalNot), ("~", ast::UnaryOp::BitwiseNot)];
    assert(ops@ =~= spec_unary_ops());
    ops
}

//--------------------------------------------------
// Where the expression rules end

/// `b` lies between `a` and the end of `s`.
pub open spec fn within(s: Seq<char>, a: int, b: int) -> bool {
    a <= b <= s.len()
}

/// The index of the first operator of the table, from the `k`th on, whose text `s` holds at
/// index `j`.
pub open spec fn first_op_at<R>(s: Seq<char>, j: int, ops: Seq<(&'static str, R)>, k: int) -> Option<
    int,
>
    decreases ops.len() - k,
{
    if k < 0 || k >= ops.len() {
        None
    } else if str_at(s, j, ops[k].0@) {
        Some(k)
    } else {
        first_op_at(s, j, ops, k + 1)
    }
}

/// The end of the first operator of the table that `s` holds at index `j`.
pub open spec fn op_end<R>(s: Seq<char>, j: int, ops: Seq<(&'static str, R)>) -> Option<int> {
    match first_op_at(s, j, ops, 0) {
        Some(k) => Some(j + ops[k].0@.len()),
        None => None,
    }
}

/// The text that a binary operator is written as in the source.
pub open spec fn binary_op_text(op: ast::BinaryOp) -> Seq<char> {
    match op {
        ast::BinaryOp::Plus => "+"@,
        ast::BinaryOp::Minus => "-"@,
        ast::BinaryOp::Times => "*"@,
        ast::BinaryOp::Divide => "/"@,
        ast::BinaryOp::Mod => "%"@,
        ast::BinaryOp::ShiftLeft => "<<"@,
        ast::BinaryOp::LogicalShiftRight => ">>>"@,
        ast::BinaryOp::ArithmeticShiftRight => ">>"@,
        ast::BinaryOp::LessThan => "<"@,
        ast::BinaryOp::LessThanOrEquals => "<="@,
        ast::BinaryOp::GreaterThan => ">"@,
        ast::BinaryOp::GreaterThanOrEquals => ">="@,
        ast::BinaryOp::Equals => "=="@,
        ast::BinaryOp::NotEquals => "!="@,
        ast::BinaryOp::BitwiseAnd => "&"@,
        ast::BinaryOp::BitwiseXor => "^"@,
        ast::BinaryOp::BitwiseOr => "|"@,
        ast::BinaryOp::LogicalAnd => "&&"@,
        ast::BinaryOp::LogicalOr => "||"@,
        ast::BinaryOp::Assign => "="@,
        ast::BinaryOp::PlusAssign => "+="@,
        ast::BinaryOp::MinusAssign => "-="@,
        ast::BinaryOp::TimesAssign => "*="@,
        ast::BinaryOp::DivideAssign => "/="@,
        ast::BinaryOp::ModAssign => "%="@,
        ast::BinaryOp::ShiftLeftAssign => "<<="@,
        ast::BinaryOp::LogicalShiftRightAssign => ">>>="@,
        ast::BinaryOp::ArithmeticShiftRightAssign => ">>="@,
        ast::BinaryOp::BitwiseAndAssign => "&="@,
        ast::BinaryOp::BitwiseXorAssign => "^="@,
        ast::BinaryOp::BitwiseOrAssign => "|="@,
        ast::BinaryOp::LogicalAndAssign => "&&="@,
        ast::BinaryOp::LogicalOrAssign => "||="@,
    }
}

/// The text that a unary operator is written as in the source.
pub open spec fn unary_op_text(op: ast::UnaryOp) -> Seq<char> {
    match op {
        ast::UnaryOp::Plus => "+"@,
        ast::UnaryOp::Minus => "-"@,
        ast::UnaryOp::LogicalNot => "!"@,
        ast::UnaryOp::BitwiseNot => "~"@,
    }
}

/// The operator that the search of a table finds stands at index `j`, and lies in the table.
pub proof fn lemma_first_op_at<R>(s: Seq<char>, j: int, ops: Seq<(&'static str, R)>, k: int)
    requires
        first_op_at(s, j, ops, k) is Some,
    ensures
        ({
            let x = first_op_at(s, j, ops, k)->0;
            &&& k <= x < ops.len()
            &&& str_at(s, j, ops[x].0@)
        }),
    decreases ops.len() - k,
{
    if 0 <= k < ops.len() && !str_at(s, j, ops[k].0@) {
        lemma_first_op_at(s, j, ops, k + 1);
    }
}

/// Each entry of a level's operator table pairs an operator with the text it is written as.
pub proof fn lemma_binary_table_texts(level: BinaryLevel, k: int)
    requires
        0 <= k < spec_binary_ops(level).len(),
    ensures
        spec_binary_ops(level)[k].0@ == binary_op_text(spec_binary_ops(level)[k].1),
{
}

/// Each entry of the unary operator table pairs an operator with the text it is written as.
pub proof fn lemma_unary_table_texts(k: int)
    requires
        0 <= k < spec_unary_ops().len(),
    ensures
        spec_unary_ops()[k].0@ == unary_op_text(spec_unary_ops()[k].1),
{
}

/// The place of a level among the binary levels, from the tightest up.
pub open spec fn level_rank(level: BinaryLevel) -> int {
    match level {
        BinaryLevel::Assignment => 13,
        BinaryLevel::LogicalOr => 11,
        BinaryLevel::LogicalAnd => 10,
        BinaryLevel::BitwiseOr => 9,
        BinaryLevel::BitwiseXor => 8,
        BinaryLevel::BitwiseAnd => 7,
        BinaryLevel::Equality => 6,
        BinaryLevel::Relational => 5,
        BinaryLevel::Bitshift => 4,
        BinaryLevel::Add => 3,
        BinaryLevel::Mult => 2,
    }
}

/// The end of the literal at index `i`, if one stands there.
pub open spec fn literal_end(s: Seq<char>, i: int) -> Option<int> {
    if let Some(b) = spec_boolean_at(s, i) {
        Some(i + spec_boolean_word(b).len())
    } else if let Some((v, e, radix)) = spec_int_literal_at(s, i) {
        Some(e)
    } else if keyword_at(s, i, "null"@) {
        Some(i + "null"@.len())
    } else if let Some((v, e)) = spec_string_literal_at(s, i) {
        Some(e)
    } else {
        None
    }
}

/// The end of the primary expression at index `i`: a literal, else an identifier.
pub open spec fn primary_end(s: Seq<char>, i: int) -> Option<int> {
    if literal_at(s, i) {
        literal_end(s, i)
    } else if identifier_at(s, i) {
        Some(ident_end(s, i + 1))
    } else {
        None
    }
}

/// The end of the expression at index `i`.
pub open spec fn expr_end(s: Seq<char>, i: int) -> Option<int>
    decreases s.len() - i, 200int,
{
    if 0 <= i <= s.len() {
        comma_end(s, i)
    } else {
        None
    }
}

/// A comma expression: an assignment expression, then any number of `, ternary`.
pub open spec fn comma_end(s: Seq<char>, i: int) -> Option<int>
    decreases s.len() - i, 199int,
{
    if 0 <= i <= s.len() {
        match binary_end(s, BinaryLevel::Assignment, i) {
            Some(k) => if within(s, i, k) {
                Some(comma_rest_end(s, k))
            } else {
                None
            },
            None => None,
        }
    } else {
        None
    }
}

/// Where the `, ternary` parts that follow index `k` end.
pub open spec fn comma_rest_end(s: Seq<char>, k: int) -> int
    decreases s.len() - k, 198int,
{
    if 0 <= k <= s.len() {
        match comma_next_end(s, k) {
            Some(e) => if k < e <= s.len() {
                comma_rest_end(s, e)
            } else {
                k
            },
            None => k,
        }
    } else {
        k
    }
}

/// Space, a comma, space and a ternary expression at index `k`.
pub open spec fn comma_next_end(s: Seq<char>, k: int) -> Option<int>
    decreases s.len() - k, 197int,
{
    let j = spec_space_end(s, k);
    if 0 <= k && within(s, k, j) && str_at(s, j, ","@) {
        let j2 = spec_space_end(s, j + ","@.len());
        if within(s, j, j2) {
            ternary_end(s, j2)
        } else {
            None
        }
    } else {
        None
    }
}

/// A binary expression of a level: an operand, space, then any number of `op operand` terms.
pub open spec fn binary_end(s: Seq<char>, level: BinaryLevel, i: int) -> Option<int>
    decreases s.len() - i, 10 * level_rank(level) + 5,
{
    if 0 <= i <= s.len() {
        match operand_end(s, level, i) {
            Some(k) => if within(s, i, k) {
                let j = spec_space_end(s, k);
                if within(s, k, j) {
                    Some(binary_rest_end(s, level, j))
                } else {
                    None
                }
            } else {
                None
            },
            None => None,
        }
    } else {
        None
    }
}

/// Where the terms of a binary expression that follow index `k` end.
pub open spec fn binary_rest_end(s: Seq<char>, level: BinaryLevel, k: int) -> int
    decreases s.len() - k, 10 * level_rank(level) + 4,
{
    if 0 <= k <= s.len() {
        match binary_term_end(s, level, k) {
            Some(e) => if k < e <= s.len() {
                binary_rest_end(s, level, e)
            } else {
                k
            },
            None => k,
        }
    } else {
        k
    }
}

/// One term of a binary expression at index `k`: space, an operator of the level, space and an
/// operand.
pub open spec fn binary_term_end(s: Seq<char>, level: BinaryLevel, k: int) -> Option<int>
    decreases s.len() - k, 10 * level_rank(level) + 3,
{
    let j = spec_space_end(s, k);
    if 0 <= k && within(s, k, j) {
        match op_end(s, j, spec_binary_ops(level)) {
            Some(j2) => if within(s, j, j2) {
                let j3 = spec_space_end(s, j2);
                if within(s, j2, j3) {
                    operand_end(s, level, j3)
                } else {
                    None
                }
            } else {
                None
            },
            None => None,
        }
    } else {
        None
    }
}

/// The operand of a level: the next tighter level.
pub open spec fn operand_end(s: Seq<char>, level: BinaryLevel, i: int) -> Option<int>
    decreases s.len() - i, 10 * level_rank(level) + 2,
{
    if 0 <= i <= s.len() {
        match level {
            BinaryLevel::Assignment => ternary_end(s, i),
            BinaryLevel::LogicalOr => binary_end(s, BinaryLevel::LogicalAnd, i),
            BinaryLevel::LogicalAnd => binary_end(s, BinaryLevel::BitwiseOr, i),
            BinaryLevel::BitwiseOr => binary_end(s, BinaryLevel::BitwiseXor, i),
            BinaryLevel::BitwiseXor => binary_end(s, BinaryLevel::BitwiseAnd, i),
            BinaryLevel::BitwiseAnd => binary_end(s, BinaryLevel::Equality, i),
            BinaryLevel::Equality => binary_end(s, BinaryLevel::Relational, i),
            BinaryLevel::Relational => binary_end(s, BinaryLevel::Bitshift, i),
            BinaryLevel::Bitshift => binary_end(s, BinaryLevel::Add, i),
            BinaryLevel::Add => binary_end(s, BinaryLevel::Mult, i),
            BinaryLevel::Mult => unary_end(s, i),
        }
    } else {
        None
    }
}

/// A ternary expression: any number of `test ? if_true :` terms, space, then the
/// alternative.
pub open spec fn ternary_end(s: Seq<char>, i: int) -> Option<int>
    decreases s.len() - i, 120int,
{
    if 0 <= i <= s.len() {
        let k = ternary_terms_end(s, i);
        if within(s, i, k) {
            let j = spec_space_end(s, k);
            if within(s, k, j) {
                binary_end(s, BinaryLevel::LogicalOr, j)
            } else {
                None
            }
        } else {
            None
        }
    } else {
        None
    }
}

/// Where the terms of a ternary expression that start at index `k` end.
pub open spec fn ternary_terms_end(s: Seq<char>, k: int) -> int
    decreases s.len() - k, 119int,
{
    if 0 <= k <= s.len() {
        match ternary_term_end(s, k) {
            Some(e) => if k < e <= s.len() {
                ternary_terms_end(s, e)
            } else {
                k
            },
            None => k,
        }
    } else {
        k
    }
}

/// One `test ? if_true :` term at index `k`, with the space around its parts.
pub open spec fn ternary_term_end(s: Seq<char>, k: int) -> Option<int>
    decreases s.len() - k, 118int,
{
    if 0 <= k <= s.len() {
        match binary_end(s, BinaryLevel::LogicalOr, k) {
            Some(a) => {
                let b = spec_space_end(s, a);
                if within(s, k, a) && within(s, a, b) && str_at(s, b, "?"@) {
                    let c = spec_space_end(s, b + "?"@.len());
                    if within(s, b, c) {
                        match binary_end(s, BinaryLevel::LogicalOr, c) {
                            Some(d) => {
                                let e = spec_space_end(s, d);
                                if within(s, c, d) && within(s, d, e) && str_at(s, e, ":"@) {
                                    Some(spec_space_end(s, e + ":"@.len()))
                                } else {
                                    None
                                }
                            },
                            None => None,
                        }
                    } else {
                        None
                    }
                } else {
                    None
                }
            },
            None => None,
        }
    } else {
        None
    }
}

/// A unary expression: any number of operators, each after space, space, then a member
/// expression.
pub open spec fn unary_end(s: Seq<char>, i: int) -> Option<int>
    decreases s.len() - i, 15int,
{
    if 0 <= i <= s.len() {
        let k = unary_ops_end(s, i);
        if within(s, i, k) {
            let j = spec_space_end(s, k);
            if within(s, k, j) {
                member_end(s, j)
            } else {
                None
            }
        } else {
            None
        }
    } else {
        None
    }
}

/// Where the unary operators that start at index `k` end; when no operator follows the space
/// at the end, the space is consumed.
pub open spec fn unary_ops_end(s: Seq<char>, k: int) -> int
    decreases s.len() - k, 14int,
{
    let j = spec_space_end(s, k);
    if 0 <= k && within(s, k, j) {
        match op_end(s, j, spec_unary_ops()) {
            Some(e) => if k < e <= s.len() {
                unary_ops_end(s, e)
            } else {
                e
            },
            None => j,
        }
    } else {
        k
    }
}

/// A member expression: a grouping expression, then any number of member operations.
pub open spec fn member_end(s: Seq<char>, i: int) -> Option<int>
    decreases s.len() - i, 12int,
{
    if 0 <= i <= s.len() {
        match grouping_end(s, i) {
            Some(k) => if within(s, i, k) {
                Some(member_ops_end(s, k))
            } else {
                None
            },
            None => None,
        }
    } else {
        None
    }
}

/// Where the member operations that start at index `k` end.
pub open spec fn member_ops_end(s: Seq<char>, k: int) -> int
    decreases s.len() - k, 9int,
{
    if 0 <= k <= s.len() {
        match member_op_end(s, k) {
            Some(e) => if k < e <= s.len() {
                member_ops_end(s, e)
            } else {
                k
            },
            None => k,
        }
    } else {
        k
    }
}

/// One member operation at index `k`: `.name`, `(args)`, `[index]` or `!`, tried in that
/// order.
pub open spec fn member_op_end(s: Seq<char>, k: int) -> Option<int>
    decreases s.len() - k, 8int,
{
    if let Some(e) = dot_access_end(s, k) {
        Some(e)
    } else if let Some(e) = function_call_end(s, k) {
        Some(e)
    } else if let Some(e) = index_access_end(s, k) {
        Some(e)
    } else {
        non_null_assert_end(s, k)
    }
}

/// Space, `.`, space and an identifier at index `k`.
pub open spec fn dot_access_end(s: Seq<char>, k: int) -> Option<int> {
    let j = spec_space_end(s, k);
    if str_at(s, j, "."@) {
        let j2 = spec_space_end(s, j + "."@.len());
        if identifier_at(s, j2) {
            Some(ident_end(s, j2 + 1))
        } else {
            None
        }
    } else {
        None
    }
}

/// Space, `(`, space, a list of expressions and `)` at index `k`.
pub open spec fn function_call_end(s: Seq<char>, k: int) -> Option<int>
    decreases s.len() - k, 7int,
{
    let j = spec_space_end(s, k);
    if 0 <= k && within(s, k, j) && str_at(s, j, "("@) {
        proof {
            reveal_strlit("(");
        }
        let j2 = spec_space_end(s, j + "("@.len());
        if within(s, j + "("@.len(), j2) {
            let l = expression_list_end(s, j2);
            if str_at(s, l, ")"@) {
                Some(l + ")"@.len())
            } else {
                None
            }
        } else {
            None
        }
    } else {
        None
    }
}

/// Where a list of expressions at index `k` ends: space, then either nothing or ternary
/// expressions separated by commas, with space and an optional trailing comma.
pub open spec fn expression_list_end(s: Seq<char>, k: int) -> int
    decreases s.len() - k, 150int,
{
    let j = spec_space_end(s, k);
    if 0 <= k && within(s, k, j) {
        match ternary_end(s, j) {
            Some(t) => if within(s, j, t) {
                let r = list_rest_end(s, t);
                let q = spec_space_end(s, r);
                if str_at(s, q, ","@) {
                    q + ","@.len()
                } else {
                    q
                }
            } else {
                t
            },
            None => j,
        }
    } else {
        k
    }
}

/// Where the `, ternary` elements of a list that follow index `k` end.  An element that does
/// not parse leaves the index after the space and the comma that it has read.
pub open spec fn list_rest_end(s: Seq<char>, k: int) -> int
    decreases s.len() - k, 149int,
{
    let j = spec_space_end(s, k);
    if 0 <= k && within(s, k, j) {
        if str_at(s, j, ","@) {
            let j2 = spec_space_end(s, j + ","@.len());
            if within(s, j + ","@.len(), j2) {
                match ternary_end(s, j2) {
                    Some(e) => if k < e <= s.len() {
                        list_rest_end(s, e)
                    } else {
                        e
                    },
                    None => j2,
                }
            } else {
                j2
            }
        } else {
            j
        }
    } else {
        k
    }
}

/// Space, `[`, space, an expression, space, `]` and space at index `k`.
pub open spec fn index_access_end(s: Seq<char>, k: int) -> Option<int>
    decreases s.len() - k, 5int,
{
    let j = spec_space_end(s, k);
    if 0 <= k && within(s, k, j) && str_at(s, j, "["@) {
        proof {
            reveal_strlit("[");
        }
        let j2 = spec_space_end(s, j + "["@.len());
        if within(s, j + "["@.len(), j2) {
            match expr_end(s, j2) {
                Some(e) => {
                    let j3 = spec_space_end(s, e);
                    if str_at(s, j3, "]"@) {
                        Some(spec_space_end(s, j3 + "]"@.len()))
                    } else {
                        None
                    }
                },
                None => None,
            }
        } else {
            None
        }
    } else {
        None
    }
}

/// Space and a `!` that no `=` follows, at index `k`.
pub open spec fn non_null_assert_end(s: Seq<char>, k: int) -> Option<int> {
    let j = spec_space_end(s, k);
    if str_at(s, j, "!"@) && !str_at(s, j + "!"@.len(), "="@) {
        Some(j + "!"@.len())
    } else {
        None
    }
}

/// A grouping expression: a parenthesized expression, else a primary expression.
pub open spec fn grouping_end(s: Seq<char>, i: int) -> Option<int>
    decreases s.len() - i, 11int,
{
    if let Some(e) = grouped_end(s, i) {
        Some(e)
    } else {
        primary_end(s, i)
    }
}

/// `(`, space, an expression, space and `)` at index `i`.
pub open spec fn grouped_end(s: Seq<char>, i: int) -> Option<int>
    decreases s.len() - i, 10int,
{
    if 0 <= i && str_at(s, i, "("@) {
        proof {
            reveal_strlit("(");
        }
        let j = spec_space_end(s, i + "("@.len());
        if within(s, i + "("@.len(), j) {
            match expr_end(s, j) {
                Some(e) => {
                    let k = spec_space_end(s, e);
                    if str_at(s, k, ")"@) {
                        Some(k + ")"@.len())
                    } else {
                        None
                    }
                },
                None => None,
            }
        } else {
            None
        }
    } else {
        None
    }
}

//--------------------------------------------------
// Where the statement rules end

/// Where an optional part that may start at index `d` ends: at `e` when it is `Some(e)`, at
/// `d` itself when it is absent.
pub open spec fn or_here(x: Option<int>, d: int) -> int {
    match x {
        Some(e) => e,
        None => d,
    }
}

/// The end of the statement at index `i`: the first statement form that stands there, tried
/// in the order of the statement rule.
pub open spec fn stmt_end(s: Seq<char>, i: int) -> Option<int>
    decreases s.len() - i, 39int,
{
    if char_at(s, i) == Some(';') {
        Some(i + 1)
    } else if let Some(e) = expr_stmt_end(s, i) {
        Some(e)
    } else if let Some(e) = if_end(s, i) {
        Some(e)
    } else if let Some(e) = while_end(s, i) {
        Some(e)
    } else if let Some(e) = return_end(s, i) {
        Some(e)
    } else if let Some((label, e)) = spec_jump_at(s, i, "break"@) {
        Some(e)
    } else if let Some((label, e)) = spec_jump_at(s, i, "continue"@) {
        Some(e)
    } else if let Some(e) = block_end(s, i) {
        Some(e)
    } else if let Some(e) = for_end(s, i) {
        Some(e)
    } else if let Some(e) = switch_end(s, i) {
        Some(e)
    } else if let Some(e) = var_decl_stmt_end(s, i) {
        Some(e)
    } else {
        function_decl_end(s, i)
    }
}

/// Where the statements that follow index `k`, each after optional space, end.  A statement
/// that does not parse leaves the index after the space before it.
pub open spec fn stmts_end(s: Seq<char>, k: int) -> int
    decreases s.len() - k, 40int,
{
    let j = spec_space_end(s, k);
    if within(s, k, j) {
        match stmt_end(s, j) {
            Some(e) => if k < e <= s.len() {
                stmts_end(s, e)
            } else {
                e
            },
            None => j,
        }
    } else {
        k
    }
}

/// How many statements `stmts_end` reads from index `k` on.
pub open spec fn stmts_count(s: Seq<char>, k: int) -> nat
    decreases s.len() - k,
{
    let j = spec_space_end(s, k);
    if within(s, k, j) {
        match stmt_end(s, j) {
            Some(e) => if k < e <= s.len() {
                1 + stmts_count(s, e)
            } else {
                0
            },
            None => 0,
        }
    } else {
        0
    }
}

/// A whole file at index `i`: statements, then space up to the end of the text.
pub open spec fn file_end(s: Seq<char>, i: int) -> Option<int> {
    let e = spec_space_end(s, stmts_end(s, i));
    if e == s.len() {
        Some(e)
    } else {
        None
    }
}

/// An expression statement: an expression, space and the end of a statement.
pub open spec fn expr_stmt_end(s: Seq<char>, i: int) -> Option<int> {
    match expr_end(s, i) {
        Some(e) => spec_statement_end_at(s, spec_space_end(s, e)),
        None => None,
    }
}

/// The head of an if or while statement with the keyword `w` at index `i`: the keyword, space,
/// `(`, space, an expression, space, `)` and space.  The index where its body starts.
pub open spec fn cond_end(s: Seq<char>, i: int, w: Seq<char>) -> Option<int> {
    if str_at(s, i, w) {
        let a = spec_space_end(s, i + w.len());
        if str_at(s, a, "("@) {
            match expr_end(s, spec_space_end(s, a + "("@.len())) {
                Some(e) => {
                    let b = spec_space_end(s, e);
                    if str_at(s, b, ")"@) {
                        Some(spec_space_end(s, b + ")"@.len()))
                    } else {
                        None
                    }
                },
                None => None,
            }
        } else {
            None
        }
    } else {
        None
    }
}

/// An if statement: its head, a statement and an optional else branch.
pub open spec fn if_end(s: Seq<char>, i: int) -> Option<int>
    decreases s.len() - i, 38int,
{
    match cond_end(s, i, "if"@) {
        Some(k) => if within(s, i + 1, k) {
            match stmt_end(s, k) {
                Some(t) => if within(s, i, t) {
                    Some(else_end(s, t))
                } else {
                    None
                },
                None => None,
            }
        } else {
            None
        },
        None => None,
    }
}

/// The if statement at index `i` has an else branch.
pub open spec fn if_has_else(s: Seq<char>, i: int) -> bool {
    match cond_end(s, i, "if"@) {
        Some(k) => match stmt_end(s, k) {
            Some(t) => else_end(s, t) != t,
            None => false,
        },
        None => false,
    }
}

/// Where the optional else branch at index `t` ends: space, `else`, space and a statement, or
/// nothing at all.
pub open spec fn else_end(s: Seq<char>, t: int) -> int
    decreases s.len() - t, 37int,
{
    let j = spec_space_end(s, t);
    if str_at(s, j, "else"@) {
        let k = spec_space_end(s, j + "else"@.len());
        if within(s, t + 1, k) {
            match stmt_end(s, k) {
                Some(e) => e,
                None => t,
            }
        } else {
            t
        }
    } else {
        t
    }
}

/// A while statement: its head and a statement.
pub open spec fn while_end(s: Seq<char>, i: int) -> Option<int>
    decreases s.len() - i, 38int,
{
    match cond_end(s, i, "while"@) {
        Some(k) => if within(s, i + 1, k) {
            stmt_end(s, k)
        } else {
            None
        },
        None => None,
    }
}

/// A return statement: `return`, an optional value after space, and the end of a statement.
pub open spec fn return_end(s: Seq<char>, i: int) -> Option<int> {
    if str_at(s, i, "return"@) {
        let j = i + "return"@.len();
        spec_statement_end_at(s, or_here(expr_end(s, spec_space_end(s, j)), j))
    } else {
        None
    }
}

/// A block: `{`, statements, space and `}`.
pub open spec fn block_end(s: Seq<char>, i: int) -> Option<int>
    decreases s.len() - i, 38int,
{
    if str_at(s, i, "{"@) {
        proof {
            reveal_strlit("{");
        }
        let j = spec_space_end(s, stmts_end(s, i + "{"@.len()));
        if str_at(s, j, "}"@) {
            Some(j + "}"@.len())
        } else {
            None
        }
    } else {
        None
    }
}

/// The keyword of a declaration at index `i`, tried in this order: `let` and `var` declare a
/// variable, `const` a constant.  What it declares and the index after it.
pub open spec fn decl_keyword_at(s: Seq<char>, i: int) -> Option<(ast::LetOrConst, int)> {
    if str_at(s, i, "let"@) {
        Some((ast::LetOrConst::Let, i + "let"@.len()))
    } else if str_at(s, i, "const"@) {
        Some((ast::LetOrConst::Const, i + "const"@.len()))
    } else if str_at(s, i, "var"@) {
        Some((ast::LetOrConst::Let, i + "var"@.len()))
    } else {
        None
    }
}

/// The end of the keyword of a declaration at index `i`.
pub open spec fn decl_keyword_end(s: Seq<char>, i: int) -> Option<int> {
    match decl_keyword_at(s, i) {
        Some((kw, e)) => Some(e),
        None => None,
    }
}

/// Where the optional initializer at index `n` ends: space, `=`, space and an expression, or
/// nothing at all.
pub open spec fn var_init_end(s: Seq<char>, n: int) -> int {
    let j = spec_space_end(s, n);
    if str_at(s, j, "="@) {
        match expr_end(s, spec_space_end(s, j + "="@.len())) {
            Some(e) => e,
            None => n,
        }
    } else {
        n
    }
}

/// A declaration: its keyword, space, the name and an optional initializer.
pub open spec fn var_decl_end(s: Seq<char>, i: int) -> Option<int> {
    match decl_keyword_end(s, i) {
        Some(k) => {
            let j = spec_space_end(s, k);
            if identifier_at(s, j) {
                Some(var_init_end(s, ident_end(s, j + 1)))
            } else {
                None
            }
        },
        None => None,
    }
}

/// The value `v` is that of the declaration at index `i`: its keyword, its name, and an
/// initializer exactly when one follows the name.
pub open spec fn var_decl_value(s: Seq<char>, i: int, v: ast::Statement) -> bool {
    match decl_keyword_at(s, i) {
        Some((kw, k)) => {
            let j = spec_space_end(s, k);
            let n = ident_end(s, j + 1);
            &&& v matches ast::Statement::VarDeclStatement(d)
            &&& d.let_or_const.value == kw
            &&& d.name.value@ == s.subrange(j, n)
            &&& (d.init is Some <==> var_init_end(s, n) != n)
            &&& d.init matches Some(x) ==> expr_tree(s, after_open(s, n, "="@), x.value)
        },
        None => false,
    }
}

/// A declaration statement: a declaration, space and the end of a statement.
pub open spec fn var_decl_stmt_end(s: Seq<char>, i: int) -> Option<int> {
    match var_decl_end(s, i) {
        Some(e) => spec_statement_end_at(s, spec_space_end(s, e)),
        None => None,
    }
}

/// The initializer of a for statement: a declaration, else an expression.
pub open spec fn for_init_end(s: Seq<char>, i: int) -> Option<int> {
    if let Some(e) = var_decl_end(s, i) {
        Some(e)
    } else {
        expr_end(s, i)
    }
}

/// The head of a for statement at index `i`: `for`, space, `(`, an optional initializer, `;`,
/// an optional test, `;`, an optional advance and `)`, each part after space, then space.
/// Whether it has an initializer, a test and an advance, and the index where its body starts.
pub open spec fn for_head(s: Seq<char>, i: int) -> Option<(bool, bool, bool, int)> {
    if str_at(s, i, "for"@) {
        let a = spec_space_end(s, i + "for"@.len());
        if str_at(s, a, "("@) {
            let b = spec_space_end(s, a + "("@.len());
            let c = spec_space_end(s, or_here(for_init_end(s, b), b));
            if str_at(s, c, ";"@) {
                let d = spec_space_end(s, c + ";"@.len());
                let e = spec_space_end(s, or_here(expr_end(s, d), d));
                if str_at(s, e, ";"@) {
                    let f = spec_space_end(s, e + ";"@.len());
                    let g = spec_space_end(s, or_here(expr_end(s, f), f));
                    if str_at(s, g, ")"@) {
                        Some(
                            (
                                for_init_end(s, b) is Some,
                                expr_end(s, d) is Some,
                                expr_end(s, f) is Some,
                                spec_space_end(s, g + ")"@.len()),
                            ),
                        )
                    } else {
                        None
                    }
                } else {
                    None
                }
            } else {
                None
            }
        } else {
            None
        }
    } else {
        None
    }
}

/// A for statement: its head, then a statement.
pub open spec fn for_end(s: Seq<char>, i: int) -> Option<int>
    decreases s.len() - i, 38int,
{
    match for_head(s, i) {
        Some((init, test, advance, h)) => if within(s, i + 1, h) {
            stmt_end(s, h)
        } else {
            None
        },
        None => None,
    }
}

/// `default`, space and `:` at index `j`.
pub open spec fn default_end(s: Seq<char>, j: int) -> Option<int> {
    if str_at(s, j, "default"@) {
        let a = spec_space_end(s, j + "default"@.len());
        if str_at(s, a, ":"@) {
            Some(a + ":"@.len())
        } else {
            None
        }
    } else {
        None
    }
}

/// `case`, space, an expression, space and `:` at index `j`.
pub open spec fn case_end(s: Seq<char>, j: int) -> Option<int> {
    if str_at(s, j, "case"@) {
        match expr_end(s, spec_space_end(s, j + "case"@.len())) {
            Some(e) => {
                let b = spec_space_end(s, e);
                if str_at(s, b, ":"@) {
                    Some(b + ":"@.len())
                } else {
                    None
                }
            },
            None => None,
        }
    } else {
        None
    }
}

/// One item of a switch body at index `k`: space, then a `default` label, a `case` label or a
/// statement after space.
pub open spec fn switch_item_end(s: Seq<char>, k: int) -> Option<int>
    decreases s.len() - k, 41int,
{
    let j = spec_space_end(s, k);
    if let Some(e) = default_end(s, j) {
        Some(e)
    } else if let Some(e) = case_end(s, j) {
        Some(e)
    } else {
        let j2 = spec_space_end(s, j);
        if within(s, k, j2) {
            stmt_end(s, j2)
        } else {
            None
        }
    }
}

/// Where the items of a switch body that follow index `k` end.  An item that does not parse
/// leaves the index after the space before it.
pub open spec fn switch_items_end(s: Seq<char>, k: int) -> int
    decreases s.len() - k, 42int,
{
    match switch_item_end(s, k) {
        Some(e) => if k < e <= s.len() {
            switch_items_end(s, e)
        } else {
            e
        },
        None => spec_space_end(s, k),
    }
}

/// A switch statement: `switch`, space, `(`, space, an expression, space, `)`, space, `{`, the
/// items, space and `}`.
pub open spec fn switch_end(s: Seq<char>, i: int) -> Option<int>
    decreases s.len() - i, 38int,
{
    if str_at(s, i, "switch"@) {
        let a = spec_space_end(s, i + "switch"@.len());
        if str_at(s, a, "("@) {
            match expr_end(s, spec_space_end(s, a + "("@.len())) {
                Some(e) => {
                    let b = spec_space_end(s, e);
                    if str_at(s, b, ")"@) {
                        let c = spec_space_end(s, b + ")"@.len());
                        if str_at(s, c, "{"@) && within(s, i + 1, c + "{"@.len()) {
                            let k = spec_space_end(s, switch_items_end(s, c + "{"@.len()));
                            if str_at(s, k, "}"@) {
                                Some(k + "}"@.len())
                            } else {
                                None
                            }
                        } else {
                            None
                        }
                    } else {
                        None
                    }
                },
                None => None,
            }
        } else {
            None
        }
    } else {
        None
    }
}

/// A parameter of a function declaration at index `k`: space and a name.
pub open spec fn arg_end(s: Seq<char>, k: int) -> Option<int> {
    let j = spec_space_end(s, k);
    if identifier_at(s, j) {
        Some(ident_end(s, j + 1))
    } else {
        None
    }
}

/// Where the `, name` parameters that follow index `k` end.  One that does not parse leaves
/// the index after the space and the comma that it has read.
pub open spec fn args_rest_end(s: Seq<char>, k: int) -> int
    decreases s.len() - k,
{
    let j = spec_space_end(s, k);
    if str_at(s, j, ","@) {
        let j2 = spec_space_end(s, j + ","@.len());
        match arg_end(s, j2) {
            Some(e) => if k < e <= s.len() {
                args_rest_end(s, e)
            } else {
                e
            },
            None => j2,
        }
    } else {
        j
    }
}

/// The name of the parameter at index `k`: the identifier after the space.
pub open spec fn arg_name(s: Seq<char>, k: int) -> Seq<char> {
    let j = spec_space_end(s, k);
    s.subrange(j, ident_end(s, j + 1))
}

/// The names of the `, name` parameters that follow index `k`, in order.
pub open spec fn args_rest_names(s: Seq<char>, k: int) -> Seq<Seq<char>>
    decreases s.len() - k,
{
    let j = spec_space_end(s, k);
    if str_at(s, j, ","@) {
        let j2 = spec_space_end(s, j + ","@.len());
        match arg_end(s, j2) {
            Some(e) => if k < e <= s.len() {
                seq![arg_name(s, j2)] + args_rest_names(s, e)
            } else {
                seq![]
            },
            None => seq![],
        }
    } else {
        seq![]
    }
}

/// The names of the parameters of a function declaration at index `k`, in order.
pub open spec fn args_names(s: Seq<char>, k: int) -> Seq<Seq<char>> {
    match arg_end(s, k) {
        Some(e) => seq![arg_name(s, k)] + args_rest_names(s, e),
        None => seq![],
    }
}

/// Where the parameters of a function declaration at index `k` end: none, or a first one and
/// the rest.
pub open spec fn args_end(s: Seq<char>, k: int) -> int {
    match arg_end(s, k) {
        Some(e) => args_rest_end(s, e),
        None => k,
    }
}

/// Where an optional trailing comma at index `c`, with the space after it, ends.
pub open spec fn trailing_comma_end(s: Seq<char>, c: int) -> int {
    if str_at(s, c, ","@) {
        spec_space_end(s, c + ","@.len())
    } else {
        c
    }
}

/// The value `v` is that of the function declaration at index `i`: its name and the names of
/// its parameters, in order.
pub open spec fn function_decl_value(s: Seq<char>, i: int, v: ast::Statement) -> bool {
    let a = spec_space_end(s, i + "function"@.len());
    let b = spec_space_end(s, ident_end(s, a + 1));
    &&& v matches ast::Statement::FunctionDeclStatement(f)
    &&& f.name.value@ == s.subrange(a, ident_end(s, a + 1))
    &&& f.args.value@.map_values(|x: Parsed<ast::FunctionDeclArg>| x.value.name.value@) == args_names(
        s,
        b + "("@.len(),
    )
}

/// A function declaration: `function`, space, the name, space, `(`, the parameters, space, an
/// optional trailing comma, `)`, space and a block.
pub open spec fn function_decl_end(s: Seq<char>, i: int) -> Option<int>
    decreases s.len() - i, 38int,
{
    if str_at(s, i, "function"@) {
        let a = spec_space_end(s, i + "function"@.len());
        if identifier_at(s, a) {
            let b = spec_space_end(s, ident_end(s, a + 1));
            if str_at(s, b, "("@) {
                let c = spec_space_end(s, args_end(s, b + "("@.len()));
                let d = trailing_comma_end(s, c);
                if str_at(s, d, ")"@) {
                    let h = spec_space_end(s, d + ")"@.len());
                    if within(s, i + 1, h) {
                        block_end(s, h)
                    } else {
                        None
                    }
                } else {
                    None
                }
            } else {
                None
            }
        } else {
            None
        }
    } else {
        None
    }
}

/// The operators of the terms of a binary expression of `level` that follow index `k`, in
/// order.
pub open spec fn binary_rest_ops(s: Seq<char>, level: BinaryLevel, k: int) -> Seq<ast::BinaryOp>
    decreases s.len() - k,
{
    if 0 <= k <= s.len() {
        match binary_term_end(s, level, k) {
            Some(e) => if k < e <= s.len() {
                match first_op_at(s, spec_space_end(s, k), spec_binary_ops(level), 0) {
                    Some(x) => seq![spec_binary_ops(level)[x].1] + binary_rest_ops(s, level, e),
                    None => seq![],
                }
            } else {
                seq![]
            },
            None => seq![],
        }
    } else {
        seq![]
    }
}

/// The operators of the binary expression of `level` at index `i`, in order.
pub open spec fn binary_ops_seq(s: Seq<char>, level: BinaryLevel, i: int) -> Seq<ast::BinaryOp> {
    match operand_end(s, level, i) {
        Some(k) => binary_rest_ops(s, level, spec_space_end(s, k)),
        None => seq![],
    }
}

/// The value `v` of the binary expression of `level` at index `i`: when operators follow the
/// first operand, a binary expression whose terms carry them in order.
pub open spec fn binary_value(s: Seq<char>, level: BinaryLevel, i: int, v: ast::Expression) -> bool {
    binary_ops_seq(s, level, i).len() > 0 ==> {
        &&& v matches ast::Expression::BinaryExpression(b)
        &&& b.rest@.map_values(|t: Parsed<ast::BinaryExpressionTerm>| t.value.op.value)
            == binary_ops_seq(s, level, i)
    }
}

/// The unary operators that start at index `k`, each after space, in order.
pub open spec fn unary_ops_seq(s: Seq<char>, k: int) -> Seq<ast::UnaryOp>
    decreases s.len() - k,
{
    let j = spec_space_end(s, k);
    if 0 <= k && within(s, k, j) {
        match first_op_at(s, j, spec_unary_ops(), 0) {
            Some(x) => {
                let e = j + spec_unary_ops()[x].0@.len();
                if k < e <= s.len() {
                    seq![spec_unary_ops()[x].1] + unary_ops_seq(s, e)
                } else {
                    seq![]
                }
            },
            None => seq![],
        }
    } else {
        seq![]
    }
}

/// How many member operations `member_ops_end` reads from index `k` on.
pub open spec fn member_ops_count(s: Seq<char>, k: int) -> nat
    decreases s.len() - k,
{
    if 0 <= k <= s.len() {
        match member_op_end(s, k) {
            Some(e) => if k < e <= s.len() {
                1 + member_ops_count(s, e)
            } else {
                0
            },
            None => 0,
        }
    } else {
        0
    }
}

/// Where the `n`th of the member operations that follow index `k` starts.
pub open spec fn member_op_start(s: Seq<char>, k: int, n: nat) -> int
    decreases n,
{
    if n == 0 {
        k
    } else {
        let j = member_op_start(s, k, (n - 1) as nat);
        match member_op_end(s, j) {
            Some(e) => e,
            None => j,
        }
    }
}

/// The value `v` is that of the member operation at index `k`: a `.name` with its name, else
/// the kind of operation that stands there.
pub open spec fn member_op_value(s: Seq<char>, k: int, v: ast::MemberOp) -> bool {
    if let Some(e) = dot_access_end(s, k) {
        let j = spec_space_end(s, spec_space_end(s, k) + "."@.len());
        v matches ast::MemberOp::DotAccess(d) && d.name.value@ == s.subrange(j, e)
    } else if function_call_end(s, k) is Some {
        v is FunctionCall
    } else if index_access_end(s, k) is Some {
        v is IndexAccess
    } else {
        v is NonNullAssert
    }
}

/// How many `, ternary` parts `comma_rest_end` reads from index `k` on.
pub open spec fn comma_count(s: Seq<char>, k: int) -> nat
    decreases s.len() - k,
{
    if 0 <= k <= s.len() {
        match comma_next_end(s, k) {
            Some(e) => if k < e <= s.len() {
                1 + comma_count(s, e)
            } else {
                0
            },
            None => 0,
        }
    } else {
        0
    }
}

/// How many `test ? if_true :` terms `ternary_terms_end` reads from index `k` on.
pub open spec fn ternary_count(s: Seq<char>, k: int) -> nat
    decreases s.len() - k,
{
    if 0 <= k <= s.len() {
        match ternary_term_end(s, k) {
            Some(e) => if k < e <= s.len() {
                1 + ternary_count(s, e)
            } else {
                0
            },
            None => 0,
        }
    } else {
        0
    }
}

/// How many expressions the list at index `j` holds: none, or a first one and the `, ternary`
/// parts that follow it.
pub open spec fn list_len(s: Seq<char>, j: int) -> nat {
    match ternary_end(s, spec_space_end(s, j)) {
        Some(t) => 1 + comma_count(s, t),
        None => 0,
    }
}

/// The index after space, the text `w` and space, from index `k` on.
pub open spec fn after_open(s: Seq<char>, k: int, w: Seq<char>) -> int {
    spec_space_end(s, spec_space_end(s, k) + w.len())
}

//--------------------------------------------------
// What the expression rules produce

/// Where the `n`th of the terms of a binary expression of `level` that follow index `k`
/// starts.
pub open spec fn binary_term_start(s: Seq<char>, level: BinaryLevel, k: int, n: nat) -> int
    decreases n,
{
    if n == 0 {
        k
    } else {
        let j = binary_term_start(s, level, k, (n - 1) as nat);
        match binary_term_end(s, level, j) {
            Some(e) => e,
            None => j,
        }
    }
}

/// Where the operand of the term of a binary expression of `level` at index `k` starts: after
/// space, the operator and space.
pub open spec fn binary_operand_start(s: Seq<char>, level: BinaryLevel, k: int) -> int {
    let j = spec_space_end(s, k);
    match op_end(s, j, spec_binary_ops(level)) {
        Some(j2) => spec_space_end(s, j2),
        None => j,
    }
}

/// Where the `n`th of the `, ternary` parts that follow index `k` starts.
pub open spec fn comma_part_start(s: Seq<char>, k: int, n: nat) -> int
    decreases n,
{
    if n == 0 {
        k
    } else {
        let j = comma_part_start(s, k, (n - 1) as nat);
        match comma_next_end(s, j) {
            Some(e) => e,
            None => j,
        }
    }
}

/// Where the `n`th of the ternary terms that start at index `k` starts.
pub open spec fn ternary_term_start(s: Seq<char>, k: int, n: nat) -> int
    decreases n,
{
    if n == 0 {
        k
    } else {
        let j = ternary_term_start(s, k, (n - 1) as nat);
        match ternary_term_end(s, j) {
            Some(e) => e,
            None => j,
        }
    }
}

/// Where the branch taken when the test holds starts, in the ternary term at index `k`.
pub open spec fn ternary_if_true_start(s: Seq<char>, k: int) -> int {
    match binary_end(s, BinaryLevel::LogicalOr, k) {
        Some(a) => after_open(s, a, "?"@),
        None => k,
    }
}

/// The value `e` of the literal at index `i`.
pub open spec fn literal_value(s: Seq<char>, i: int, e: ast::Expression) -> bool {
    if let Some(b) = spec_boolean_at(s, i) {
        e == ast::Expression::BooleanLiteral(b)
    } else if let Some((v, end, radix)) = spec_int_literal_at(s, i) {
        e == ast::Expression::IntLiteral(ast::IntLiteral { value: v, radix, suffix: None })
    } else if keyword_at(s, i, "null"@) {
        e == ast::Expression::NullLiteral
    } else {
        match spec_string_literal_at(s, i) {
            Some((v, end)) => e matches ast::Expression::StringLiteral(sv) && sv@ == v,
            None => false,
        }
    }
}

/// The value `e` of the primary expression at index `i`: a literal, else an identifier with
/// the name that the text gives.
pub open spec fn primary_tree(s: Seq<char>, i: int, e: ast::Expression) -> bool {
    if literal_at(s, i) {
        literal_value(s, i, e)
    } else {
        &&& identifier_at(s, i)
        &&& e matches ast::Expression::IdentifierExpression(x) && x.name@ == s.subrange(
            i,
            ident_end(s, i + 1),
        )
    }
}

/// The range `r` runs from the byte of index `a` to the byte of index `b`, for `(a, b) == x`.
pub open spec fn range_is(s: Seq<char>, x: (int, int), r: ParsedRange) -> bool {
    &&& r.start == byte_at(s, x.0)
    &&& r.end == byte_at(s, x.1)
}

/// Where the result of the expression rule at index `i` starts and ends.
pub open spec fn expr_span(s: Seq<char>, i: int) -> (int, int)
    decreases s.len() - i, 200int,
{
    comma_span(s, i)
}

/// Where the result of the comma expression rule at index `i` starts and ends: the whole
/// text when parts follow the first, else the first's.
pub open spec fn comma_span(s: Seq<char>, i: int) -> (int, int)
    decreases s.len() - i, 199int,
{
    match binary_end(s, BinaryLevel::Assignment, i) {
        Some(k) => if comma_count(s, k) > 0 {
            (i, or_here(comma_end(s, i), i))
        } else {
            binary_span(s, BinaryLevel::Assignment, i)
        },
        None => (i, i),
    }
}

/// Where the result of the ternary expression rule at index `i` starts and ends.
pub open spec fn ternary_span(s: Seq<char>, i: int) -> (int, int)
    decreases s.len() - i, 120int,
{
    let j = spec_space_end(s, ternary_terms_end(s, i));
    if ternary_count(s, i) > 0 {
        (i, or_here(ternary_end(s, i), i))
    } else if within(s, i, j) {
        binary_span(s, BinaryLevel::LogicalOr, j)
    } else {
        (i, i)
    }
}

/// Where the result of the binary expression rule of `level` at index `i` starts and ends.
pub open spec fn binary_span(s: Seq<char>, level: BinaryLevel, i: int) -> (int, int)
    decreases s.len() - i, 10 * level_rank(level) + 5,
{
    if binary_ops_seq(s, level, i).len() > 0 {
        (i, or_here(binary_end(s, level, i), i))
    } else {
        operand_span(s, level, i)
    }
}

/// Where the result of the operand rule of `level` at index `i` starts and ends.
pub open spec fn operand_span(s: Seq<char>, level: BinaryLevel, i: int) -> (int, int)
    decreases s.len() - i, 10 * level_rank(level) + 2,
{
    match level {
        BinaryLevel::Assignment => ternary_span(s, i),
        BinaryLevel::LogicalOr => binary_span(s, BinaryLevel::LogicalAnd, i),
        BinaryLevel::LogicalAnd => binary_span(s, BinaryLevel::BitwiseOr, i),
        BinaryLevel::BitwiseOr => binary_span(s, BinaryLevel::BitwiseXor, i),
        BinaryLevel::BitwiseXor => binary_span(s, BinaryLevel::BitwiseAnd, i),
        BinaryLevel::BitwiseAnd => binary_span(s, BinaryLevel::Equality, i),
        BinaryLevel::Equality => binary_span(s, BinaryLevel::Relational, i),
        BinaryLevel::Relational => binary_span(s, BinaryLevel::Bitshift, i),
        BinaryLevel::Bitshift => binary_span(s, BinaryLevel::Add, i),
        BinaryLevel::Add => binary_span(s, BinaryLevel::Mult, i),
        BinaryLevel::Mult => unary_span(s, i),
    }
}

/// Where the result of the unary expression rule at index `i` starts and ends: the whole text
/// when operators stand there, else the member expression's.
pub open spec fn unary_span(s: Seq<char>, i: int) -> (int, int)
    decreases s.len() - i, 15int,
{
    let j = spec_space_end(s, unary_ops_end(s, i));
    if unary_ops_seq(s, i).len() > 0 {
        (i, or_here(unary_end(s, i), i))
    } else if within(s, i, j) {
        (j, or_here(member_end(s, j), j))
    } else {
        (i, i)
    }
}

/// Where the `n`th of the unary operators that start at index `k` starts, with the space
/// before it.
pub open spec fn unary_op_start(s: Seq<char>, k: int, n: nat) -> int
    decreases n,
{
    if n == 0 {
        k
    } else {
        let j = unary_op_start(s, k, (n - 1) as nat);
        match op_end(s, spec_space_end(s, j), spec_unary_ops()) {
            Some(e) => e,
            None => j,
        }
    }
}

/// Where the list of expressions at index `k` starts and ends.
pub open spec fn list_span(s: Seq<char>, k: int) -> (int, int) {
    (k, expression_list_end(s, k))
}

/// The value `e` of the expression that the parser reads at index `i`: how its parts nest, the
/// operators between them, and the names and literals at its leaves.
#[verifier::opaque]
pub open spec fn expr_tree(s: Seq<char>, i: int, e: ast::Expression) -> bool
    decreases e, s.len() - i, 200int,
{
    comma_tree(s, i, e)
}

/// The value `e` of the comma expression at index `i`.
#[verifier::opaque]
pub open spec fn comma_tree(s: Seq<char>, i: int, e: ast::Expression) -> bool
    decreases e, s.len() - i, 199int,
{
    match binary_end(s, BinaryLevel::Assignment, i) {
        Some(k) => {
            let n = comma_count(s, k);
            if n == 0 {
                binary_tree(s, BinaryLevel::Assignment, i, e)
            } else {
                e matches ast::Expression::CommaExpression(c) && {
                    &&& c.exps@.len() == n + 1
                    &&& binary_tree(s, BinaryLevel::Assignment, i, c.exps@[0].value)
                    &&& range_is(s, binary_span(s, BinaryLevel::Assignment, i), c.exps@[0].range)
                    &&& forall|q: int|
                        0 < q < c.exps@.len() ==> {
                            let a = after_open(s, comma_part_start(s, k, (q - 1) as nat), ","@);
                            &&& ternary_tree(s, a, (#[trigger] c.exps@[q]).value)
                            &&& range_is(s, ternary_span(s, a), c.exps@[q].range)
                        }
                }
            }
        },
        None => false,
    }
}

/// The value `e` of the ternary expression at index `i`.
#[verifier::opaque]
pub open spec fn ternary_tree(s: Seq<char>, i: int, e: ast::Expression) -> bool
    decreases e, s.len() - i, 120int,
{
    let j = spec_space_end(s, ternary_terms_end(s, i));
    let n = ternary_count(s, i);
    if !within(s, i, j) {
        false
    } else if n == 0 {
        binary_tree(s, BinaryLevel::LogicalOr, j, e)
    } else {
        e matches ast::Expression::TernaryExpression(t) && {
            &&& t.terms@.len() == n
            &&& binary_tree(s, BinaryLevel::LogicalOr, j, t.if_false.value)
            &&& range_is(s, binary_span(s, BinaryLevel::LogicalOr, j), t.if_false.range)
            &&& forall|q: int|
                0 <= q < t.terms@.len() ==> ternary_term_at(
                    s,
                    i,
                    q as nat,
                    #[trigger] t.terms@[q],
                )
        }
    }
}

/// The term `t` is the `q`th of the ternary terms that start at index `i`: its range, and its
/// test and branch with their values and ranges.
#[verifier::opaque]
pub open spec fn ternary_term_at(
    s: Seq<char>,
    i: int,
    q: nat,
    t: Parsed<ast::TernaryExpressionTerm>,
) -> bool
    decreases t, s.len() - i, 119int,
{
    let k = ternary_term_start(s, i, q);
    let c = ternary_if_true_start(s, k);
    &&& range_is(s, (k, ternary_term_start(s, i, q + 1)), t.range)
    &&& binary_tree(s, BinaryLevel::LogicalOr, k, t.value.test.value)
    &&& range_is(s, binary_span(s, BinaryLevel::LogicalOr, k), t.value.test.range)
    &&& binary_tree(s, BinaryLevel::LogicalOr, c, t.value.if_true.value)
    &&& range_is(s, binary_span(s, BinaryLevel::LogicalOr, c), t.value.if_true.range)
}

/// The term `t` is the `q`th of the terms of a binary expression of `level` that follow index
/// `j`: its range, its operator's range, and its operand with its value and range.
#[verifier::opaque]
pub open spec fn binary_term_at(
    s: Seq<char>,
    level: BinaryLevel,
    j: int,
    q: nat,
    t: Parsed<ast::BinaryExpressionTerm>,
) -> bool
    decreases t, s.len() - j, 10 * level_rank(level) + 4,
{
    let k = binary_term_start(s, level, j, q);
    let a = spec_space_end(s, k);
    let o = binary_operand_start(s, level, k);
    &&& range_is(s, (k, binary_term_start(s, level, j, q + 1)), t.range)
    &&& range_is(s, (a, or_here(op_end(s, a, spec_binary_ops(level)), a)), t.value.op.range)
    &&& operand_tree(s, level, o, t.value.exp.value)
    &&& range_is(s, operand_span(s, level, o), t.value.exp.range)
}

/// The value `e` of the binary expression of `level` at index `i`.
#[verifier::opaque]
pub open spec fn binary_tree(s: Seq<char>, level: BinaryLevel, i: int, e: ast::Expression) -> bool
    decreases e, s.len() - i, 10 * level_rank(level) + 5,
{
    match operand_end(s, level, i) {
        Some(k) => {
            let j = spec_space_end(s, k);
            let ops = binary_rest_ops(s, level, j);
            if ops.len() == 0 {
                operand_tree(s, level, i, e)
            } else {
                e matches ast::Expression::BinaryExpression(b) && {
                    &&& operand_tree(s, level, i, b.first.value)
                    &&& range_is(s, operand_span(s, level, i), b.first.range)
                    &&& b.rest@.len() == ops.len()
                    &&& forall|q: int|
                        0 <= q < b.rest@.len() ==> {
                            &&& (#[trigger] b.rest@[q]).value.op.value == ops[q]
                            &&& binary_term_at(s, level, j, q as nat, b.rest@[q])
                        }
                }
            }
        },
        None => false,
    }
}

/// The value `e` of the operand of a binary expression of `level` at index `i`.
#[verifier::opaque]
pub open spec fn operand_tree(s: Seq<char>, level: BinaryLevel, i: int, e: ast::Expression) -> bool
    decreases e, s.len() - i, 10 * level_rank(level) + 2,
{
    match level {
        BinaryLevel::Assignment => ternary_tree(s, i, e),
        BinaryLevel::LogicalOr => binary_tree(s, BinaryLevel::LogicalAnd, i, e),
        BinaryLevel::LogicalAnd => binary_tree(s, BinaryLevel::BitwiseOr, i, e),
        BinaryLevel::BitwiseOr => binary_tree(s, BinaryLevel::BitwiseXor, i, e),
        BinaryLevel::BitwiseXor => binary_tree(s, BinaryLevel::BitwiseAnd, i, e),
        BinaryLevel::BitwiseAnd => binary_tree(s, BinaryLevel::Equality, i, e),
        BinaryLevel::Equality => binary_tree(s, BinaryLevel::Relational, i, e),
        BinaryLevel::Relational => binary_tree(s, BinaryLevel::Bitshift, i, e),
        BinaryLevel::Bitshift => binary_tree(s, BinaryLevel::Add, i, e),
        BinaryLevel::Add => binary_tree(s, BinaryLevel::Mult, i, e),
        BinaryLevel::Mult => unary_tree(s, i, e),
    }
}

/// The value `e` of the unary expression at index `i`.
#[verifier::opaque]
pub open spec fn unary_tree(s: Seq<char>, i: int, e: ast::Expression) -> bool
    decreases e, s.len() - i, 15int,
{
    let j = spec_space_end(s, unary_ops_end(s, i));
    let ops = unary_ops_seq(s, i);
    if !within(s, i, j) {
        false
    } else if ops.len() == 0 {
        member_tree(s, j, e)
    } else {
        e matches ast::Expression::UnaryExpression(u) && {
            &&& u.ops@.map_values(|o: Parsed<ast::UnaryOp>| o.value) == ops
            &&& member_tree(s, j, u.exp.value)
            &&& range_is(s, (j, or_here(member_end(s, j), j)), u.exp.range)
            &&& forall|q: int|
                0 <= q < u.ops@.len() ==> range_is(
                    s,
                    (
                        spec_space_end(s, unary_op_start(s, i, q as nat)),
                        unary_op_start(s, i, (q + 1) as nat),
                    ),
                    (#[trigger] u.ops@[q]).range,
                )
        }
    }
}

/// The value `e` of the member expression at index `i`.
#[verifier::opaque]
pub open spec fn member_tree(s: Seq<char>, i: int, e: ast::Expression) -> bool
    decreases e, s.len() - i, 12int,
{
    match grouping_end(s, i) {
        Some(g) => {
            let n = member_ops_count(s, g);
            if n == 0 {
                grouping_tree(s, i, e)
            } else {
                e matches ast::Expression::MemberExpression(m) && {
                    &&& grouping_tree(s, i, m.first.value)
                    &&& range_is(s, (i, g), m.first.range)
                    &&& m.rest@.len() == n
                    &&& forall|q: int|
                        0 <= q < m.rest@.len() ==> {
                            &&& member_op_tree(
                                s,
                                member_op_start(s, g, q as nat),
                                (#[trigger] m.rest@[q]).value,
                            )
                            &&& range_is(
                                s,
                                (member_op_start(s, g, q as nat), member_op_start(s, g, (q + 1) as nat)),
                                m.rest@[q].range,
                            )
                        }
                }
            }
        },
        None => false,
    }
}

/// The value `op` of the member operation at index `k`, with the arguments of a call and the
/// index of an index access.
#[verifier::opaque]
pub open spec fn member_op_tree(s: Seq<char>, k: int, op: ast::MemberOp) -> bool
    decreases op, s.len() - k, 8int,
{
    &&& member_op_value(s, k, op)
    &&& match op {
        ast::MemberOp::FunctionCall(f) => {
            &&& list_tree(s, after_open(s, k, "("@), f.args.value@)
            &&& range_is(s, list_span(s, after_open(s, k, "("@)), f.args.range)
        },
        ast::MemberOp::IndexAccess(x) => {
            &&& expr_tree(s, after_open(s, k, "["@), x.exp.value)
            &&& range_is(s, expr_span(s, after_open(s, k, "["@)), x.exp.range)
        },
        ast::MemberOp::DotAccess(d) => range_is(
            s,
            (after_open(s, k, "."@), ident_end(s, after_open(s, k, "."@) + 1)),
            d.name.range,
        ),
        _ => true,
    }
}

/// The values `es` of the list of expressions at index `k`.
#[verifier::opaque]
pub open spec fn list_tree(s: Seq<char>, k: int, es: Seq<Parsed<ast::Expression>>) -> bool
    decreases es, s.len() - k, 150int,
{
    let j = spec_space_end(s, k);
    match ternary_end(s, j) {
        Some(t) => es.len() > 0 && {
            &&& ternary_tree(s, j, es[0].value)
            &&& range_is(s, ternary_span(s, j), es[0].range)
            &&& forall|q: int|
                0 < q < es.len() ==> {
                    let a = after_open(s, comma_part_start(s, t, (q - 1) as nat), ","@);
                    &&& ternary_tree(s, a, (#[trigger] es[q]).value)
                    &&& range_is(s, ternary_span(s, a), es[q].range)
                }
        },
        None => es.len() == 0,
    }
}

/// The value `e` of the grouping expression at index `i`: the expression between the
/// parentheses, else the primary expression.
#[verifier::opaque]
pub open spec fn grouping_tree(s: Seq<char>, i: int, e: ast::Expression) -> bool
    decreases e, s.len() - i, 11int,
{
    if grouped_end(s, i) is Some {
        let j = spec_space_end(s, i + "("@.len());
        &&& 0 <= i
        &&& within(s, i + 1, j)
        &&& expr_tree(s, j, e)
    } else {
        primary_tree(s, i, e)
    }
}

proof fn lemma_expr_tree_intro(s: Seq<char>, i: int, e: ast::Expression)
    requires
        ({
            comma_tree(s, i, e)
        }),
    ensures
        expr_tree(s, i, e),
{
    reveal(expr_tree);
    reveal(comma_tree);
    reveal(ternary_tree);
    reveal(binary_tree);
    reveal(operand_tree);
    reveal(unary_tree);
    reveal(member_tree);
    reveal(member_op_tree);
    reveal(list_tree);
    reveal(grouping_tree);
    reveal(ternary_term_at);
    reveal(binary_term_at);
}

proof fn lemma_comma_tree_intro(s: Seq<char>, i: int, e: ast::Expression)
    requires
        ({
            match binary_end(s, BinaryLevel::Assignment, i) {
                Some(k) => {
                    let n = comma_count(s, k);
                    if n == 0 {
                        binary_tree(s, BinaryLevel::Assignment, i, e)
                    } else {
                        e matches ast::Expression::CommaExpression(c) && {
                            &&& c.exps@.len() == n + 1
                            &&& binary_tree(s, BinaryLevel::Assignment, i, c.exps@[0].value)
                            &&& range_is(s, binary_span(s, BinaryLevel::Assignment, i), c.exps@[0].range)
                            &&& forall|q: int|
                                0 < q < c.exps@.len() ==> {
                                    let a = after_open(s, comma_part_start(s, k, (q - 1) as nat), ","@);
                                    &&& ternary_tree(s, a, (#[trigger] c.exps@[q]).value)
                                    &&& range_is(s, ternary_span(s, a), c.exps@[q].range)
                                }
                        }
                    }
                },
                None => false,
            }
        }),
    ensures
        comma_tree(s, i, e),
{
    reveal(expr_tree);
    reveal(comma_tree);
    reveal(ternary_tree);
    reveal(binary_tree);
    reveal(operand_tree);
    reveal(unary_tree);
    reveal(member_tree);
    reveal(member_op_tree);
    reveal(list_tree);
    reveal(grouping_tree);
    reveal(ternary_term_at);
    reveal(binary_term_at);
}

proof fn lemma_ternary_tree_intro(s: Seq<char>, i: int, e: ast::Expression)
    requires
        ({
            let j = spec_space_end(s, ternary_terms_end(s, i));
            let n = ternary_count(s, i);
            if !within(s, i, j) {
                false
            } else if n == 0 {
                binary_tree(s, BinaryLevel::LogicalOr, j, e)
            } else {
                e matches ast::Expression::TernaryExpression(t) && {
                    &&& t.terms@.len() == n
                    &&& binary_tree(s, BinaryLevel::LogicalOr, j, t.if_false.value)
                    &&& range_is(s, binary_span(s, BinaryLevel::LogicalOr, j), t.if_false.range)
                    &&& forall|q: int|
                        0 <= q < t.terms@.len() ==> ternary_term_at(
                            s,
                            i,
                            q as nat,
                            #[trigger] t.terms@[q],
                        )
                }
            }
        }),
    ensures
        ternary_tree(s, i, e),
{
    reveal(expr_tree);
    reveal(comma_tree);
    reveal(ternary_tree);
    reveal(binary_tree);
    reveal(operand_tree);
    reveal(unary_tree);
    reveal(member_tree);
    reveal(member_op_tree);
    reveal(list_tree);
    reveal(grouping_tree);
    reveal(ternary_term_at);
    reveal(binary_term_at);
}

proof fn lemma_binary_tree_intro(s: Seq<char>, level: BinaryLevel, i: int, e: ast::Expression)
    requires
        ({
            match operand_end(s, level, i) {
                Some(k) => {
                    let j = spec_space_end(s, k);
                    let ops = binary_rest_ops(s, level, j);
                    if ops.len() == 0 {
                        operand_tree(s, level, i, e)
                    } else {
                        e matches ast::Expression::BinaryExpression(b) && {
                            &&& operand_tree(s, level, i, b.first.value)
                            &&& range_is(s, operand_span(s, level, i), b.first.range)
                            &&& b.rest@.len() == ops.len()
                            &&& forall|q: int|
                                0 <= q < b.rest@.len() ==> {
                                    &&& (#[trigger] b.rest@[q]).value.op.value == ops[q]
                                    &&& binary_term_at(s, level, j, q as nat, b.rest@[q])
                                }
                        }
                    }
                },
                None => false,
            }
        }),
    ensures
        binary_tree(s, level, i, e),
{
    reveal(expr_tree);
    reveal(comma_tree);
    reveal(ternary_tree);
    reveal(binary_tree);
    reveal(operand_tree);
    reveal(unary_tree);
    reveal(member_tree);
    reveal(member_op_tree);
    reveal(list_tree);
    reveal(grouping_tree);
    reveal(ternary_term_at);
    reveal(binary_term_at);
}

proof fn lemma_operand_tree_intro(s: Seq<char>, level: BinaryLevel, i: int, e: ast::Expression)
    requires
        ({
            match level {
                BinaryLevel::Assignment => ternary_tree(s, i, e),
                BinaryLevel::LogicalOr => binary_tree(s, BinaryLevel::LogicalAnd, i, e),
                BinaryLevel::LogicalAnd => binary_tree(s, BinaryLevel::BitwiseOr, i, e),
                BinaryLevel::BitwiseOr => binary_tree(s, BinaryLevel::BitwiseXor, i, e),
                BinaryLevel::BitwiseXor => binary_tree(s, BinaryLevel::BitwiseAnd, i, e),
                BinaryLevel::BitwiseAnd => binary_tree(s, BinaryLevel::Equality, i, e),
                BinaryLevel::Equality => binary_tree(s, BinaryLevel::Relational, i, e),
                BinaryLevel::Relational => binary_tree(s, BinaryLevel::Bitshift, i, e),
                BinaryLevel::Bitshift => binary_tree(s, BinaryLevel::Add, i, e),
                BinaryLevel::Add => binary_tree(s, BinaryLevel::Mult, i, e),
                BinaryLevel::Mult => unary_tree(s, i, e),
            }
        }),
    ensures
        operand_tree(s, level, i, e),
{
    reveal(expr_tree);
    reveal(comma_tree);
    reveal(ternary_tree);
    reveal(binary_tree);
    reveal(operand_tree);
    reveal(unary_tree);
    reveal(member_tree);
    reveal(member_op_tree);
    reveal(list_tree);
    reveal(grouping_tree);
    reveal(ternary_term_at);
    reveal(binary_term_at);
}

proof fn lemma_unary_tree_intro(s: Seq<char>, i: int, e: ast::Expression)
    requires
        ({
            let j = spec_space_end(s, unary_ops_end(s, i));
            let ops = unary_ops_seq(s, i);
            if !within(s, i, j) {
                false
            } else if ops.len() == 0 {
                member_tree(s, j, e)
            } else {
                e matches ast::Expression::UnaryExpression(u) && {
                    &&& u.ops@.map_values(|o: Parsed<ast::UnaryOp>| o.value) == ops
                    &&& member_tree(s, j, u.exp.value)
                    &&& range_is(s, (j, or_here(member_end(s, j), j)), u.exp.range)
                    &&& forall|q: int|
                        0 <= q < u.ops@.len() ==> range_is(
                            s,
                            (
                                spec_space_end(s, unary_op_start(s, i, q as nat)),
                                unary_op_start(s, i, (q + 1) as nat),
                            ),
                            (#[trigger] u.ops@[q]).range,
                        )
                }
            }
        }),
    ensures
        unary_tree(s, i, e),
{
    reveal(expr_tree);
    reveal(comma_tree);
    reveal(ternary_tree);
    reveal(binary_tree);
    reveal(operand_tree);
    reveal(unary_tree);
    reveal(member_tree);
    reveal(member_op_tree);
    reveal(list_tree);
    reveal(grouping_tree);
    reveal(ternary_term_at);
    reveal(binary_term_at);
}

proof fn lemma_member_tree_intro(s: Seq<char>, i: int, e: ast::Expression)
    requires
        ({
            match grouping_end(s, i) {
                Some(g) => {
                    let n = member_ops_count(s, g);
                    if n == 0 {
                        grouping_tree(s, i, e)
                    } else {
                        e matches ast::Expression::MemberExpression(m) && {
                            &&& grouping_tree(s, i, m.first.value)
                            &&& range_is(s, (i, g), m.first.range)
                            &&& m.rest@.len() == n
                            &&& forall|q: int|
                                0 <= q < m.rest@.len() ==> {
                                    &&& member_op_tree(
                                        s,
                                        member_op_start(s, g, q as nat),
                                        (#[trigger] m.rest@[q]).value,
                                    )
                                    &&& range_is(
                                        s,
                                        (member_op_start(s, g, q as nat), member_op_start(s, g, (q + 1) as nat)),
                                        m.rest@[q].range,
                                    )
                                }
                        }
                    }
                },
                None => false,
            }
        }),
    ensures
        member_tree(s, i, e),
{
    reveal(expr_tree);
    reveal(comma_tree);
    reveal(ternary_tree);
    reveal(binary_tree);
    reveal(operand_tree);
    reveal(unary_tree);
    reveal(member_tree);
    reveal(member_op_tree);
    reveal(list_tree);
    reveal(grouping_tree);
    reveal(ternary_term_at);
    reveal(binary_term_at);
}

proof fn lemma_member_op_tree_intro(s: Seq<char>, k: int, op: ast::MemberOp)
    requires
        ({
            &&& member_op_value(s, k, op)
            &&& match op {
                ast::MemberOp::FunctionCall(f) => {
                    &&& list_tree(s, after_open(s, k, "("@), f.args.value@)
                    &&& range_is(s, list_span(s, after_open(s, k, "("@)), f.args.range)
                },
                ast::MemberOp::IndexAccess(x) => {
                    &&& expr_tree(s, after_open(s, k, "["@), x.exp.value)
                    &&& range_is(s, expr_span(s, after_open(s, k, "["@)), x.exp.range)
                },
                ast::MemberOp::DotAccess(d) => range_is(
                    s,
                    (after_open(s, k, "."@), ident_end(s, after_open(s, k, "."@) + 1)),
                    d.name.range,
                ),
                _ => true,
            }
        }),
    ensures
        member_op_tree(s, k, op),
{
    reveal(expr_tree);
    reveal(comma_tree);
    reveal(ternary_tree);
    reveal(binary_tree);
    reveal(operand_tree);
    reveal(unary_tree);
    reveal(member_tree);
    reveal(member_op_tree);
    reveal(list_tree);
    reveal(grouping_tree);
    reveal(ternary_term_at);
    reveal(binary_term_at);
}

proof fn lemma_list_tree_intro(s: Seq<char>, k: int, es: Seq<Parsed<ast::Expression>>)
    requires
        ({
            let j = spec_space_end(s, k);
            match ternary_end(s, j) {
                Some(t) => es.len() > 0 && {
                    &&& ternary_tree(s, j, es[0].value)
                    &&& range_is(s, ternary_span(s, j), es[0].range)
                    &&& forall|q: int|
                        0 < q < es.len() ==> {
                            let a = after_open(s, comma_part_start(s, t, (q - 1) as nat), ","@);
                            &&& ternary_tree(s, a, (#[trigger] es[q]).value)
                            &&& range_is(s, ternary_span(s, a), es[q].range)
                        }
                },
                None => es.len() == 0,
            }
        }),
    ensures
        list_tree(s, k, es),
{
    reveal(expr_tree);
    reveal(comma_tree);
    reveal(ternary_tree);
    reveal(binary_tree);
    reveal(operand_tree);
    reveal(unary_tree);
    reveal(member_tree);
    reveal(member_op_tree);
    reveal(list_tree);
    reveal(grouping_tree);
    reveal(ternary_term_at);
    reveal(binary_term_at);
}

proof fn lemma_grouping_tree_intro(s: Seq<char>, i: int, e: ast::Expression)
    requires
        ({
            if grouped_end(s, i) is Some {
                let j = spec_space_end(s, i + "("@.len());
                &&& 0 <= i
                &&& within(s, i + 1, j)
                &&& expr_tree(s, j, e)
            } else {
                primary_tree(s, i, e)
            }
        }),
    ensures
        grouping_tree(s, i, e),
{
    reveal(expr_tree);
    reveal(comma_tree);
    reveal(ternary_tree);
    reveal(binary_tree);
    reveal(operand_tree);
    reveal(unary_tree);
    reveal(member_tree);
    reveal(member_op_tree);
    reveal(list_tree);
    reveal(grouping_tree);
    reveal(ternary_term_at);
    reveal(binary_term_at);
}

proof fn lemma_ternary_term_at_intro(s: Seq<char>, i: int, q: nat, t: Parsed<ast::TernaryExpressionTerm>)
    requires
        ({
            let k = ternary_term_start(s, i, q);
            let c = ternary_if_true_start(s, k);
            &&& range_is(s, (k, ternary_term_start(s, i, q + 1)), t.range)
            &&& binary_tree(s, BinaryLevel::LogicalOr, k, t.value.test.value)
            &&& range_is(s, binary_span(s, BinaryLevel::LogicalOr, k), t.value.test.range)
            &&& binary_tree(s, BinaryLevel::LogicalOr, c, t.value.if_true.value)
            &&& range_is(s, binary_span(s, BinaryLevel::LogicalOr, c), t.value.if_true.range)
        }),
    ensures
        ternary_term_at(s, i, q, t),
{
    reveal(expr_tree);
    reveal(comma_tree);
    reveal(ternary_tree);
    reveal(binary_tree);
    reveal(operand_tree);
    reveal(unary_tree);
    reveal(member_tree);
    reveal(member_op_tree);
    reveal(list_tree);
    reveal(grouping_tree);
    reveal(ternary_term_at);
    reveal(binary_term_at);
}

proof fn lemma_binary_term_at_intro(s: Seq<char>, level: BinaryLevel, j: int, q: nat, t: Parsed<ast::BinaryExpressionTerm>)
    requires
        ({
            let k = binary_term_start(s, level, j, q);
            let a = spec_space_end(s, k);
            let o = binary_operand_start(s, level, k);
            &&& range_is(s, (k, binary_term_start(s, level, j, q + 1)), t.range)
            &&& range_is(s, (a, or_here(op_end(s, a, spec_binary_ops(level)), a)), t.value.op.range)
            &&& operand_tree(s, level, o, t.value.exp.value)
            &&& range_is(s, operand_span(s, level, o), t.value.exp.range)
        }),
    ensures
        binary_term_at(s, level, j, q, t),
{
    reveal(expr_tree);
    reveal(comma_tree);
    reveal(ternary_tree);
    reveal(binary_tree);
    reveal(operand_tree);
    reveal(unary_tree);
    reveal(member_tree);
    reveal(member_op_tree);
    reveal(list_tree);
    reveal(grouping_tree);
    reveal(ternary_term_at);
    reveal(binary_term_at);
}

/// The part `pe` stands as a ternary expression after the `, ` that follows index `k`: its
/// value and its range.
pub open spec fn comma_part_is(s: Seq<char>, k: int, pe: Parsed<ast::Expression>) -> bool {
    &&& ternary_tree(s, after_open(s, k, ","@), pe.value)
    &&& range_is(s, ternary_span(s, after_open(s, k, ","@)), pe.range)
}

/// Reading one more `, ternary` part keeps the parts read so far at their places and puts the
/// new one after them.
proof fn lemma_comma_parts_push(
    s: Seq<char>,
    k0: int,
    done: Seq<Parsed<ast::Expression>>,
    e: Parsed<ast::Expression>,
    before: int,
    after: int,
)
    requires
        comma_part_start(s, k0, done.len()) == before,
        comma_next_end(s, before) == Some(after),
        forall|q: int|
            0 <= q < done.len() ==> comma_part_is(
                s,
                comma_part_start(s, k0, q as nat),
                #[trigger] done[q],
            ),
        comma_part_is(s, before, e),
    ensures
        comma_part_start(s, k0, done.len() + 1) == after,
        forall|q: int|
            0 <= q < done.len() + 1 ==> comma_part_is(
                s,
                comma_part_start(s, k0, q as nat),
                #[trigger] done.push(e)[q],
            ),
{
    assert forall|q: int| 0 <= q < done.len() + 1 implies comma_part_is(
        s,
        comma_part_start(s, k0, q as nat),
        #[trigger] done.push(e)[q],
    ) by {
        if q < done.len() {
            assert(done.push(e)[q] == done[q]);
        } else {
            assert(done.push(e)[q] == e);
        }
    }
}

//--------------------------------------------------
// What the statement rules produce

/// A block whose statements are those of the list after its `{` is the block at index `i`.
proof fn lemma_block_is_intro(
    s: Seq<char>,
    i: int,
    v: ast::Statement,
    stmts: Seq<Parsed<ast::Statement>>,
)
    requires
        v matches ast::Statement::BlockStatement(b) && b.stmts.value@ == stmts,
        stmts.len() == stmts_count(s, i + 1),
        i + 1 <= s.len(),
        forall|q: int| 0 <= q < stmts.len() ==> listed_stmt_is(s, i + 1, q as nat, #[trigger] stmts[q]),
    ensures
        block_is(s, i, v),
{
    reveal(listed_stmt_is);
    let b = v->BlockStatement_0;
    assert forall|q: int| 0 <= q < b.stmts.value.len() implies listed_stmt_is(
        s,
        i + 1,
        q as nat,
        #[trigger] b.stmts.value@[q],
    ) by {
        assert(b.stmts.value@[q] == stmts[q]);
    }
}

/// Reading one more statement of a list keeps the statements read so far at their places and
/// puts the new one after them.
proof fn lemma_stmts_push(
    s: Seq<char>,
    k0: int,
    done: Seq<Parsed<ast::Statement>>,
    st: Parsed<ast::Statement>,
    before: int,
    after: int,
)
    requires
        stmt_list_start(s, k0, done.len()) == before,
        next_stmt_end(s, spec_space_end(s, before)) == Some(after),
        forall|q: int|
            0 <= q < done.len() ==> listed_stmt_is(s, k0, q as nat, #[trigger] done[q]),
        within(s, k0, spec_space_end(s, before)),
        stmt_is(s, spec_space_end(s, before), st.value),
        covers_listed_stmt(s, spec_space_end(s, before), st),
    ensures
        stmt_list_start(s, k0, done.len() + 1) == after,
        forall|q: int|
            0 <= q < done.len() + 1 ==> listed_stmt_is(s, k0, q as nat, #[trigger] done.push(st)[q]),
{
    assert forall|q: int| 0 <= q < done.len() + 1 implies listed_stmt_is(
        s,
        k0,
        q as nat,
        #[trigger] done.push(st)[q],
    ) by {
        if q < done.len() {
            assert(done.push(st)[q] == done[q]);
        } else {
            assert(done.push(st)[q] == st);
            reveal(listed_stmt_is);
        }
    }
}

/// Where the `n`th of the items of a switch body that follow index `k` starts.
pub open spec fn switch_item_start(s: Seq<char>, k: int, n: nat) -> int
    decreases n,
{
    if n == 0 {
        k
    } else {
        let j = switch_item_start(s, k, (n - 1) as nat);
        match switch_item_end(s, j) {
            Some(e) => e,
            None => j,
        }
    }
}

/// The value `item` of the item of a switch body at index `k`: a `default` label, a `case`
/// label with its expression, or a statement.
pub open spec fn switch_item_is(s: Seq<char>, k: int, item: ast::SwitchItem) -> bool {
    let j = spec_space_end(s, k);
    if default_end(s, j) is Some {
        item is Default
    } else if case_end(s, j) is Some {
        item matches ast::SwitchItem::Case(e) && expr_tree(
            s,
            spec_space_end(s, j + "case"@.len()),
            e.value,
        )
    } else {
        item matches ast::SwitchItem::Statement(st) && stmt_is(s, spec_space_end(s, j), st.value)
    }
}

/// Reading one more item of a switch body keeps the items read so far at their places and
/// puts the new one after them.
proof fn lemma_switch_items_push(
    s: Seq<char>,
    k0: int,
    done: Seq<Parsed<ast::SwitchItem>>,
    item: Parsed<ast::SwitchItem>,
    before: int,
    after: int,
)
    requires
        switch_item_start(s, k0, done.len()) == before,
        switch_item_end(s, before) == Some(after),
        forall|q: int|
            0 <= q < done.len() ==> switch_item_is(
                s,
                switch_item_start(s, k0, q as nat),
                (#[trigger] done[q]).value,
            ),
        switch_item_is(s, before, item.value),
    ensures
        switch_item_start(s, k0, done.len() + 1) == after,
        forall|q: int|
            0 <= q < done.len() + 1 ==> switch_item_is(
                s,
                switch_item_start(s, k0, q as nat),
                (#[trigger] done.push(item)[q]).value,
            ),
{
    assert forall|q: int| 0 <= q < done.len() + 1 implies switch_item_is(
        s,
        switch_item_start(s, k0, q as nat),
        (#[trigger] done.push(item)[q]).value,
    ) by {
        if q < done.len() {
            assert(done.push(item)[q] == done[q]);
        }
    }
}



/// The end of the statement at index `j`, kept folded: the positions of the statements of a
/// list are followed without unfolding the grammar.
#[verifier::opaque]
pub open spec fn next_stmt_end(s: Seq<char>, j: int) -> Option<int> {
    stmt_end(s, j)
}

/// Where the `n`th of the statements that follow index `k` starts, with the space before it.
pub open spec fn stmt_list_start(s: Seq<char>, k: int, n: nat) -> int
    decreases n,
{
    if n == 0 {
        k
    } else {
        let j = stmt_list_start(s, k, (n - 1) as nat);
        match next_stmt_end(s, spec_space_end(s, j)) {
            Some(e) => e,
            None => j,
        }
    }
}

/// How many items `switch_items_end` reads from index `k` on.
pub open spec fn switch_items_count(s: Seq<char>, k: int) -> nat
    decreases s.len() - k,
{
    match switch_item_end(s, k) {
        Some(e) => if k < e <= s.len() {
            1 + switch_items_count(s, e)
        } else {
            0
        },
        None => 0,
    }
}

/// Which statement form stands at index `i`: the first, in the order of the statement rule,
/// that parses there.
#[verifier::opaque]
pub open spec fn stmt_form(s: Seq<char>, i: int) -> RuleName {
    if char_at(s, i) == Some(';') {
        RuleName::EmptyStatement
    } else if expr_stmt_end(s, i) is Some {
        RuleName::ExpressionStatement
    } else if if_end(s, i) is Some {
        RuleName::IfStatement
    } else if while_end(s, i) is Some {
        RuleName::WhileStatement
    } else if return_end(s, i) is Some {
        RuleName::ReturnStatement
    } else if spec_jump_at(s, i, "break"@) is Some {
        RuleName::BreakStatement
    } else if spec_jump_at(s, i, "continue"@) is Some {
        RuleName::ContinueStatement
    } else if block_end(s, i) is Some {
        RuleName::BlockStatement
    } else if for_end(s, i) is Some {
        RuleName::ForStatement
    } else if switch_end(s, i) is Some {
        RuleName::SwitchStatement
    } else if var_decl_stmt_end(s, i) is Some {
        RuleName::VarDeclStatement
    } else {
        RuleName::FunctionDeclStatement
    }
}

/// The value `v` is that of the statement at index `i` that holds no other statement: empty,
/// an expression, a return, a break, a continue or a declaration.
#[verifier::opaque]
pub open spec fn simple_stmt_is(s: Seq<char>, i: int, v: ast::Statement) -> bool {
    match stmt_form(s, i) {
        RuleName::EmptyStatement => v == ast::Statement::EmptyStatement,
        RuleName::ExpressionStatement => v matches ast::Statement::ExpressionStatement(x)
            && expr_tree(s, i, x.exp.value),
        RuleName::ReturnStatement => {
            &&& v matches ast::Statement::ReturnStatement(x)
            &&& (x.exp is Some <==> expr_end(s, spec_space_end(s, i + "return"@.len())) is Some)
            &&& x.exp matches Some(e) ==> expr_tree(s, spec_space_end(s, i + "return"@.len()), e.value)
        },
        RuleName::BreakStatement => {
            &&& spec_jump_at(s, i, "break"@) matches Some((label, e))
            &&& v matches ast::Statement::BreakStatement(x)
            &&& opt_text(x.label) == label
        },
        RuleName::ContinueStatement => {
            &&& spec_jump_at(s, i, "continue"@) matches Some((label, e))
            &&& v matches ast::Statement::ContinueStatement(x)
            &&& opt_text(x.label) == label
        },
        RuleName::VarDeclStatement => var_decl_value(s, i, v),
        _ => false,
    }
}

/// Where the parenthesized test that follows the keyword `w` at index `i` starts.
#[verifier::opaque]
pub open spec fn cond_test_at(s: Seq<char>, i: int, w: Seq<char>) -> int {
    after_open(s, i + w.len(), "("@)
}

/// Where the test of the for statement at index `i` starts: after its initializer and `;`.
pub open spec fn for_test_at(s: Seq<char>, i: int) -> int {
    let b = cond_test_at(s, i, "for"@);
    after_open(s, or_here(for_init_end(s, b), b), ";"@)
}

/// Where the advance of the for statement at index `i` starts: after its test and `;`.
pub open spec fn for_advance_at(s: Seq<char>, i: int) -> int {
    let d = for_test_at(s, i);
    after_open(s, or_here(expr_end(s, d), d), ";"@)
}

/// The byte position, in the UTF-8 encoding of `s`, of the character at index `i`.
pub open spec fn byte_at(s: Seq<char>, i: int) -> nat {
    utf8_len(s.take(i))
}

/// The range `r` covers the statement at index `k`: from its first byte to the byte where it
/// ends.
pub open spec fn covers_stmt<R>(s: Seq<char>, k: int, r: Parsed<R>) -> bool {
    &&& r.range.start == byte_at(s, k)
    &&& stmt_end(s, k) matches Some(e) && r.range.end == byte_at(s, e)
}

/// The parts of the if statement at index `i`: where its body starts, whether an else branch
/// follows, and where that branch's statement starts.
#[verifier::opaque]
pub open spec fn if_parts(s: Seq<char>, i: int) -> (int, bool, int) {
    match cond_end(s, i, "if"@) {
        Some(k) => match stmt_end(s, k) {
            Some(t) => (k, else_end(s, t) != t, after_open(s, t, "else"@)),
            None => (k, false, k),
        },
        None => (i, false, i),
    }
}

/// Where the body of the while statement at index `i` starts.
#[verifier::opaque]
pub open spec fn while_body_at(s: Seq<char>, i: int) -> int {
    match cond_end(s, i, "while"@) {
        Some(k) => k,
        None => i,
    }
}

/// The parts of the for statement at index `i`: whether it has an initializer, a test and an
/// advance, and where its body starts.
#[verifier::opaque]
pub open spec fn for_parts(s: Seq<char>, i: int) -> (bool, bool, bool, int) {
    match for_head(s, i) {
        Some(x) => x,
        None => (false, false, false, i),
    }
}

/// Where the body of the switch statement at index `i` starts, after its `{`.
#[verifier::opaque]
pub open spec fn switch_body_at(s: Seq<char>, i: int) -> int {
    let a = spec_space_end(s, i + "switch"@.len());
    match expr_end(s, spec_space_end(s, a + "("@.len())) {
        Some(e) => {
            let b = spec_space_end(s, e);
            spec_space_end(s, b + ")"@.len()) + "{"@.len()
        },
        None => i,
    }
}

/// Where the body of the function declaration at index `i` starts.
#[verifier::opaque]
pub open spec fn function_body_at(s: Seq<char>, i: int) -> int {
    let a = spec_space_end(s, i + "function"@.len());
    let b = spec_space_end(s, ident_end(s, a + 1));
    let c = spec_space_end(s, args_end(s, b + "("@.len()));
    spec_space_end(s, trailing_comma_end(s, c) + ")"@.len())
}

/// The value `v` is that of the statement at index `i`: the statement form that stands there,
/// with the statements it holds and the values of its tests.
pub open spec fn stmt_is(s: Seq<char>, i: int, v: ast::Statement) -> bool
    decreases s.len() - i, 39int, 0int,
{
    match stmt_form(s, i) {
        RuleName::IfStatement => if_is(s, i, v),
        RuleName::WhileStatement => while_is(s, i, v),
        RuleName::BlockStatement => block_is(s, i, v),
        RuleName::ForStatement => for_is(s, i, v),
        RuleName::SwitchStatement => switch_is(s, i, v),
        RuleName::FunctionDeclStatement => function_decl_is(s, i, v),
        _ => simple_stmt_is(s, i, v),
    }
}

/// The value `v` is that of the if statement at index `i`: its body, and its else branch
/// exactly when one follows.
pub open spec fn if_is(s: Seq<char>, i: int, v: ast::Statement) -> bool
    decreases s.len() - i, 38int, 0int,
{
    let (k, has_else, j) = if_parts(s, i);
    &&& v matches ast::Statement::IfStatement(x)
    &&& expr_tree(s, cond_test_at(s, i, "if"@), x.test.value)
    &&& if within(s, i + 1, k) {
        stmt_is(s, k, x.if_true.value)
    } else {
        false
    }
    &&& (x.if_false is Some) == has_else
    &&& x.if_false matches Some(f) ==> if within(s, i + 1, j) {
        stmt_is(s, j, f.value)
    } else {
        false
    }
}

/// The value `v` is that of the while statement at index `i`: its body.
pub open spec fn while_is(s: Seq<char>, i: int, v: ast::Statement) -> bool
    decreases s.len() - i, 38int, 0int,
{
    let k = while_body_at(s, i);
    &&& v matches ast::Statement::WhileStatement(x)
    &&& expr_tree(s, cond_test_at(s, i, "while"@), x.test.value)
    &&& if within(s, i + 1, k) {
        stmt_is(s, k, x.stmt.value)
    } else {
        false
    }
}

/// The range `r` covers the statement at index `k`, its end kept folded: from its first byte
/// to the byte where it ends.
pub open spec fn covers_listed_stmt<R>(s: Seq<char>, k: int, r: Parsed<R>) -> bool {
    &&& r.range.start == byte_at(s, k)
    &&& next_stmt_end(s, k) matches Some(e) && r.range.end == byte_at(s, e)
}

/// The value `v` is that of the block at index `i`: the statements that follow its `{`, each
/// with its value and its range.
pub open spec fn block_is(s: Seq<char>, i: int, v: ast::Statement) -> bool
    decreases s.len() - i, 38int, 0int,
{
    &&& v matches ast::Statement::BlockStatement(b)
    &&& b.stmts.value.len() == stmts_count(s, i + 1)
    &&& i + 1 <= s.len()
    &&& forall|q: int|
        0 <= q < b.stmts.value.len() ==> listed_stmt_is(
            s,
            i + 1,
            q as nat,
            #[trigger] b.stmts.value@[q],
        )
}

/// The statement `st` is the `q`th of the list that starts at index `k`: it stands after the
/// space that follows the statements before it, with its value and its range.
#[verifier::opaque]
pub open spec fn listed_stmt_is(s: Seq<char>, k: int, q: nat, st: Parsed<ast::Statement>) -> bool
    decreases s.len() - k, 40int, 0int,
{
    let j = spec_space_end(s, stmt_list_start(s, k, q));
    &&& within(s, k, j)
    &&& stmt_is(s, j, st.value)
    &&& covers_listed_stmt(s, j, st)
}

/// The value `v` is that of the for statement at index `i`: which of its optional parts it
/// has, and its body.
pub open spec fn for_is(s: Seq<char>, i: int, v: ast::Statement) -> bool
    decreases s.len() - i, 38int, 0int,
{
    let (init, test, advance, h) = for_parts(s, i);
    &&& v matches ast::Statement::ForStatement(x)
    &&& (x.init is Some) == init
    &&& (x.test is Some) == test
    &&& (x.advance is Some) == advance
    &&& if within(s, i + 1, h) {
        stmt_is(s, h, x.stmt.value)
    } else {
        false
    }
}

/// The value `v` is that of the switch statement at index `i`: a switch with as many items as
/// follow its `{`.
pub open spec fn switch_is(s: Seq<char>, i: int, v: ast::Statement) -> bool
{
    &&& v matches ast::Statement::SwitchStatement(x)
    &&& x.items.value.len() == switch_items_count(s, switch_body_at(s, i))
    &&& expr_tree(s, cond_test_at(s, i, "switch"@), x.exp.value)
}

/// The value `v` is that of the function declaration at index `i`: its name, its parameters
/// and its body.
pub open spec fn function_decl_is(s: Seq<char>, i: int, v: ast::Statement) -> bool
    decreases s.len() - i, 38int, 0int,
{
    let h = function_body_at(s, i);
    &&& function_decl_value(s, i, v)
    &&& v matches ast::Statement::FunctionDeclStatement(f)
    &&& if within(s, i + 1, h) {
        block_is(s, h, f.body.value)
    } else {
        false
    }
}

/// The value `f` is that of the file at index `i`: its statements, each after space.
pub open spec fn file_is(s: Seq<char>, i: int, f: ast::File) -> bool {
    &&& f.items.len() == stmts_count(s, i)
    &&& file_items_match(s, i, f.items@)
}

/// The values `items` are those of the first statements of a file that follow index `k`, in
/// order.
pub open spec fn file_items_match(s: Seq<char>, k: int, items: Seq<Parsed<ast::FileItem>>) -> bool
    decreases items.len(),
{
    if items.len() == 0 {
        true
    } else {
        let j = spec_space_end(s, stmt_list_start(s, k, (items.len() - 1) as nat));
        &&& file_items_match(s, k, items.drop_last())
        &&& items.last().value matches ast::FileItem::Statement(st)
        &&& stmt_is(s, j, st)
        &&& covers_listed_stmt(s, j, items.last())
    }
}

/// A rule's result, ending at index `x`, or no result when `x` is `None`.
pub open spec fn ends_at<R>(new_p: PegParserImpl, res: Option<Parsed<R>>, x: Option<int>) -> bool {
    match x {
        Some(e) => res is Some && new_p.index() == e,
        None => res is None,
    }
}

//--------------------------------------------------
// The parser

pub struct Parser {}

impl Parser {
    pub fn new() -> (res: Self) {
        Self {}
    }

    /// A whole source file: statements separated by space, up to the end of the input.
    #[verifier::rlimit(40)]
    pub fn file(&self, p: &mut PegParserImpl) -> (res: Option<Parsed<ast::File>>)
        requires
            old(p).wf(),
        ensures
            rule_ok(*old(p), *final(p), res),
            spans(*old(p), *final(p), res),
            res is Some ==> final(p).spec_peek() is None,
            ends_at(*final(p), res, file_end(old(p).source(), old(p).index() as int)),
            res matches Some(r) ==> r.value.items.len() == stmts_count(old(p).source(), old(p).index() as int),
            res matches Some(r) ==> file_is(old(p).source(), old(p).index() as int, r.value),
    {
        let m = p.mark();
        let mut items: Vec<Parsed<ast::FileItem>> = Vec::new();
        let ghost src = old(p).source();
        let ghost k0 = old(p).index() as int;
        loop
            invariant_except_break
                stmts_end(src, k0) == stmts_end(src, p.index() as int),
                items.len() + stmts_count(src, p.index() as int) == stmts_count(src, k0),
                stmt_list_start(src, k0, items.len() as nat) == p.index(),
            invariant
                file_items_match(src, k0, items@),
                src == old(p).source(),
                p.wf(),
                p.source() == old(p).source(),
                old(p).index() <= p.index(),
                old(p).position() <= p.position(),
                old(p).mark_valid(m),
                m.index() == old(p).index(),
                m.position() == old(p).position(),
            ensures
                p.index() == stmts_end(src, k0),
                items.len() == stmts_count(src, k0),
            decreases p.remaining(),
        {
            let before = p.mark();
            let ghost bp = *p;
            self.opt_sp(p);
            match self.statement(p) {
                Some(s) => {
                    proof {
                        bp.lemma_position_mono(p);
                    }
                    if p.pos() == before.pos() {
                        break ;
                    }
                    let ghost done = items@;
                    let Parsed { range, value } = s;
                    items.push(Parsed { range, value: ast::FileItem::Statement(value) });
                    proof {
                        assert(items@.drop_last() =~= done);
                    }
                },
                None => {
                    break ;
                },
            }
        }
        self.opt_sp(p);
        if p.eof().is_none() {
            p.reset(m);
            return None;
        }
        Some(p.parsed_from(&m, ast::File { items }))
    }

    #[verifier::rlimit(80)]
    pub fn statement(&self, p: &mut PegParserImpl) -> (res: Option<Parsed<ast::Statement>>)
        requires
            old(p).wf(),
        ensures
            rule_ok(*old(p), *final(p), res),
            spans(*old(p), *final(p), res),
            ends_at(*final(p), res, stmt_end(old(p).source(), old(p).index() as int)),
            res matches Some(r) ==> stmt_is(old(p).source(), old(p).index() as int, r.value),
            ends_at(*final(p), res, next_stmt_end(old(p).source(), old(p).index() as int)),
        decreases old(p).remaining(), 70nat,
    {
        proof {
            reveal(stmt_form);
            reveal(simple_stmt_is);
            assert(next_stmt_end(old(p).source(), old(p).index() as int) == stmt_end(
                old(p).source(),
                old(p).index() as int,
            )) by {
                reveal(next_stmt_end);
            }
        }
        let m = p.mark();
        let r = if let Some(r) = self.empty_statement(p) {
            Some(r)
        } else if let Some(r) = self.expression_statement(p) {
            Some(r)
        } else if let Some(r) = self.if_statement(p) {
            Some(r)
        } else if let Some(r) = self.while_statement(p) {
            Some(r)
        } else if let Some(r) = self.return_statement(p) {
            Some(r)
        } else if let Some(r) = self.break_statement(p) {
            Some(r)
        } else if let Some(r) = self.continue_statement(p) {
            Some(r)
        } else if let Some(r) = self.block_statement(p) {
            Some(r)
        } else if let Some(r) = self.for_statement(p) {
            Some(r)
        } else if let Some(r) = self.switch_statement(p) {
            Some(r)
        } else if let Some(r) = self.var_decl_statement(p) {
            Some(r)
        } else if let Some(r) = self.function_decl_statement(p) {
            Some(r)
        } else {
            None
        };
        match r {
            Some(r) => Some(p.parsed_from(&m, r.value)),
            None => None,
        }
    }

    pub fn empty_statement(&self, p: &mut PegParserImpl) -> (res: Option<Parsed<ast::Statement>>)
        requires
            old(p).wf(),
        ensures
            rule_ok(*old(p), *final(p), res),
            spans(*old(p), *final(p), res),
            (res is Some) == (old(p).spec_peek() == Some(';')),
            res matches Some(r) ==> r.value == ast::Statement::EmptyStatement,
            ends_at(*final(p), res, if char_at(old(p).source(), old(p).index() as int) == Some(';') { Some(old(p).index() as int + 1) } else { None }),
    {
        match p.ch(';') {
            Some(r) => Some(r.with_value(ast::Statement::empty_statement())),
            None => None,
        }
    }

    pub fn expression_statement(&self, p: &mut PegParserImpl) -> (res: Option<
        Parsed<ast::Statement>,
    >)
        requires
            old(p).wf(),
        ensures
            rule_ok(*old(p), *final(p), res),
            spans(*old(p), *final(p), res),
            res matches Some(r) ==> r.value is ExpressionStatement,
            ends_at(*final(p), res, expr_stmt_end(old(p).source(), old(p).index() as int)),
            res matches Some(r) ==> r.value matches ast::Statement::ExpressionStatement(x) && expr_tree(
                old(p).source(),
                old(p).index() as int,
                x.exp.value,
            ),
            res matches Some(r) ==> r.value matches ast::Statement::ExpressionStatement(x) && range_is(
                old(p).source(),
                expr_span(old(p).source(), old(p).index() as int),
                x.exp.range,
            ),
        decreases old(p).remaining(), 59nat,
    {
        let m = p.mark();
        let exp = match self.expression(p) {
            Some(v) => v,
            None => {
                return None;
            },
        };
        self.opt_sp(p);
        if self.statement_end(p).is_none() {
            p.reset(m);
            return None;
        }
        Some(p.parsed_from(&m, ast::Statement::expression_statement(exp)))
    }

    /// `(opt_sp else opt_sp statement)`, the optional else branch of an if statement.
    fn else_clause(&self, p: &mut PegParserImpl) -> (res: Option<Parsed<ast::Statement>>)
        requires
            old(p).wf(),
        ensures
            rule_ok(*old(p), *final(p), res),
            spans(*old(p), *final(p), res),
            final(p).index() == else_end(old(p).source(), old(p).index() as int),
            res is Some <==> final(p).index() != old(p).index(),
            res matches Some(r) ==> stmt_is(old(p).source(), after_open(old(p).source(), old(p).index() as int, "else"@), r.value),
        decreases old(p).remaining(), 63nat,
    {
        let m = p.mark();
        self.opt_sp(p);
        proof {
            reveal_strlit("else");
        }
        if p.str("else").is_none() {
            p.reset(m);
            return None;
        }
        self.opt_sp(p);
        let stmt = match self.statement(p) {
            Some(s) => s.value,
            None => {
                p.reset(m);
                return None;
            },
        };
        Some(p.parsed_from(&m, stmt))
    }

    pub fn if_statement(&self, p: &mut PegParserImpl) -> (res: Option<Parsed<ast::Statement>>)
        requires
            old(p).wf(),
        ensures
            rule_ok(*old(p), *final(p), res),
            spans(*old(p), *final(p), res),
            res matches Some(r) ==> r.value is IfStatement,
            ends_at(*final(p), res, if_end(old(p).source(), old(p).index() as int)),
            res matches Some(r) ==> r.value matches ast::Statement::IfStatement(x) && (x.if_false is Some
                <==> if_has_else(old(p).source(), old(p).index() as int)),
            res matches Some(r) ==> if_is(old(p).source(), old(p).index() as int, r.value),
            res matches Some(r) ==> r.value matches ast::Statement::IfStatement(x) && range_is(
                old(p).source(),
                expr_span(old(p).source(), cond_test_at(old(p).source(), old(p).index() as int, "if"@)),
                x.test.range,
            ),
            res matches Some(r) ==> r.value matches ast::Statement::IfStatement(x) && covers_stmt(
                old(p).source(),
                if_parts(old(p).source(), old(p).index() as int).0,
                *x.if_true,
            ),
            res matches Some(r) ==> r.value matches ast::Statement::IfStatement(x) && (
            x.if_false matches Some(f) ==> {
                let k = if_parts(old(p).source(), old(p).index() as int).0;
                &&& stmt_end(old(p).source(), k) matches Some(t)
                &&& f.range.start == byte_at(old(p).source(), t)
                &&& f.range.end == byte_at(old(p).source(), else_end(old(p).source(), t))
            }),
        decreases old(p).remaining(), 63nat,
    {
        proof {
            reveal(if_parts);
        }
        let m = p.mark();
        proof {
            reveal_strlit("if");
            reveal_strlit("(");
            reveal(cond_test_at);
        }
        if p.str("if").is_none() {
            return None;
        }
        self.opt_sp(p);
        if p.str("(").is_none() {
            p.reset(m);
            return None;
        }
        self.opt_sp(p);
        let test = match self.expression(p) {
            Some(v) => v,
            None => {
                p.reset(m);
                return None;
            },
        };
        self.opt_sp(p);
        if p.str(")").is_none() {
            p.reset(m);
            return None;
        }
        self.opt_sp(p);
        let if_true = match self.statement(p) {
            Some(v) => v,
            None => {
                p.reset(m);
                return None;
            },
        };
        let if_false = self.else_clause(p);
        Some(p.parsed_from(&m, ast::Statement::if_statement(test, if_true, if_false)))
    }

    pub fn while_statement(&self, p: &mut PegParserImpl) -> (res: Option<Parsed<ast::Statement>>)
        requires
            old(p).wf(),
        ensures
            rule_ok(*old(p), *final(p), res),
            spans(*old(p), *final(p), res),
            res matches Some(r) ==> r.value is WhileStatement,
            ends_at(*final(p), res, while_end(old(p).source(), old(p).index() as int)),
            res matches Some(r) ==> while_is(old(p).source(), old(p).index() as int, r.value),
            res matches Some(r) ==> r.value matches ast::Statement::WhileStatement(x) && range_is(
                old(p).source(),
                expr_span(old(p).source(), cond_test_at(old(p).source(), old(p).index() as int, "while"@)),
                x.test.range,
            ),
            res matches Some(r) ==> r.value matches ast::Statement::WhileStatement(x) && covers_stmt(
                old(p).source(),
                while_body_at(old(p).source(), old(p).index() as int),
                *x.stmt,
            ),
        decreases old(p).remaining(), 63nat,
    {
        proof {
            reveal(while_body_at);
        }
        let m = p.mark();
        proof {
            reveal_strlit("while");
            reveal_strlit("(");
            reveal(cond_test_at);
        }
        if p.str("while").is_none() {
            return None;
        }
        self.opt_sp(p);
        if p.str("(").is_none() {
            p.reset(m);
            return None;
        }
        self.opt_sp(p);
        let test = match self.expression(p) {
            Some(v) => v,
            None => {
                p.reset(m);
                return None;
            },
        };
        self.opt_sp(p);
        if p.str(")").is_none() {
            p.reset(m);
            return None;
        }
        self.opt_sp(p);
        let stmt = match self.statement(p) {
            Some(v) => v,
            None => {
                p.reset(m);
                return None;
            },
        };
        Some(p.parsed_from(&m, ast::Statement::while_statement(test, stmt)))
    }

    /// `(opt_sp expression)`, the optional value of a return statement.
    fn return_value(&self, p: &mut PegParserImpl) -> (res: Option<Parsed<ast::Expression>>)
        requires
            old(p).wf(),
        ensures
            rule_ok(*old(p), *final(p), res),
            final(p).index() == or_here(expr_end(old(p).source(), spec_space_end(old(p).source(), old(p).index() as int)), old(p).index() as int),
            res is Some <==> expr_end(old(p).source(), spec_space_end(old(p).source(), old(p).index() as int)) is Some,
            res matches Some(r) ==> expr_tree(
                old(p).source(),
                spec_space_end(old(p).source(), old(p).index() as int),
                r.value,
            ),
            res matches Some(r) ==> range_is(
                old(p).source(),
                expr_span(old(p).source(), spec_space_end(old(p).source(), old(p).index() as int)),
                r.range,
            ),
        decreases old(p).remaining(), 59nat,
    {
        let m = p.mark();
        self.opt_sp(p);
        match self.expression(p) {
            Some(e) => Some(e),
            None => {
                p.reset(m);
                None
            },
        }
    }

    pub fn return_statement(&self, p: &mut PegParserImpl) -> (res: Option<Parsed<ast::Statement>>)
        requires
            old(p).wf(),
        ensures
            rule_ok(*old(p), *final(p), res),
            spans(*old(p), *final(p), res),
            res matches Some(r) ==> r.value is ReturnStatement,
            ends_at(*final(p), res, return_end(old(p).source(), old(p).index() as int)),
            res matches Some(r) ==> r.value matches ast::Statement::ReturnStatement(x) && (x.exp is Some
                <==> expr_end(
                old(p).source(),
                spec_space_end(old(p).source(), (old(p).index() + "return"@.len()) as int),
            ) is Some),
            res matches Some(r) ==> r.value matches ast::Statement::ReturnStatement(x) && (
            x.exp matches Some(e) ==> expr_tree(
                old(p).source(),
                spec_space_end(old(p).source(), (old(p).index() + "return"@.len()) as int),
                e.value,
            ) && range_is(
                old(p).source(),
                expr_span(
                    old(p).source(),
                    spec_space_end(old(p).source(), (old(p).index() + "return"@.len()) as int),
                ),
                e.range,
            )),
        decreases old(p).remaining(), 63nat,
    {
        let m = p.mark();
        if p.str("return").is_none() {
            return None;
        }
        let exp = self.return_value(p);
        if self.statement_end(p).is_none() {
            p.reset(m);
            return None;
        }
        Some(p.parsed_from(&m, ast::Statement::return_statement(exp)))
    }

    /// `(opt_sp identifier)`, the optional label of a break or continue statement.
    fn opt_label(&self, p: &mut PegParserImpl) -> (res: Option<Parsed<String>>)
        requires
            old(p).wf(),
        ensures
            rule_ok(*old(p), *final(p), res),
            opt_text(res) == spec_label_at(old(p).source(), old(p).index() as int).0,
            final(p).index() == spec_label_at(old(p).source(), old(p).index() as int).1,
    {
        let m = p.mark();
        self.opt_sp(p);
        match self.identifier(p) {
            Some(e) => Some(e),
            None => {
                p.reset(m);
                None
            },
        }
    }

    pub fn break_statement(&self, p: &mut PegParserImpl) -> (res: Option<Parsed<ast::Statement>>)
        requires
            old(p).wf(),
        ensures
            rule_ok(*old(p), *final(p), res),
            match spec_jump_at(old(p).source(), old(p).index() as int, "break"@) {
                Some((label, e)) => res matches Some(r) && {
                    &&& r.value matches ast::Statement::BreakStatement(x) && opt_text(x.label) == label
                    &&& r.range.start == old(p).position()
                    &&& r.range.end == final(p).position()
                    &&& final(p).index() == e
                },
                None => res is None,
            },
    {
        let m = p.mark();
        if p.str("break").is_none() {
            return None;
        }
        let label = self.opt_label(p);
        if self.statement_end(p).is_none() {
            p.reset(m);
            return None;
        }
        Some(p.parsed_from(&m, ast::Statement::break_statement(label)))
    }

    pub fn continue_statement(&self, p: &mut PegParserImpl) -> (res: Option<
        Parsed<ast::Statement>,
    >)
        requires
            old(p).wf(),
        ensures
            rule_ok(*old(p), *final(p), res),
            match spec_jump_at(old(p).source(), old(p).index() as int, "continue"@) {
                Some((label, e)) => res matches Some(r) && {
                    &&& r.value matches ast::Statement::ContinueStatement(x) && opt_text(x.label) == label
                    &&& r.range.start == old(p).position()
                    &&& r.range.end == final(p).position()
                    &&& final(p).index() == e
                },
                None => res is None,
            },
    {
        let m = p.mark();
        if p.str("continue").is_none() {
            return None;
        }
        let label = self.opt_label(p);
        if self.statement_end(p).is_none() {
            p.reset(m);
            return None;
        }
        Some(p.parsed_from(&m, ast::Statement::continue_statement(label)))
    }

    /// `(opt_sp statement)*`: statements, each after optional space.
    #[verifier::rlimit(40)]
    fn statement_list(&self, p: &mut PegParserImpl) -> (res: Parsed<Vec<Parsed<ast::Statement>>>)
        requires
            old(p).wf(),
        ensures
            body_ok(*old(p), *final(p), Some(res)),
            final(p).index() == stmts_end(old(p).source(), old(p).index() as int),
            res.value.len() == stmts_count(old(p).source(), old(p).index() as int),
            forall|q: int|
                0 <= q < res.value.len() ==> listed_stmt_is(
                    old(p).source(),
                    old(p).index() as int,
                    q as nat,
                    #[trigger] res.value@[q],
                ),
        decreases old(p).remaining(), 71nat,
    {
        let m = p.mark();
        let mut stmts: Vec<Parsed<ast::Statement>> = Vec::new();
        let ghost src = old(p).source();
        let ghost k0 = old(p).index() as int;
        loop
            invariant_except_break
                stmts_end(src, k0) == stmts_end(src, p.index() as int),
                stmts.len() + stmts_count(src, p.index() as int) == stmts_count(src, k0),
                stmt_list_start(src, k0, stmts.len() as nat) == p.index(),
            invariant
                forall|q: int|
                    0 <= q < stmts.len() ==> listed_stmt_is(src, k0, q as nat, #[trigger] stmts@[q]),
                src == old(p).source(),
                p.wf(),
                p.source() == old(p).source(),
                old(p).index() <= p.index(),
                old(p).position() <= p.position(),
                m.position() == old(p).position(),
                k0 == old(p).index(),
            ensures
                p.index() == stmts_end(src, k0),
                stmts.len() == stmts_count(src, k0),
            decreases p.remaining(),
        {
            let before = p.mark();
            let ghost bp = *p;
            self.opt_sp(p);
            let ghost j = p.index() as int;
            let ghost done = stmts@;
            match self.statement(p) {
                Some(s) => {
                    proof {
                        bp.lemma_position_mono(p);
                    }
                    if p.pos() == before.pos() {
                        break ;
                    }
                    let ghost sv = s;
                    stmts.push(s);
                    proof {
                        lemma_stmts_push(src, k0, done, sv, bp.index() as int, p.index() as int);
                        assert(stmts@ == done.push(sv));
                    }
                },
                None => {
                    break ;
                },
            }
        }
        p.parsed_from(&m, stmts)
    }

    pub fn block_statement(&self, p: &mut PegParserImpl) -> (res: Option<Parsed<ast::Statement>>)
        requires
            old(p).wf(),
        ensures
            rule_ok(*old(p), *final(p), res),
            spans(*old(p), *final(p), res),
            res matches Some(r) ==> r.value is BlockStatement,
            ends_at(*final(p), res, block_end(old(p).source(), old(p).index() as int)),
            res matches Some(r) ==> r.value matches ast::Statement::BlockStatement(b) && b.stmts.value.len()
                == stmts_count(old(p).source(), (old(p).index() + "{"@.len()) as int),
            res matches Some(r) ==> block_is(old(p).source(), old(p).index() as int, r.value),
        decreases old(p).remaining(), 63nat,
    {
        let m = p.mark();
        proof {
            reveal_strlit("{");
        }
        if p.str("{").is_none() {
            return None;
        }
        let ghost k = p.index() as int;
        let stmts = self.statement_list(p);
        proof {
            assert(k == old(p).index() + 1);
            assert(k <= old(p).source().len());
        }
        self.opt_sp(p);
        if p.str("}").is_none() {
            p.reset(m);
            return None;
        }
        let value = ast::Statement::block_statement(stmts);
        proof {
            let b = value->BlockStatement_0;
            assert(b.stmts.value@ == stmts.value@);
            lemma_block_is_intro(old(p).source(), old(p).index() as int, value, stmts.value@);
        }
        Some(p.parsed_from(&m, value))
    }

    /// The initializer of a for statement: a variable declaration or an expression.
    fn for_init(&self, p: &mut PegParserImpl) -> (res: Option<Parsed<ast::ForInit>>)
        requires
            old(p).wf(),
        ensures
            rule_ok(*old(p), *final(p), res),
            spans(*old(p), *final(p), res),
            ends_at(*final(p), res, for_init_end(old(p).source(), old(p).index() as int)),
            res matches Some(r) ==> (r.value is VarDecl <==> var_decl_end(old(p).source(), old(p).index() as int) is Some),
            res matches Some(r) ==> (r.value matches ast::ForInit::VarDecl(d) ==> var_decl_value(
                old(p).source(),
                old(p).index() as int,
                d.value,
            )),
            res matches Some(r) ==> (r.value matches ast::ForInit::Expression(e) ==> expr_tree(
                old(p).source(),
                old(p).index() as int,
                e.value,
            )),
        decreases old(p).remaining(), 62nat,
    {
        let m = p.mark();
        if let Some(r) = self.var_decl(p) {
            Some(p.parsed_from(&m, ast::ForInit::VarDecl(r)))
        } else if let Some(r) = self.expression(p) {
            Some(p.parsed_from(&m, ast::ForInit::Expression(r)))
        } else {
            None
        }
    }

    #[verifier::spinoff_prover]
    #[verifier::rlimit(40)]
    pub fn for_statement(&self, p: &mut PegParserImpl) -> (res: Option<Parsed<ast::Statement>>)
        requires
            old(p).wf(),
        ensures
            rule_ok(*old(p), *final(p), res),
            spans(*old(p), *final(p), res),
            res matches Some(r) ==> r.value is ForStatement,
            ends_at(*final(p), res, for_end(old(p).source(), old(p).index() as int)),
            res matches Some(r) ==> {
                &&& r.value matches ast::Statement::ForStatement(x)
                &&& for_head(old(p).source(), old(p).index() as int) matches Some((init, test, advance, h))
                &&& (x.init is Some) == init
                &&& (x.test is Some) == test
                &&& (x.advance is Some) == advance
            },
            res matches Some(r) ==> for_is(old(p).source(), old(p).index() as int, r.value),
            res matches Some(r) ==> r.value matches ast::Statement::ForStatement(x) && covers_stmt(
                old(p).source(),
                for_parts(old(p).source(), old(p).index() as int).3,
                *x.stmt,
            ),
            res matches Some(r) ==> r.value matches ast::Statement::ForStatement(x) && {
                &&& x.init matches Some(n) ==> (n.value matches ast::ForInit::Expression(e)
                    ==> expr_tree(
                    old(p).source(),
                    cond_test_at(old(p).source(), old(p).index() as int, "for"@),
                    e.value,
                ))
                &&& x.init matches Some(n) ==> (n.value matches ast::ForInit::VarDecl(d)
                    ==> var_decl_value(
                    old(p).source(),
                    cond_test_at(old(p).source(), old(p).index() as int, "for"@),
                    d.value,
                ))
                &&& x.test matches Some(t) ==> expr_tree(
                    old(p).source(),
                    for_test_at(old(p).source(), old(p).index() as int),
                    t.value,
                ) && range_is(
                    old(p).source(),
                    expr_span(old(p).source(), for_test_at(old(p).source(), old(p).index() as int)),
                    t.range,
                )
                &&& x.advance matches Some(a) ==> expr_tree(
                    old(p).source(),
                    for_advance_at(old(p).source(), old(p).index() as int),
                    a.value,
                ) && range_is(
                    old(p).source(),
                    expr_span(old(p).source(), for_advance_at(old(p).source(), old(p).index() as int)),
                    a.range,
                )
            },
        decreases old(p).remaining(), 63nat,
    {
        proof {
            reveal(for_parts);
            reveal(cond_test_at);
            reveal_strlit("(");
            reveal_strlit(";");
        }
        let m = p.mark();
        proof {
            reveal_strlit("for");
        }
        if p.str("for").is_none() {
            return None;
        }
        self.opt_sp(p);
        if p.str("(").is_none() {
            p.reset(m);
            return None;
        }
        self.opt_sp(p);
        let init = self.for_init(p);
        self.opt_sp(p);
        if p.str(";").is_none() {
            p.reset(m);
            return None;
        }
        self.opt_sp(p);
        let test = self.expression(p);
        self.opt_sp(p);
        if p.str(";").is_none() {
            p.reset(m);
            return None;
        }
        self.opt_sp(p);
        let advance = self.expression(p);
        self.opt_sp(p);
        if p.str(")").is_none() {
            p.reset(m);
            return None;
        }
        self.opt_sp(p);
        let stmt = match self.statement(p) {
            Some(v) => v,
            None => {
                p.reset(m);
                return None;
            },
        };
        Some(p.parsed_from(&m, ast::Statement::for_statement(init, test, advance, stmt)))
    }

    /// `default opt_sp :`
    fn switch_default(&self, p: &mut PegParserImpl) -> (res: Option<Parsed<ast::SwitchItem>>)
        requires
            old(p).wf(),
        ensures
            rule_ok(*old(p), *final(p), res),
            spans(*old(p), *final(p), res),
            ends_at(*final(p), res, default_end(old(p).source(), old(p).index() as int)),
            res matches Some(r) ==> r.value is Default,
    {
        let m = p.mark();
        if p.str("default").is_none() {
            return None;
        }
        self.opt_sp(p);
        if p.str(":").is_none() {
            p.reset(m);
            return None;
        }
        Some(p.parsed_from(&m, ast::SwitchItem::Default))
    }

    /// `case opt_sp expression opt_sp :`
    fn switch_case(&self, p: &mut PegParserImpl) -> (res: Option<Parsed<ast::SwitchItem>>)
        requires
            old(p).wf(),
        ensures
            rule_ok(*old(p), *final(p), res),
            spans(*old(p), *final(p), res),
            ends_at(*final(p), res, case_end(old(p).source(), old(p).index() as int)),
            res matches Some(r) ==> r.value is Case,
            res matches Some(r) ==> r.value matches ast::SwitchItem::Case(e) && expr_tree(
                old(p).source(),
                spec_space_end(old(p).source(), old(p).index() + "case"@.len() as int),
                e.value,
            ),
        decreases old(p).remaining(), 63nat,
    {
        proof {
            reveal_strlit("case");
        }
        let m = p.mark();
        if p.str("case").is_none() {
            return None;
        }
        self.opt_sp(p);
        let cexp = match self.expression(p) {
            Some(v) => v,
            None => {
                p.reset(m);
                return None;
            },
        };
        self.opt_sp(p);
        if p.str(":").is_none() {
            p.reset(m);
            return None;
        }
        Some(p.parsed_from(&m, ast::SwitchItem::Case(cexp)))
    }

    /// `opt_sp statement`, a statement in the body of a switch.
    fn switch_body_statement(&self, p: &mut PegParserImpl) -> (res: Option<
        Parsed<ast::SwitchItem>,
    >)
        requires
            old(p).wf(),
        ensures
            rule_ok(*old(p), *final(p), res),
            spans(*old(p), *final(p), res),
            ends_at(*final(p), res, stmt_end(old(p).source(), spec_space_end(old(p).source(), old(p).index() as int))),
            res matches Some(r) ==> r.value is Statement,
            res matches Some(r) ==> r.value matches ast::SwitchItem::Statement(st) && stmt_is(old(p).source(), spec_space_end(old(p).source(), old(p).index() as int), st.value),
        decreases old(p).remaining(), 71nat,
    {
        let m = p.mark();
        self.opt_sp(p);
        match self.statement(p) {
            Some(stmt) => Some(p.parsed_from(&m, ast::SwitchItem::Statement(stmt))),
            None => {
                p.reset(m);
                None
            },
        }
    }

    /// One item of a switch body, after optional space.
    fn switch_item(&self, p: &mut PegParserImpl) -> (res: Option<Parsed<ast::SwitchItem>>)
        requires
            old(p).wf(),
        ensures
            body_ok(*old(p), *final(p), res),
            ends_at(*final(p), res, switch_item_end(old(p).source(), old(p).index() as int)),
            res is None ==> final(p).index() == spec_space_end(old(p).source(), old(p).index() as int),
            res matches Some(r) ==> ({
                let j = spec_space_end(old(p).source(), old(p).index() as int);
                &&& (r.value is Default <==> default_end(old(p).source(), j) is Some)
                &&& (r.value is Case <==> default_end(old(p).source(), j) is None && case_end(
                    old(p).source(),
                    j,
                ) is Some)
            }),
            res matches Some(r) ==> switch_item_is(old(p).source(), old(p).index() as int, r.value),
        decreases old(p).remaining(), 72nat,
    {
        let ghost src = old(p).source();
        let ghost k = old(p).index() as int;
        self.opt_sp(p);
        let ghost j = p.index() as int;
        if let Some(r) = self.switch_default(p) {
            Some(r)
        } else if let Some(r) = self.switch_case(p) {
            Some(r)
        } else {
            proof {
                lemma_space_end_bounds(src, j);
            }
            self.switch_body_statement(p)
        }
    }

    /// `switch_item*`
    #[verifier::rlimit(40)]
    fn switch_items(&self, p: &mut PegParserImpl) -> (res: Parsed<Vec<Parsed<ast::SwitchItem>>>)
        requires
            old(p).wf(),
        ensures
            body_ok(*old(p), *final(p), Some(res)),
            final(p).index() == switch_items_end(old(p).source(), old(p).index() as int),
            res.value.len() == switch_items_count(old(p).source(), old(p).index() as int),
            forall|q: int|
                0 <= q < res.value.len() ==> switch_item_is(
                    old(p).source(),
                    switch_item_start(old(p).source(), old(p).index() as int, q as nat),
                    (#[trigger] res.value@[q]).value,
                ),
        decreases old(p).remaining(), 73nat,
    {
        let m = p.mark();
        let mut items: Vec<Parsed<ast::SwitchItem>> = Vec::new();
        let ghost src = old(p).source();
        let ghost k0 = old(p).index() as int;
        loop
            invariant_except_break
                switch_items_end(src, k0) == switch_items_end(src, p.index() as int),
                items.len() + switch_items_count(src, p.index() as int) == switch_items_count(src, k0),
                switch_item_start(src, k0, items.len() as nat) == p.index(),
            invariant
                forall|q: int|
                    0 <= q < items.len() ==> switch_item_is(
                        src,
                        switch_item_start(src, k0, q as nat),
                        (#[trigger] items@[q]).value,
                    ),
                src == old(p).source(),
                p.wf(),
                p.source() == old(p).source(),
                old(p).index() <= p.index(),
                old(p).position() <= p.position(),
                m.position() == old(p).position(),
            ensures
                p.index() == switch_items_end(src, k0),
                items.len() == switch_items_count(src, k0),
            decreases p.remaining(),
        {
            let before = p.mark();
            let ghost bp = *p;
            let ghost done = items@;
            match self.switch_item(p) {
                Some(s) => {
                    proof {
                        bp.lemma_position_mono(p);
                    }
                    if p.pos() == before.pos() {
                        break ;
                    }
                    let ghost sv = s;
                    items.push(s);
                    proof {
                        lemma_switch_items_push(src, k0, done, sv, bp.index() as int, p.index() as int);
                        assert(items@ == done.push(sv));
                    }
                },
                None => {
                    break ;
                },
            }
        }
        p.parsed_from(&m, items)
    }

    pub fn switch_statement(&self, p: &mut PegParserImpl) -> (res: Option<
        Parsed<ast::Statement>,
    >)
        requires
            old(p).wf(),
        ensures
            rule_ok(*old(p), *final(p), res),
            spans(*old(p), *final(p), res),
            res matches Some(r) ==> r.value is SwitchStatement,
            ends_at(*final(p), res, switch_end(old(p).source(), old(p).index() as int)),
            res matches Some(r) ==> switch_is(old(p).source(), old(p).index() as int, r.value),
            res matches Some(r) ==> r.value matches ast::Statement::SwitchStatement(x) && range_is(
                old(p).source(),
                expr_span(old(p).source(), cond_test_at(old(p).source(), old(p).index() as int, "switch"@)),
                x.exp.range,
            ),
            res matches Some(r) ==> r.value matches ast::Statement::SwitchStatement(x) && forall|q: int|
                0 <= q < x.items.value.len() ==> switch_item_is(
                    old(p).source(),
                    switch_item_start(
                        old(p).source(),
                        switch_body_at(old(p).source(), old(p).index() as int),
                        q as nat,
                    ),
                    (#[trigger] x.items.value@[q]).value,
                ),
        decreases old(p).remaining(), 63nat,
    {
        proof {
            reveal(switch_body_at);
        }
        let m = p.mark();
        proof {
            reveal_strlit("switch");
            reveal_strlit("(");
            reveal(cond_test_at);
        }
        if p.str("switch").is_none() {
            return None;
        }
        self.opt_sp(p);
        if p.str("(").is_none() {
            p.reset(m);
            return None;
        }
        self.opt_sp(p);
        let exp = match self.expression(p) {
            Some(v) => v,
            None => {
                p.reset(m);
                return None;
            },
        };
        self.opt_sp(p);
        if p.str(")").is_none() {
            p.reset(m);
            return None;
        }
        self.opt_sp(p);
        if p.str("{").is_none() {
            p.reset(m);
            return None;
        }
        let items = self.switch_items(p);
        self.opt_sp(p);
        if p.str("}").is_none() {
            p.reset(m);
            return None;
        }
        Some(p.parsed_from(&m, ast::Statement::switch_statement(exp, items)))
    }

    /// The keyword of a variable declaration: `let` or `var` declare a variable, `const` a
    /// constant.
    fn let_or_const(&self, p: &mut PegParserImpl) -> (res: Option<Parsed<ast::LetOrConst>>)
        requires
            old(p).wf(),
        ensures
            rule_ok(*old(p), *final(p), res),
            spans(*old(p), *final(p), res),
            res is Some ==> old(p).index() < final(p).index(),
            ends_at(*final(p), res, decl_keyword_end(old(p).source(), old(p).index() as int)),
            res matches Some(r) ==> decl_keyword_at(old(p).source(), old(p).index() as int) matches Some(
                (kw, e),
            ) && r.value == kw,
    {
        proof {
            reveal_strlit("let");
            reveal_strlit("const");
            reveal_strlit("var");
        }
        if let Some(r) = p.str("let") {
            Some(r.with_value(ast::LetOrConst::Let))
        } else if let Some(r) = p.str("const") {
            Some(r.with_value(ast::LetOrConst::Const))
        } else if let Some(r) = p.str("var") {
            Some(r.with_value(ast::LetOrConst::Let))
        } else {
            None
        }
    }

    /// `(opt_sp = opt_sp expression)`, the optional initializer of a declaration.
    fn var_init(&self, p: &mut PegParserImpl) -> (res: Option<Parsed<ast::Expression>>)
        requires
            old(p).wf(),
        ensures
            rule_ok(*old(p), *final(p), res),
            spans(*old(p), *final(p), res),
            final(p).index() == var_init_end(old(p).source(), old(p).index() as int),
            res is Some ==> old(p).index() < final(p).index(),
            res matches Some(r) ==> expr_tree(
                old(p).source(),
                after_open(old(p).source(), old(p).index() as int, "="@),
                r.value,
            ),
        decreases old(p).remaining(), 60nat,
    {
        proof {
            reveal_strlit("=");
        }
        let m = p.mark();
        self.opt_sp(p);
        if p.str("=").is_none() {
            p.reset(m);
            return None;
        }
        self.opt_sp(p);
        let exp = match self.expression(p) {
            Some(v) => v.value,
            None => {
                p.reset(m);
                return None;
            },
        };
        Some(p.parsed_from(&m, exp))
    }

    pub fn var_decl(&self, p: &mut PegParserImpl) -> (res: Option<Parsed<ast::Statement>>)
        requires
            old(p).wf(),
        ensures
            rule_ok(*old(p), *final(p), res),
            spans(*old(p), *final(p), res),
            res matches Some(r) ==> r.value is VarDeclStatement,
            ends_at(*final(p), res, var_decl_end(old(p).source(), old(p).index() as int)),
            res matches Some(r) ==> var_decl_value(old(p).source(), old(p).index() as int, r.value),
        decreases old(p).remaining(), 61nat,
    {
        let m = p.mark();
        let kw = match self.let_or_const(p) {
            Some(k) => k,
            None => {
                return None;
            },
        };
        self.opt_sp(p);
        let name = match self.identifier(p) {
            Some(v) => v,
            None => {
                p.reset(m);
                return None;
            },
        };
        let init = self.var_init(p);
        Some(p.parsed_from(&m, ast::Statement::var_decl_statement(kw, name, init)))
    }

    pub fn var_decl_statement(&self, p: &mut PegParserImpl) -> (res: Option<
        Parsed<ast::Statement>,
    >)
        requires
            old(p).wf(),
        ensures
            rule_ok(*old(p), *final(p), res),
            spans(*old(p), *final(p), res),
            res matches Some(r) ==> r.value is VarDeclStatement,
            ends_at(*final(p), res, var_decl_stmt_end(old(p).source(), old(p).index() as int)),
            res matches Some(r) ==> var_decl_value(old(p).source(), old(p).index() as int, r.value),
        decreases old(p).remaining(), 62nat,
    {
        let m = p.mark();
        let stmt = match self.var_decl(p) {
            Some(v) => v.value,
            None => {
                return None;
            },
        };
        self.opt_sp(p);
        if self.statement_end(p).is_none() {
            p.reset(m);
            return None;
        }
        Some(p.parsed_from(&m, stmt))
    }

    /// `(, opt_sp)?`, an optional trailing comma.
    fn opt_trailing_comma(&self, p: &mut PegParserImpl)
        requires
            old(p).wf(),
        ensures
            body_ok(*old(p), *final(p), None::<Parsed<()>>),
            final(p).index() == trailing_comma_end(old(p).source(), old(p).index() as int),
    {
        if p.str(",").is_some() {
            self.opt_sp(p);
        }
    }

    pub fn function_decl_statement(&self, p: &mut PegParserImpl) -> (res: Option<
        Parsed<ast::Statement>,
    >)
        requires
            old(p).wf(),
        ensures
            rule_ok(*old(p), *final(p), res),
            spans(*old(p), *final(p), res),
            res matches Some(r) ==> r.value is FunctionDeclStatement,
            ends_at(*final(p), res, function_decl_end(old(p).source(), old(p).index() as int)),
            res matches Some(r) ==> function_decl_value(old(p).source(), old(p).index() as int, r.value),
            res matches Some(r) ==> function_decl_is(old(p).source(), old(p).index() as int, r.value),
            res matches Some(r) ==> r.value matches ast::Statement::FunctionDeclStatement(x) && {
                let a = spec_space_end(old(p).source(), old(p).index() + "function"@.len() as int);
                let h = function_body_at(old(p).source(), old(p).index() as int);
                &&& x.name.range.start == byte_at(old(p).source(), a)
                &&& x.name.range.end == byte_at(old(p).source(), ident_end(old(p).source(), a + 1))
                &&& x.body.range.start == byte_at(old(p).source(), h)
                &&& block_end(old(p).source(), h) matches Some(e) && x.body.range.end == byte_at(
                    old(p).source(),
                    e,
                )
            },
        decreases old(p).remaining(), 63nat,
    {
        proof {
            reveal(function_body_at);
        }
        let m = p.mark();
        if p.str("function").is_none() {
            return None;
        }
        self.opt_sp(p);
        let name = match self.identifier(p) {
            Some(v) => v,
            None => {
                p.reset(m);
                return None;
            },
        };
        self.opt_sp(p);
        if p.str("(").is_none() {
            p.reset(m);
            return None;
        }
        let args = self.function_decl_args(p);
        self.opt_sp(p);
        self.opt_trailing_comma(p);
        if p.str(")").is_none() {
            p.reset(m);
            return None;
        }
        self.opt_sp(p);
        let stmt = match self.block_statement(p) {
            Some(v) => v,
            None => {
                p.reset(m);
                return None;
            },
        };
        Some(p.parsed_from(&m, ast::Statement::function_decl_statement(name, args, stmt)))
    }

    pub fn function_decl_arg(&self, p: &mut PegParserImpl) -> (res: Option<
        Parsed<ast::FunctionDeclArg>,
    >)
        requires
            old(p).wf(),
        ensures
            rule_ok(*old(p), *final(p), res),
            spans(*old(p), *final(p), res),
            ends_at(*final(p), res, arg_end(old(p).source(), old(p).index() as int)),
            res matches Some(r) ==> r.value.name.value@ == arg_name(old(p).source(), old(p).index() as int),
    {
        let m = p.mark();
        self.opt_sp(p);
        let name = match self.identifier(p) {
            Some(v) => v,
            None => {
                p.reset(m);
                return None;
            },
        };
        Some(p.parsed_from(&m, ast::FunctionDeclArg { name }))
    }

    /// `opt_sp , opt_sp function_decl_arg`, an argument after the first.
    fn function_decl_next_arg(&self, p: &mut PegParserImpl) -> (res: Option<
        Parsed<ast::FunctionDeclArg>,
    >)
        requires
            old(p).wf(),
        ensures
            body_ok(*old(p), *final(p), res),
            ({
                let j = spec_space_end(old(p).source(), old(p).index() as int);
                if str_at(old(p).source(), j, ","@) {
                    let j2 = spec_space_end(old(p).source(), j + ","@.len());
                    match arg_end(old(p).source(), j2) {
                        Some(e) => res matches Some(r) && final(p).index() == e && r.value.name.value@
                            == arg_name(old(p).source(), j2),
                        None => res is None && final(p).index() == j2,
                    }
                } else {
                    res is None && final(p).index() == j
                }
            }),
    {
        self.opt_sp(p);
        if p.str(",").is_none() {
            return None;
        }
        self.opt_sp(p);
        self.function_decl_arg(p)
    }

    /// The arguments of a function declaration; always succeeds, possibly with no arguments.
    pub fn function_decl_args(&self, p: &mut PegParserImpl) -> (res: Parsed<
        Vec<Parsed<ast::FunctionDeclArg>>,
    >)
        requires
            old(p).wf(),
        ensures
            body_ok(*old(p), *final(p), Some(res)),
            final(p).index() == args_end(old(p).source(), old(p).index() as int),
            res.value@.map_values(|x: Parsed<ast::FunctionDeclArg>| x.value.name.value@) == args_names(
                old(p).source(),
                old(p).index() as int,
            ),
    {
        let m = p.mark();
        match self.function_decl_arg(p) {
            Some(first) => {
                let m2 = p.mark();
                let mut rest: Vec<Parsed<ast::FunctionDeclArg>> = Vec::new();
                let ghost src = old(p).source();
                let ghost k0 = p.index() as int;
                loop
                    invariant_except_break
                        args_rest_end(src, k0) == args_rest_end(src, p.index() as int),
                        rest@.map_values(|x: Parsed<ast::FunctionDeclArg>| x.value.name.value@)
                            + args_rest_names(src, p.index() as int) == args_rest_names(src, k0),
                    invariant
                        src == old(p).source(),
                        p.wf(),
                        p.source() == old(p).source(),
                        old(p).index() <= p.index(),
                        old(p).position() <= p.position(),
                        m.position() == old(p).position(),
                        old(p).position() <= m2.position() <= p.position(),
                    ensures
                        p.index() == args_rest_end(src, k0),
                        rest@.map_values(|x: Parsed<ast::FunctionDeclArg>| x.value.name.value@)
                            == args_rest_names(src, k0),
                    decreases p.remaining(),
                {
                    let before = p.mark();
                    let ghost bp = *p;
                    match self.function_decl_next_arg(p) {
                        Some(a) => {
                            proof {
                                bp.lemma_position_mono(p);
                            }
                            if p.pos() == before.pos() {
                                break ;
                            }
                            rest.push(a);
                        },
                        None => {
                            break ;
                        },
                    }
                }
                let rest = p.parsed_from(&m2, rest);
                let all = first_and_rest(first, rest);
                p.parsed_from(&m, all)
            },
            None => p.parsed_from(&m, Vec::new()),
        }
    }

    pub fn expression(&self, p: &mut PegParserImpl) -> (res: Option<Parsed<ast::Expression>>)
        requires
            old(p).wf(),
        ensures
            rule_ok(*old(p), *final(p), res),
            ends_at(*final(p), res, expr_end(old(p).source(), old(p).index() as int)),
            res matches Some(r) ==> expr_tree(old(p).source(), old(p).index() as int, r.value),
            res matches Some(r) ==> range_is(old(p).source(), expr_span(old(p).source(), old(p).index() as int), r.range),
        decreases old(p).remaining(), 58nat,
    {
        let res = self.comma_expression(p);
        proof {
            if res is Some {
                lemma_expr_tree_intro(old(p).source(), old(p).index() as int, res->0.value);
            }
        }
        res
    }

    /// `opt_sp , opt_sp ternary_expression`, backtracking.
    fn comma_next(&self, p: &mut PegParserImpl) -> (res: Option<Parsed<ast::Expression>>)
        requires
            old(p).wf(),
        ensures
            rule_ok(*old(p), *final(p), res),
            ends_at(*final(p), res, comma_next_end(old(p).source(), old(p).index() as int)),
            res matches Some(r) ==> ternary_tree(
                old(p).source(),
                after_open(old(p).source(), old(p).index() as int, ","@),
                r.value,
            ),
            res matches Some(r) ==> range_is(
                old(p).source(),
                ternary_span(old(p).source(), after_open(old(p).source(), old(p).index() as int, ","@)),
                r.range,
            ),
        decreases old(p).remaining(), 53nat,
    {
        let m = p.mark();
        self.opt_sp(p);
        proof {
            reveal_strlit(",");
        }
        if p.str(",").is_none() {
            p.reset(m);
            return None;
        }
        self.opt_sp(p);
        match self.ternary_expression(p) {
            Some(e) => Some(e),
            None => {
                p.reset(m);
                None
            },
        }
    }

    #[verifier::rlimit(30)]
    pub fn comma_expression(&self, p: &mut PegParserImpl) -> (res: Option<
        Parsed<ast::Expression>,
    >)
        requires
            old(p).wf(),
        ensures
            rule_ok(*old(p), *final(p), res),
            ends_at(*final(p), res, comma_end(old(p).source(), old(p).index() as int)),
            res matches Some(r) ==> match binary_end(
                old(p).source(),
                BinaryLevel::Assignment,
                old(p).index() as int,
            ) {
                Some(k) => comma_count(old(p).source(), k) > 0 ==> {
                    &&& r.value matches ast::Expression::CommaExpression(c)
                    &&& c.exps.len() == comma_count(old(p).source(), k) + 1
                },
                None => true,
            },
            res matches Some(r) ==> comma_tree(old(p).source(), old(p).index() as int, r.value),
            res matches Some(r) ==> range_is(old(p).source(), comma_span(old(p).source(), old(p).index() as int), r.range),
        decreases old(p).remaining(), 57nat,
    {
        let m = p.mark();
        let first = match self.assignment_expression(p) {
            Some(v) => v,
            None => {
                return None;
            },
        };
        let m2 = p.mark();
        let mut rest: Vec<Parsed<ast::Expression>> = Vec::new();
        let ghost src = old(p).source();
        let ghost k0 = p.index() as int;
        loop
            invariant
                p.wf(),
                p.source() == old(p).source(),
                old(p).index() <= p.index(),
                old(p).position() <= p.position(),
                m.position() == old(p).position(),
                old(p).position() <= first.range.start <= first.range.end <= m2.position()
                    <= p.position(),
                src == old(p).source(),
                comma_rest_end(src, k0) == comma_rest_end(src, p.index() as int),
                rest.len() + comma_count(src, p.index() as int) == comma_count(src, k0),
                comma_part_start(src, k0, rest.len() as nat) == p.index(),
                forall|q: int|
                    0 <= q < rest.len() ==> comma_part_is(src, comma_part_start(src, k0, q as nat), #[trigger] rest@[q]),
            ensures
                comma_rest_end(src, p.index() as int) == p.index(),
                comma_count(src, p.index() as int) == 0,
            decreases p.remaining(),
        {
            let before = p.mark();
            let ghost bp = *p;
            let ghost done = rest@;
            match self.comma_next(p) {
                Some(e) => {
                    proof {
                        bp.lemma_position_mono(p);
                    }
                    if p.pos() == before.pos() {
                        break ;
                    }
                    let ghost ev = e;
                    rest.push(e);
                    proof {
                        lemma_comma_parts_push(src, k0, done, ev, bp.index() as int, p.index() as int);
                        assert(rest@ == done.push(ev));
                    }
                },
                None => {
                    break ;
                },
            }
        }
        if rest.len() == 0 {
            proof {
                lemma_comma_tree_intro(src, old(p).index() as int, first.value);
            }
            Some(first)
        } else {
            let rest = p.parsed_from(&m2, rest);
            let exps = first_and_rest(first, rest);
            proof {
                assert forall|q: int| 0 < q < exps@.len() implies comma_part_is(
                    src,
                    comma_part_start(src, k0, (q - 1) as nat),
                    #[trigger] exps@[q],
                ) by {
                    assert(exps@[q] == rest.value@[q - 1]);
                }
            }
            let value = ast::Expression::comma_expression(exps);
            proof {
                lemma_comma_tree_intro(src, old(p).index() as int, value);
            }
            Some(p.parsed_from(&m, value))
        }
    }

    /// Tries each operator string in turn.
    fn op_str<R: Copy>(&self, p: &mut PegParserImpl, op_strs: &[(&'static str, R)]) -> (res:
        Option<Parsed<R>>)
        requires
            old(p).wf(),
        ensures
            rule_ok(*old(p), *final(p), res),
            res is Some ==> old(p).index() <= final(p).index(),
            match first_op_at(old(p).source(), old(p).index() as int, op_strs@, 0) {
                Some(k) => res matches Some(r) && {
                    &&& r.value == op_strs@[k].1
                    &&& r.range.start == old(p).position()
                    &&& r.range.end == final(p).position()
                    &&& final(p).index() == old(p).index() + op_strs@[k].0@.len()
                },
                None => res is None,
            },
    {
        let mut i: usize = 0;
        while i < op_strs.len()
            invariant
                p.wf(),
                p.source() == old(p).source(),
                p.index() == old(p).index(),
                i <= op_strs@.len(),
                first_op_at(old(p).source(), old(p).index() as int, op_strs@, 0) == first_op_at(
                    old(p).source(),
                    old(p).index() as int,
                    op_strs@,
                    i as int,
                ),
            decreases op_strs@.len() - i,
        {
            let (s, r) = op_strs[i];
            if let Some(parsed) = p.str(s) {
                return Some(parsed.with_value(r));
            }
            i = i + 1;
        }
        None
    }

    /// The operand rule of a binary level: the next tighter level.
    fn binary_operand(&self, p: &mut PegParserImpl, level: BinaryLevel) -> (res: Option<
        Parsed<ast::Expression>,
    >)
        requires
            old(p).wf(),
        ensures
            rule_ok(*old(p), *final(p), res),
            ends_at(*final(p), res, operand_end(old(p).source(), level, old(p).index() as int)),
            res matches Some(r) ==> operand_tree(old(p).source(), level, old(p).index() as int, r.value),
            res matches Some(r) ==> range_is(old(p).source(), operand_span(old(p).source(), level, old(p).index() as int), r.range),
        decreases old(p).remaining(), operand_rank(level),
    {
        let res = match level {
            BinaryLevel::Assignment => self.ternary_expression(p),
            BinaryLevel::LogicalOr => self.logical_and_expression(p),
            BinaryLevel::LogicalAnd => self.bitwise_or_expression(p),
            BinaryLevel::BitwiseOr => self.bitwise_xor_expression(p),
            BinaryLevel::BitwiseXor => self.bitwise_and_expression(p),
            BinaryLevel::BitwiseAnd => self.equality_expression(p),
            BinaryLevel::Equality => self.relational_expression(p),
            BinaryLevel::Relational => self.bitshift_expression(p),
            BinaryLevel::Bitshift => self.add_expression(p),
            BinaryLevel::Add => self.mult_expression(p),
            BinaryLevel::Mult => self.unary_expression(p),
        };
        proof {
            if res is Some {
                lemma_operand_tree_intro(old(p).source(), level, old(p).index() as int, res->0.value);
            }
        }
        res
    }

    /// `opt_sp op opt_sp operand`, backtracking.
    fn binary_term(&self, p: &mut PegParserImpl, level: BinaryLevel) -> (res: Option<
        Parsed<ast::BinaryExpressionTerm>,
    >)
        requires
            old(p).wf(),
        ensures
            rule_ok(*old(p), *final(p), res),
            ends_at(*final(p), res, binary_term_end(old(p).source(), level, old(p).index() as int)),
            res matches Some(r) ==> str_at(
                old(p).source(),
                spec_space_end(old(p).source(), old(p).index() as int),
                binary_op_text(r.value.op.value),
            ),
            res matches Some(r) ==> first_op_at(
                old(p).source(),
                spec_space_end(old(p).source(), old(p).index() as int),
                spec_binary_ops(level),
                0,
            ) matches Some(x) && r.value.op.value == spec_binary_ops(level)[x].1,
            res matches Some(r) ==> operand_tree(
                old(p).source(),
                level,
                binary_operand_start(old(p).source(), level, old(p).index() as int),
                r.value.exp.value,
            ),
            spans(*old(p), *final(p), res),
            res matches Some(r) ==> range_is(
                old(p).source(),
                (
                    spec_space_end(old(p).source(), old(p).index() as int),
                    or_here(
                        op_end(
                            old(p).source(),
                            spec_space_end(old(p).source(), old(p).index() as int),
                            spec_binary_ops(level),
                        ),
                        spec_space_end(old(p).source(), old(p).index() as int),
                    ),
                ),
                r.value.op.range,
            ),
            res matches Some(r) ==> range_is(
                old(p).source(),
                operand_span(
                    old(p).source(),
                    level,
                    binary_operand_start(old(p).source(), level, old(p).index() as int),
                ),
                r.value.exp.range,
            ),
        decreases old(p).remaining(), operand_rank(level) + 1,
    {
        let m = p.mark();
        self.opt_sp(p);
        let ghost j = p.index() as int;
        let op = match self.op_str(p, binary_ops(level)) {
            Some(op) => op,
            None => {
                p.reset(m);
                return None;
            },
        };
        proof {
            let src = old(p).source();
            lemma_first_op_at(src, j, spec_binary_ops(level), 0);
            lemma_binary_table_texts(level, first_op_at(src, j, spec_binary_ops(level), 0)->0);
        }
        self.opt_sp(p);
        let exp = match self.binary_operand(p, level) {
            Some(e) => e,
            None => {
                p.reset(m);
                return None;
            },
        };
        Some(p.parsed_from(&m, ast::BinaryExpressionTerm { op, exp: Box::new(exp) }))
    }

    /// `operand opt_sp (opt_sp op opt_sp operand)*`, folded into a binary expression when
    /// there is at least one operator.
    #[verifier::rlimit(30)]
    fn binary_expression(&self, p: &mut PegParserImpl, level: BinaryLevel) -> (res: Option<
        Parsed<ast::Expression>,
    >)
        requires
            old(p).wf(),
        ensures
            rule_ok(*old(p), *final(p), res),
            ends_at(*final(p), res, binary_end(old(p).source(), level, old(p).index() as int)),
            res matches Some(r) ==> binary_value(old(p).source(), level, old(p).index() as int, r.value),
            res matches Some(r) ==> binary_tree(old(p).source(), level, old(p).index() as int, r.value),
            res matches Some(r) ==> range_is(old(p).source(), binary_span(old(p).source(), level, old(p).index() as int), r.range),
        decreases old(p).remaining(), operand_rank(level) + 2,
    {
        let m = p.mark();
        let first = match self.binary_operand(p, level) {
            Some(v) => v,
            None => {
                return None;
            },
        };
        let ghost k_first = p.index() as int;
        self.opt_sp(p);
        let mut rest: Vec<Parsed<ast::BinaryExpressionTerm>> = Vec::new();
        let ghost src = old(p).source();
        let ghost k0 = p.index() as int;
        loop
            invariant
                p.wf(),
                p.source() == old(p).source(),
                old(p).index() <= p.index(),
                old(p).position() <= p.position(),
                m.position() == old(p).position(),
                old(p).position() <= first.range.start <= first.range.end <= p.position(),
                src == old(p).source(),
                binary_rest_end(src, level, k0) == binary_rest_end(src, level, p.index() as int),
                rest@.map_values(|t: Parsed<ast::BinaryExpressionTerm>| t.value.op.value)
                    + binary_rest_ops(src, level, p.index() as int) == binary_rest_ops(src, level, k0),
                binary_term_start(src, level, k0, rest.len() as nat) == p.index(),
                forall|q: int|
                    0 <= q < rest.len() ==> binary_term_at(src, level, k0, q as nat, #[trigger] rest@[q]),
            ensures
                binary_rest_end(src, level, p.index() as int) == p.index(),
                rest@.map_values(|t: Parsed<ast::BinaryExpressionTerm>| t.value.op.value)
                    == binary_rest_ops(src, level, k0),
            decreases p.remaining(),
        {
            let before = p.mark();
            let ghost bp = *p;
            let ghost done = rest@;
            match self.binary_term(p, level) {
                Some(t) => {
                    proof {
                        bp.lemma_position_mono(p);
                    }
                    if p.pos() == before.pos() {
                        break ;
                    }
                    let ghost tv = t;
                    proof {
                        assert(binary_term_start(src, level, k0, (done.len() + 1) as nat) == p.index());
                        lemma_binary_term_at_intro(src, level, k0, done.len() as nat, tv);
                    }
                    rest.push(t);
                    proof {
                        assert forall|q: int| 0 <= q < rest.len() implies binary_term_at(
                            src,
                            level,
                            k0,
                            q as nat,
                            #[trigger] rest@[q],
                        ) by {
                            if q < done.len() {
                                assert(rest@[q] == done[q]);
                            } else {
                                assert(rest@[q] == tv);
                            }
                        }
                    }
                },
                None => {
                    break ;
                },
            }
        }
        proof {
            let ops = binary_rest_ops(src, level, k0);
            assert forall|q: int| 0 <= q < rest.len() implies (#[trigger] rest@[q]).value.op.value
                == ops[q] by {
                assert(rest@.map_values(|t: Parsed<ast::BinaryExpressionTerm>| t.value.op.value)[q]
                    == rest@[q].value.op.value);
            }
        }
        if rest.len() == 0 {
            proof {
                lemma_binary_tree_intro(src, level, old(p).index() as int, first.value);
            }
            Some(first)
        } else {
            let value = ast::Expression::binary_expression(first, rest);
            proof {
                lemma_binary_tree_intro(src, level, old(p).index() as int, value);
            }
            Some(p.parsed_from(&m, value))
        }
    }

    pub fn assignment_expression(&self, p: &mut PegParserImpl) -> (res: Option<
        Parsed<ast::Expression>,
    >)
        requires
            old(p).wf(),
        ensures
            rule_ok(*old(p), *final(p), res),
            ends_at(*final(p), res, binary_end(old(p).source(), BinaryLevel::Assignment, old(p).index() as int)),
            res matches Some(r) ==> binary_value(old(p).source(), BinaryLevel::Assignment, old(p).index() as int, r.value),
            res matches Some(r) ==> binary_tree(old(p).source(), BinaryLevel::Assignment, old(p).index() as int, r.value),
            res matches Some(r) ==> range_is(old(p).source(), binary_span(old(p).source(), BinaryLevel::Assignment, old(p).index() as int), r.range),
        decreases old(p).remaining(), 56nat,
    {
        self.binary_expression(p, BinaryLevel::Assignment)
    }

    #[verifier::rlimit(30)]
    pub fn ternary_expression(&self, p: &mut PegParserImpl) -> (res: Option<
        Parsed<ast::Expression>,
    >)
        requires
            old(p).wf(),
        ensures
            rule_ok(*old(p), *final(p), res),
            ends_at(*final(p), res, ternary_end(old(p).source(), old(p).index() as int)),
            res matches Some(r) ==> (ternary_count(old(p).source(), old(p).index() as int) > 0 ==> {
                &&& r.value matches ast::Expression::TernaryExpression(t)
                &&& t.terms.len() == ternary_count(old(p).source(), old(p).index() as int)
            }),
            res matches Some(r) ==> ternary_tree(old(p).source(), old(p).index() as int, r.value),
            res matches Some(r) ==> range_is(old(p).source(), ternary_span(old(p).source(), old(p).index() as int), r.range),
        decreases old(p).remaining(), 52nat,
    {
        let m = p.mark();
        let mut terms: Vec<Parsed<ast::TernaryExpressionTerm>> = Vec::new();
        let ghost src = old(p).source();
        let ghost k0 = p.index() as int;
        loop
            invariant
                p.wf(),
                p.source() == old(p).source(),
                old(p).index() <= p.index(),
                old(p).position() <= p.position(),
                m.position() == old(p).position(),
                m.index() == old(p).index(),
                old(p).mark_valid(m),
                src == old(p).source(),
                ternary_terms_end(src, k0) == ternary_terms_end(src, p.index() as int),
                terms.len() + ternary_count(src, p.index() as int) == ternary_count(src, k0),
                ternary_term_start(src, k0, terms.len() as nat) == p.index(),
                forall|q: int|
                    0 <= q < terms.len() ==> ternary_term_at(src, k0, q as nat, #[trigger] terms@[q]),
            ensures
                ternary_terms_end(src, p.index() as int) == p.index(),
                ternary_count(src, p.index() as int) == 0,
            decreases p.remaining(),
        {
            let before = p.mark();
            let ghost bp = *p;
            let ghost done = terms@;
            match self.ternary_expression_term(p) {
                Some(t) => {
                    proof {
                        bp.lemma_position_mono(p);
                    }
                    if p.pos() == before.pos() {
                        break ;
                    }
                    let ghost tv = t;
                    proof {
                        assert(ternary_term_start(src, k0, (done.len() + 1) as nat) == p.index());
                        lemma_ternary_term_at_intro(src, k0, done.len() as nat, tv);
                    }
                    terms.push(t);
                    proof {
                        assert forall|q: int| 0 <= q < terms.len() implies ternary_term_at(
                            src,
                            k0,
                            q as nat,
                            #[trigger] terms@[q],
                        ) by {
                            if q < done.len() {
                                assert(terms@[q] == done[q]);
                            } else {
                                assert(terms@[q] == tv);
                            }
                        }
                    }
                },
                None => {
                    break ;
                },
            }
        }
        self.opt_sp(p);
        let if_false = match self.logical_or_expression(p) {
            Some(v) => v,
            None => {
                p.reset(m);
                return None;
            },
        };
        if terms.len() == 0 {
            proof {
                lemma_ternary_tree_intro(src, old(p).index() as int, if_false.value);
            }
            Some(if_false)
        } else {
            let value = ast::Expression::ternary_expression(terms, if_false);
            proof {
                lemma_ternary_tree_intro(src, old(p).index() as int, value);
            }
            Some(p.parsed_from(&m, value))
        }
    }

    pub fn ternary_expression_term(&self, p: &mut PegParserImpl) -> (res: Option<
        Parsed<ast::TernaryExpressionTerm>,
    >)
        requires
            old(p).wf(),
        ensures
            rule_ok(*old(p), *final(p), res),
            ends_at(*final(p), res, ternary_term_end(old(p).source(), old(p).index() as int)),
            res matches Some(r) ==> binary_tree(
                old(p).source(),
                BinaryLevel::LogicalOr,
                old(p).index() as int,
                r.value.test.value,
            ),
            res matches Some(r) ==> binary_tree(
                old(p).source(),
                BinaryLevel::LogicalOr,
                ternary_if_true_start(old(p).source(), old(p).index() as int),
                r.value.if_true.value,
            ),
            spans(*old(p), *final(p), res),
            res matches Some(r) ==> range_is(
                old(p).source(),
                binary_span(old(p).source(), BinaryLevel::LogicalOr, old(p).index() as int),
                r.value.test.range,
            ),
            res matches Some(r) ==> range_is(
                old(p).source(),
                binary_span(
                    old(p).source(),
                    BinaryLevel::LogicalOr,
                    ternary_if_true_start(old(p).source(), old(p).index() as int),
                ),
                r.value.if_true.range,
            ),
        decreases old(p).remaining(), 51nat,
    {
        let m = p.mark();
        let test = match self.logical_or_expression(p) {
            Some(v) => v,
            None => {
                return None;
            },
        };
        self.opt_sp(p);
        if p.str("?").is_none() {
            p.reset(m);
            return None;
        }
        self.opt_sp(p);
        let if_true = match self.logical_or_expression(p) {
            Some(v) => v,
            None => {
                p.reset(m);
                return None;
            },
        };
        self.opt_sp(p);
        if p.str(":").is_none() {
            p.reset(m);
            return None;
        }
        self.opt_sp(p);
        let value = ast::TernaryExpressionTerm { test: Box::new(test), if_true: Box::new(if_true) };
        Some(p.parsed_from(&m, value))
    }

    pub fn logical_or_expression(&self, p: &mut PegParserImpl) -> (res: Option<
        Parsed<ast::Expression>,
    >)
        requires
            old(p).wf(),
        ensures
            rule_ok(*old(p), *final(p), res),
            ends_at(*final(p), res, binary_end(old(p).source(), BinaryLevel::LogicalOr, old(p).index() as int)),
            res matches Some(r) ==> binary_value(old(p).source(), BinaryLevel::LogicalOr, old(p).index() as int, r.value),
            res matches Some(r) ==> binary_tree(old(p).source(), BinaryLevel::LogicalOr, old(p).index() as int, r.value),
            res matches Some(r) ==> range_is(old(p).source(), binary_span(old(p).source(), BinaryLevel::LogicalOr, old(p).index() as int), r.range),
        decreases old(p).remaining(), 50nat,
    {
        self.binary_expression(p, BinaryLevel::LogicalOr)
    }

    pub fn logical_and_expression(&self, p: &mut PegParserImpl) -> (res: Option<
        Parsed<ast::Expression>,
    >)
        requires
            old(p).wf(),
        ensures
            rule_ok(*old(p), *final(p), res),
            ends_at(*final(p), res, binary_end(old(p).source(), BinaryLevel::LogicalAnd, old(p).index() as int)),
            res matches Some(r) ==> binary_value(old(p).source(), BinaryLevel::LogicalAnd, old(p).index() as int, r.value),
            res matches Some(r) ==> binary_tree(old(p).source(), BinaryLevel::LogicalAnd, old(p).index() as int, r.value),
            res matches Some(r) ==> range_is(old(p).source(), binary_span(old(p).source(), BinaryLevel::LogicalAnd, old(p).index() as int), r.range),
        decreases old(p).remaining(), 46nat,
    {
        self.binary_expression(p, BinaryLevel::LogicalAnd)
    }

    pub fn bitwise_or_expression(&self, p: &mut PegParserImpl) -> (res: Option<
        Parsed<ast::Expression>,
    >)
        requires
            old(p).wf(),
        ensures
            rule_ok(*old(p), *final(p), res),
            ends_at(*final(p), res, binary_end(old(p).source(), BinaryLevel::BitwiseOr, old(p).index() as int)),
            res matches Some(r) ==> binary_value(old(p).source(), BinaryLevel::BitwiseOr, old(p).index() as int, r.value),
            res matches Some(r) ==> binary_tree(old(p).source(), BinaryLevel::BitwiseOr, old(p).index() as int, r.value),
            res matches Some(r) ==> range_is(old(p).source(), binary_span(old(p).source(), BinaryLevel::BitwiseOr, old(p).index() as int), r.range),
        decreases old(p).remaining(), 42nat,
    {
        self.binary_expression(p, BinaryLevel::BitwiseOr)
    }

    pub fn bitwise_xor_expression(&self, p: &mut PegParserImpl) -> (res: Option<
        Parsed<ast::Expression>,
    >)
        requires
            old(p).wf(),
        ensures
            rule_ok(*old(p), *final(p), res),
            ends_at(*final(p), res, binary_end(old(p).source(), BinaryLevel::BitwiseXor, old(p).index() as int)),
            res matches Some(r) ==> binary_value(old(p).source(), BinaryLevel::BitwiseXor, old(p).index() as int, r.value),
            res matches Some(r) ==> binary_tree(old(p).source(), BinaryLevel::BitwiseXor, old(p).index() as int, r.value),
            res matches Some(r) ==> range_is(old(p).source(), binary_span(old(p).source(), BinaryLevel::BitwiseXor, old(p).index() as int), r.range),
        decreases old(p).remaining(), 38nat,
    {
        self.binary_expression(p, BinaryLevel::BitwiseXor)
    }

    pub fn bitwise_and_expression(&self, p: &mut PegParserImpl) -> (res: Option<
        Parsed<ast::Expression>,
    >)
        requires
            old(p).wf(),
        ensures
            rule_ok(*old(p), *final(p), res),
            ends_at(*final(p), res, binary_end(old(p).source(), BinaryLevel::BitwiseAnd, old(p).index() as int)),
            res matches Some(r) ==> binary_value(old(p).source(), BinaryLevel::BitwiseAnd, old(p).index() as int, r.value),
            res matches Some(r) ==> binary_tree(old(p).source(), BinaryLevel::BitwiseAnd, old(p).index() as int, r.value),
            res matches Some(r) ==> range_is(old(p).source(), binary_span(old(p).source(), BinaryLevel::BitwiseAnd, old(p).index() as int), r.range),
        decreases old(p).remaining(), 34nat,
    {
        self.binary_expression(p, BinaryLevel::BitwiseAnd)
    }

    pub fn equality_expression(&self, p: &mut PegParserImpl) -> (res: Option<
        Parsed<ast::Expression>,
    >)
        requires
            old(p).wf(),
        ensures
            rule_ok(*old(p), *final(p), res),
            ends_at(*final(p), res, binary_end(old(p).source(), BinaryLevel::Equality, old(p).index() as int)),
            res matches Some(r) ==> binary_value(old(p).source(), BinaryLevel::Equality, old(p).index() as int, r.value),
            res matches Some(r) ==> binary_tree(old(p).source(), BinaryLevel::Equality, old(p).index() as int, r.value),
            res matches Some(r) ==> range_is(old(p).source(), binary_span(old(p).source(), BinaryLevel::Equality, old(p).index() as int), r.range),
        decreases old(p).remaining(), 30nat,
    {
        self.binary_expression(p, BinaryLevel::Equality)
    }

    pub fn relational_expression(&self, p: &mut PegParserImpl) -> (res: Option<
        Parsed<ast::Expression>,
    >)
        requires
            old(p).wf(),
        ensures
            rule_ok(*old(p), *final(p), res),
            ends_at(*final(p), res, binary_end(old(p).source(), BinaryLevel::Relational, old(p).index() as int)),
            res matches Some(r) ==> binary_value(old(p).source(), BinaryLevel::Relational, old(p).index() as int, r.value),
            res matches Some(r) ==> binary_tree(old(p).source(), BinaryLevel::Relational, old(p).index() as int, r.value),
            res matches Some(r) ==> range_is(old(p).source(), binary_span(old(p).source(), BinaryLevel::Relational, old(p).index() as int), r.range),
        decreases old(p).remaining(), 26nat,
    {
        self.binary_expression(p, BinaryLevel::Relational)
    }

    pub fn bitshift_expression(&self, p: &mut PegParserImpl) -> (res: Option<
        Parsed<ast::Expression>,
    >)
        requires
            old(p).wf(),
        ensures
            rule_ok(*old(p), *final(p), res),
            ends_at(*final(p), res, binary_end(old(p).source(), BinaryLevel::Bitshift, old(p).index() as int)),
            res matches Some(r) ==> binary_value(old(p).source(), BinaryLevel::Bitshift, old(p).index() as int, r.value),
            res matches Some(r) ==> binary_tree(old(p).source(), BinaryLevel::Bitshift, old(p).index() as int, r.value),
            res matches Some(r) ==> range_is(old(p).source(), binary_span(old(p).source(), BinaryLevel::Bitshift, old(p).index() as int), r.range),
        decreases old(p).remaining(), 22nat,
    {
        self.binary_expression(p, BinaryLevel::Bitshift)
    }

    pub fn add_expression(&self, p: &mut PegParserImpl) -> (res: Option<Parsed<ast::Expression>>)
        requires
            old(p).wf(),
        ensures
            rule_ok(*old(p), *final(p), res),
            ends_at(*final(p), res, binary_end(old(p).source(), BinaryLevel::Add, old(p).index() as int)),
            res matches Some(r) ==> binary_value(old(p).source(), BinaryLevel::Add, old(p).index() as int, r.value),
            res matches Some(r) ==> binary_tree(old(p).source(), BinaryLevel::Add, old(p).index() as int, r.value),
            res matches Some(r) ==> range_is(old(p).source(), binary_span(old(p).source(), BinaryLevel::Add, old(p).index() as int), r.range),
        decreases old(p).remaining(), 18nat,
    {
        self.binary_expression(p, BinaryLevel::Add)
    }

    pub fn mult_expression(&self, p: &mut PegParserImpl) -> (res: Option<
        Parsed<ast::Expression>,
    >)
        requires
            old(p).wf(),
        ensures
            rule_ok(*old(p), *final(p), res),
            ends_at(*final(p), res, binary_end(old(p).source(), BinaryLevel::Mult, old(p).index() as int)),
            res matches Some(r) ==> binary_value(old(p).source(), BinaryLevel::Mult, old(p).index() as int, r.value),
            res matches Some(r) ==> binary_tree(old(p).source(), BinaryLevel::Mult, old(p).index() as int, r.value),
            res matches Some(r) ==> range_is(old(p).source(), binary_span(old(p).source(), BinaryLevel::Mult, old(p).index() as int), r.range),
        decreases old(p).remaining(), 14nat,
    {
        self.binary_expression(p, BinaryLevel::Mult)
    }

    /// `opt_sp unary_op`
    fn unary_op(&self, p: &mut PegParserImpl) -> (res: Option<Parsed<ast::UnaryOp>>)
        requires
            old(p).wf(),
        ensures
            body_ok(*old(p), *final(p), res),
            ({
                let j = spec_space_end(old(p).source(), old(p).index() as int);
                match op_end(old(p).source(), j, spec_unary_ops()) {
                    Some(e) => res is Some && final(p).index() == e,
                    None => res is None && final(p).index() == j,
                }
            }),
            res matches Some(r) ==> first_op_at(
                old(p).source(),
                spec_space_end(old(p).source(), old(p).index() as int),
                spec_unary_ops(),
                0,
            ) matches Some(x) && r.value == spec_unary_ops()[x].1,
            res matches Some(r) ==> range_is(
                old(p).source(),
                (spec_space_end(old(p).source(), old(p).index() as int), final(p).index() as int),
                r.range,
            ),
            res matches Some(r) ==> str_at(
                old(p).source(),
                spec_space_end(old(p).source(), old(p).index() as int),
                unary_op_text(r.value),
            ),
    {
        self.opt_sp(p);
        let ghost j = p.index() as int;
        let res = self.op_str(p, unary_ops());
        proof {
            if res is Some {
                let src = old(p).source();
                lemma_first_op_at(src, j, spec_unary_ops(), 0);
                lemma_unary_table_texts(first_op_at(src, j, spec_unary_ops(), 0)->0);
            }
        }
        res
    }

    pub fn unary_expression(&self, p: &mut PegParserImpl) -> (res: Option<
        Parsed<ast::Expression>,
    >)
        requires
            old(p).wf(),
        ensures
            rule_ok(*old(p), *final(p), res),
            ends_at(*final(p), res, unary_end(old(p).source(), old(p).index() as int)),
            res matches Some(r) ==> (unary_ops_seq(old(p).source(), old(p).index() as int).len() > 0
                ==> {
                &&& r.value matches ast::Expression::UnaryExpression(u)
                &&& u.ops@.map_values(|o: Parsed<ast::UnaryOp>| o.value) == unary_ops_seq(
                    old(p).source(),
                    old(p).index() as int,
                )
            }),
            res matches Some(r) ==> unary_tree(old(p).source(), old(p).index() as int, r.value),
            res matches Some(r) ==> range_is(old(p).source(), unary_span(old(p).source(), old(p).index() as int), r.range),
        decreases old(p).remaining(), 6nat,
    {
        let m = p.mark();
        let mut ops: Vec<Parsed<ast::UnaryOp>> = Vec::new();
        let ghost src = old(p).source();
        let ghost k0 = p.index() as int;
        loop
            invariant_except_break
                unary_ops_end(src, k0) == unary_ops_end(src, p.index() as int),
                ops@.map_values(|o: Parsed<ast::UnaryOp>| o.value) + unary_ops_seq(src, p.index() as int)
                    == unary_ops_seq(src, k0),
                unary_op_start(src, k0, ops.len() as nat) == p.index(),
            invariant
                forall|q: int|
                    0 <= q < ops.len() ==> range_is(
                        src,
                        (
                            spec_space_end(src, unary_op_start(src, k0, q as nat)),
                            unary_op_start(src, k0, (q + 1) as nat),
                        ),
                        (#[trigger] ops@[q]).range,
                    ),
                p.wf(),
                p.source() == old(p).source(),
                old(p).index() <= p.index(),
                old(p).position() <= p.position(),
                m.position() == old(p).position(),
                m.index() == old(p).index(),
                old(p).mark_valid(m),
                src == old(p).source(),
            ensures
                p.index() == unary_ops_end(src, k0),
                ops@.map_values(|o: Parsed<ast::UnaryOp>| o.value) == unary_ops_seq(src, k0),
            decreases p.remaining(),
        {
            let before = p.mark();
            let ghost bp = *p;
            proof {
                lemma_space_end_bounds(src, p.index() as int);
            }
            match self.unary_op(p) {
                Some(op) => {
                    proof {
                        bp.lemma_position_mono(p);
                    }
                    if p.pos() == before.pos() {
                        break ;
                    }
                    let ghost done = ops@;
                    let ghost ov = op;
                    proof {
                        assert(unary_op_start(src, k0, (done.len() + 1) as nat) == p.index());
                    }
                    ops.push(op);
                    proof {
                        assert forall|q: int| 0 <= q < ops.len() implies range_is(
                            src,
                            (
                                spec_space_end(src, unary_op_start(src, k0, q as nat)),
                                unary_op_start(src, k0, (q + 1) as nat),
                            ),
                            (#[trigger] ops@[q]).range,
                        ) by {
                            if q < done.len() {
                                assert(ops@[q] == done[q]);
                            } else {
                                assert(ops@[q] == ov);
                            }
                        }
                    }
                },
                None => {
                    break ;
                },
            }
        }
        self.opt_sp(p);
        let exp = match self.member_expression(p) {
            Some(v) => v,
            None => {
                p.reset(m);
                return None;
            },
        };
        if ops.len() == 0 {
            proof {
                lemma_unary_tree_intro(src, old(p).index() as int, exp.value);
            }
            Some(exp)
        } else {
            let value = ast::Expression::unary_expression(ops, exp);
            proof {
                lemma_unary_tree_intro(src, old(p).index() as int, value);
            }
            Some(p.parsed_from(&m, value))
        }
    }

    /// One member operation: `.name`, `(args)`, `[index]` or `!`.
    fn member_op(&self, p: &mut PegParserImpl) -> (res: Option<Parsed<ast::MemberOp>>)
        requires
            old(p).wf(),
        ensures
            rule_ok(*old(p), *final(p), res),
            ends_at(*final(p), res, member_op_end(old(p).source(), old(p).index() as int)),
            res matches Some(r) ==> member_op_value(old(p).source(), old(p).index() as int, r.value),
            res matches Some(r) ==> member_op_tree(old(p).source(), old(p).index() as int, r.value),
            spans(*old(p), *final(p), res),
        decreases old(p).remaining(), 3nat,
    {
        if let Some(r) = self.dot_access(p) {
            proof {
                lemma_member_op_tree_intro(old(p).source(), old(p).index() as int, r.value);
            }
            Some(r)
        } else if let Some(r) = self.function_call(p) {
            proof {
                lemma_member_op_tree_intro(old(p).source(), old(p).index() as int, r.value);
            }
            Some(r)
        } else if let Some(r) = self.index_access(p) {
            proof {
                lemma_member_op_tree_intro(old(p).source(), old(p).index() as int, r.value);
            }
            Some(r)
        } else if let Some(r) = self.non_null_assert(p) {
            proof {
                lemma_member_op_tree_intro(old(p).source(), old(p).index() as int, r.value);
            }
            Some(r)
        } else {
            None
        }
    }

    #[verifier::rlimit(30)]
    pub fn member_expression(&self, p: &mut PegParserImpl) -> (res: Option<
        Parsed<ast::Expression>,
    >)
        requires
            old(p).wf(),
        ensures
            rule_ok(*old(p), *final(p), res),
            ends_at(*final(p), res, member_end(old(p).source(), old(p).index() as int)),
            res matches Some(r) ==> match grouping_end(old(p).source(), old(p).index() as int) {
                Some(g) => member_ops_count(old(p).source(), g) > 0 ==> {
                    &&& r.value matches ast::Expression::MemberExpression(m)
                    &&& m.rest.len() == member_ops_count(old(p).source(), g)
                    &&& forall|n: int|
                        0 <= n < m.rest.len() ==> member_op_value(
                            old(p).source(),
                            member_op_start(old(p).source(), g, n as nat),
                            #[trigger] m.rest@[n].value,
                        )
                },
                None => true,
            },
            res matches Some(r) ==> member_tree(old(p).source(), old(p).index() as int, r.value),
            res matches Some(r) ==> range_is(old(p).source(), (old(p).index() as int, or_here(member_end(old(p).source(), old(p).index() as int), old(p).index() as int)), r.range),
        decreases old(p).remaining(), 5nat,
    {
        let m = p.mark();
        let first = match self.grouping_expression(p) {
            Some(v) => v,
            None => {
                p.reset(m);
                return None;
            },
        };
        let mut rest: Vec<Parsed<ast::MemberOp>> = Vec::new();
        let ghost src = old(p).source();
        let ghost k0 = p.index() as int;
        loop
            invariant
                p.wf(),
                p.source() == old(p).source(),
                old(p).index() <= p.index(),
                old(p).position() <= p.position(),
                m.position() == old(p).position(),
                old(p).position() <= first.range.start <= first.range.end <= p.position(),
                src == old(p).source(),
                member_ops_end(src, k0) == member_ops_end(src, p.index() as int),
                rest.len() + member_ops_count(src, p.index() as int) == member_ops_count(src, k0),
                member_op_start(src, k0, rest.len() as nat) == p.index(),
                forall|n: int|
                    0 <= n < rest.len() ==> member_op_value(
                        src,
                        member_op_start(src, k0, n as nat),
                        #[trigger] rest@[n].value,
                    ),
                forall|n: int|
                    0 <= n < rest.len() ==> member_op_tree(
                        src,
                        member_op_start(src, k0, n as nat),
                        #[trigger] rest@[n].value,
                    ),
                forall|n: int|
                    0 <= n < rest.len() ==> range_is(
                        src,
                        (member_op_start(src, k0, n as nat), member_op_start(src, k0, (n + 1) as nat)),
                        (#[trigger] rest@[n]).range,
                    ),
            ensures
                member_ops_end(src, p.index() as int) == p.index(),
                member_ops_count(src, p.index() as int) == 0,
            decreases p.remaining(),
        {
            let before = p.mark();
            let ghost bp = *p;
            let ghost done = rest@;
            match self.member_op(p) {
                Some(op) => {
                    proof {
                        bp.lemma_position_mono(p);
                    }
                    if p.pos() == before.pos() {
                        break ;
                    }
                    proof {
                        assert(member_op_start(src, k0, (done.len() + 1) as nat) == p.index());
                    }
                    rest.push(op);
                    proof {
                        assert forall|n: int| 0 <= n < rest.len() implies member_op_value(
                            src,
                            member_op_start(src, k0, n as nat),
                            #[trigger] rest@[n].value,
                        ) by {
                            if n < done.len() {
                                assert(rest@[n] == done[n]);
                            }
                        }
                        assert forall|n: int| 0 <= n < rest.len() implies member_op_tree(
                            src,
                            member_op_start(src, k0, n as nat),
                            #[trigger] rest@[n].value,
                        ) by {
                            if n < done.len() {
                                assert(rest@[n] == done[n]);
                            }
                        }
                        assert forall|n: int| 0 <= n < rest.len() implies range_is(
                            src,
                            (member_op_start(src, k0, n as nat), member_op_start(src, k0, (n + 1) as nat)),
                            (#[trigger] rest@[n]).range,
                        ) by {
                            if n < done.len() {
                                assert(rest@[n] == done[n]);
                            }
                        }
                    }
                },
                None => {
                    break ;
                },
            }
        }
        if rest.len() == 0 {
            proof {
                lemma_member_tree_intro(src, old(p).index() as int, first.value);
            }
            Some(first)
        } else {
            let value = ast::Expression::member_expression(first, rest);
            proof {
                lemma_member_tree_intro(src, old(p).index() as int, value);
            }
            Some(p.parsed_from(&m, value))
        }
    }

    pub fn dot_access(&self, p: &mut PegParserImpl) -> (res: Option<Parsed<ast::MemberOp>>)
        requires
            old(p).wf(),
        ensures
            rule_ok(*old(p), *final(p), res),
            res matches Some(r) ==> r.value is DotAccess,
            ends_at(*final(p), res, dot_access_end(old(p).source(), old(p).index() as int)),
            spans(*old(p), *final(p), res),
            res matches Some(r) ==> r.value matches ast::MemberOp::DotAccess(d) && range_is(
                old(p).source(),
                (
                    after_open(old(p).source(), old(p).index() as int, "."@),
                    ident_end(old(p).source(), after_open(old(p).source(), old(p).index() as int, "."@) + 1),
                ),
                d.name.range,
            ),
            res matches Some(r) ==> ({
                let j = spec_space_end(
                    old(p).source(),
                    spec_space_end(old(p).source(), old(p).index() as int) + "."@.len(),
                );
                r.value matches ast::MemberOp::DotAccess(d) && d.name.value@ == old(
                    p,
                ).source().subrange(j, final(p).index() as int)
            }),
    {
        let m = p.mark();
        self.opt_sp(p);
        if p.str(".").is_none() {
            p.reset(m);
            return None;
        }
        self.opt_sp(p);
        let name = match self.identifier(p) {
            Some(v) => v,
            None => {
                p.reset(m);
                return None;
            },
        };
        Some(p.parsed_from(&m, ast::MemberOp::dot_access(name)))
    }

    pub fn function_call(&self, p: &mut PegParserImpl) -> (res: Option<Parsed<ast::MemberOp>>)
        requires
            old(p).wf(),
        ensures
            rule_ok(*old(p), *final(p), res),
            res matches Some(r) ==> r.value is FunctionCall,
            res matches Some(r) ==> r.value matches ast::MemberOp::FunctionCall(f) && f.args.value.len()
                == list_len(
                old(p).source(),
                spec_space_end(
                    old(p).source(),
                    spec_space_end(old(p).source(), old(p).index() as int) + "("@.len(),
                ),
            ),
            ends_at(*final(p), res, function_call_end(old(p).source(), old(p).index() as int)),
            spans(*old(p), *final(p), res),
            res matches Some(r) ==> r.value matches ast::MemberOp::FunctionCall(f) && range_is(
                old(p).source(),
                list_span(old(p).source(), after_open(old(p).source(), old(p).index() as int, "("@)),
                f.args.range,
            ),
            res matches Some(r) ==> r.value matches ast::MemberOp::FunctionCall(f) && list_tree(
                old(p).source(),
                after_open(old(p).source(), old(p).index() as int, "("@),
                f.args.value@,
            ),
        decreases old(p).remaining(), 2nat,
    {
        let m = p.mark();
        self.opt_sp(p);
        proof {
            reveal_strlit("(");
        }
        if p.str("(").is_none() {
            p.reset(m);
            return None;
        }
        self.opt_sp(p);
        let args = self.expression_list(p);
        if p.str(")").is_none() {
            p.reset(m);
            return None;
        }
        Some(p.parsed_from(&m, ast::MemberOp::function_call(args)))
    }

    /// `opt_sp , opt_sp ternary_expression`, an element of a list after the first.
    fn list_next(&self, p: &mut PegParserImpl) -> (res: Option<Parsed<ast::Expression>>)
        requires
            old(p).wf(),
        ensures
            body_ok(*old(p), *final(p), res),
            ({
                let j = spec_space_end(old(p).source(), old(p).index() as int);
                if str_at(old(p).source(), j, ","@) {
                    let j2 = spec_space_end(old(p).source(), j + ","@.len());
                    match ternary_end(old(p).source(), j2) {
                        Some(e) => res is Some && final(p).index() == e,
                        None => res is None && final(p).index() == j2,
                    }
                } else {
                    res is None && final(p).index() == j
                }
            }),
            res matches Some(r) ==> ternary_tree(
                old(p).source(),
                after_open(old(p).source(), old(p).index() as int, ","@),
                r.value,
            ),
            res matches Some(r) ==> range_is(
                old(p).source(),
                ternary_span(old(p).source(), after_open(old(p).source(), old(p).index() as int, ","@)),
                r.range,
            ),
        decreases old(p).remaining(), 53nat,
    {
        self.opt_sp(p);
        proof {
            reveal_strlit(",");
        }
        if p.str(",").is_none() {
            return None;
        }
        self.opt_sp(p);
        self.ternary_expression(p)
    }

    // Parses a comma-separated list of expressions.  Note that the individual elements are
    // ternary expressions rather than full expressions, since full expressions include comma
    // expressions, which would "swallow" all of the list into a single expression
    #[verifier::rlimit(30)]
    fn expression_list(&self, p: &mut PegParserImpl) -> (res: Parsed<
        Vec<Parsed<ast::Expression>>,
    >)
        requires
            old(p).wf(),
        ensures
            body_ok(*old(p), *final(p), Some(res)),
            final(p).index() == expression_list_end(old(p).source(), old(p).index() as int),
            res.value.len() == list_len(old(p).source(), old(p).index() as int),
            list_tree(old(p).source(), old(p).index() as int, res.value@),
            range_is(old(p).source(), list_span(old(p).source(), old(p).index() as int), res.range),
        decreases old(p).remaining(), 100nat,
    {
        let m = p.mark();
        self.opt_sp(p);
        match self.ternary_expression(p) {
            Some(first) => {
                let m2 = p.mark();
                let mut rest: Vec<Parsed<ast::Expression>> = Vec::new();
                let ghost src = old(p).source();
                let ghost k0 = p.index() as int;
                loop
                    invariant_except_break
                        list_rest_end(src, k0) == list_rest_end(src, p.index() as int),
                        rest.len() + comma_count(src, p.index() as int) == comma_count(src, k0),
                        comma_part_start(src, k0, rest.len() as nat) == p.index(),
                    invariant
                        forall|q: int|
                            0 <= q < rest.len() ==> comma_part_is(src, comma_part_start(src, k0, q as nat), #[trigger] rest@[q]),
                        p.wf(),
                        p.source() == old(p).source(),
                        old(p).index() <= p.index(),
                        old(p).position() <= p.position(),
                        m.position() == old(p).position(),
                        old(p).position() <= m2.position() <= p.position(),
                        src == old(p).source(),
                    ensures
                        p.index() == list_rest_end(src, k0),
                        rest.len() == comma_count(src, k0),
                    decreases p.remaining(),
                {
                    let before = p.mark();
                    let ghost bp = *p;
                    proof {
                        lemma_space_end_bounds(src, p.index() as int);
                        let j = spec_space_end(src, p.index() as int);
                        if str_at(src, j, ","@) {
                            lemma_space_end_bounds(src, j + ","@.len());
                        }
                    }
                    let ghost done = rest@;
                    match self.list_next(p) {
                        Some(e) => {
                            proof {
                                bp.lemma_position_mono(p);
                            }
                            if p.pos() == before.pos() {
                                break ;
                            }
                            let ghost ev = e;
                            rest.push(e);
                            proof {
                                lemma_comma_parts_push(src, k0, done, ev, bp.index() as int, p.index() as int);
                                assert(rest@ == done.push(ev));
                            }
                        },
                        None => {
                            break ;
                        },
                    }
                }
                let rest = p.parsed_from(&m2, rest);
                // Allow trailing comma
                self.opt_sp(p);
                let _ = p.str(",");
                let exps = first_and_rest(first, rest);
                proof {
                    assert(exps@[0] == first);
                    assert forall|q: int| 0 < q < exps@.len() implies comma_part_is(
                        src,
                        comma_part_start(src, k0, (q - 1) as nat),
                        #[trigger] exps@[q],
                    ) by {
                        assert(exps@[q] == rest.value@[q - 1]);
                    }
                    lemma_list_tree_intro(src, old(p).index() as int, exps@);
                }
                p.parsed_from(&m, exps)
            },
            None => {
                proof {
                    lemma_list_tree_intro(old(p).source(), old(p).index() as int, Seq::empty());
                }
                p.parsed_from(&m, Vec::new())
            },
        }
    }

    pub fn index_access(&self, p: &mut PegParserImpl) -> (res: Option<Parsed<ast::MemberOp>>)
        requires
            old(p).wf(),
        ensures
            rule_ok(*old(p), *final(p), res),
            res matches Some(r) ==> r.value is IndexAccess,
            ends_at(*final(p), res, index_access_end(old(p).source(), old(p).index() as int)),
            spans(*old(p), *final(p), res),
            res matches Some(r) ==> r.value matches ast::MemberOp::IndexAccess(x) && range_is(
                old(p).source(),
                expr_span(old(p).source(), after_open(old(p).source(), old(p).index() as int, "["@)),
                x.exp.range,
            ),
            res matches Some(r) ==> r.value matches ast::MemberOp::IndexAccess(x) && expr_tree(
                old(p).source(),
                after_open(old(p).source(), old(p).index() as int, "["@),
                x.exp.value,
            ),
        decreases old(p).remaining(), 2nat,
    {
        let m = p.mark();
        self.opt_sp(p);
        proof {
            reveal_strlit("[");
        }
        if p.str("[").is_none() {
            p.reset(m);
            return None;
        }
        self.opt_sp(p);
        let exp = match self.expression(p) {
            Some(v) => v,
            None => {
                p.reset(m);
                return None;
            },
        };
        self.opt_sp(p);
        if p.str("]").is_none() {
            p.reset(m);
            return None;
        }
        self.opt_sp(p);
        Some(p.parsed_from(&m, ast::MemberOp::index_access(exp)))
    }

    pub fn non_null_assert(&self, p: &mut PegParserImpl) -> (res: Option<Parsed<ast::MemberOp>>)
        requires
            old(p).wf(),
        ensures
            rule_ok(*old(p), *final(p), res),
            res matches Some(r) ==> r.value is NonNullAssert,
            ends_at(*final(p), res, non_null_assert_end(old(p).source(), old(p).index() as int)),
            spans(*old(p), *final(p), res),
    {
        let m = p.mark();
        self.opt_sp(p);
        if p.str("!").is_none() {
            p.reset(m);
            return None;
        }
        // Make sure it's not followed by "=", to keep it from eating the "!" of a "!=" which is
        // at a higher precedence level
        if p.str("=").is_some() {
            p.reset(m);
            return None;
        }
        Some(p.parsed_from(&m, ast::MemberOp::non_null_assert()))
    }

    pub fn grouping_expression(&self, p: &mut PegParserImpl) -> (res: Option<
        Parsed<ast::Expression>,
    >)
        requires
            old(p).wf(),
        ensures
            body_ok(*old(p), *final(p), res),
            res is None ==> final(p).index() == string_literal_fail_end(
                old(p).source(),
                old(p).index() as int,
            ),
            ends_at(*final(p), res, grouping_end(old(p).source(), old(p).index() as int)),
            res matches Some(r) ==> grouping_tree(old(p).source(), old(p).index() as int, r.value),
            res matches Some(r) ==> range_is(old(p).source(), (old(p).index() as int, or_here(grouping_end(old(p).source(), old(p).index() as int), old(p).index() as int)), r.range),
        decreases old(p).remaining(), 4nat,
    {
        if let Some(r) = self.grouped_expression(p) {
            proof {
                reveal_strlit("(");
                lemma_grouping_tree_intro(old(p).source(), old(p).index() as int, r.value);
            }
            Some(r)
        } else if let Some(r) = self.primary_expression(p) {
            proof {
                lemma_grouping_tree_intro(old(p).source(), old(p).index() as int, r.value);
            }
            Some(r)
        } else {
            None
        }
    }

    pub fn grouped_expression(&self, p: &mut PegParserImpl) -> (res: Option<
        Parsed<ast::Expression>,
    >)
        requires
            old(p).wf(),
        ensures
            rule_ok(*old(p), *final(p), res),
            ends_at(*final(p), res, grouped_end(old(p).source(), old(p).index() as int)),
            res matches Some(r) ==> range_is(old(p).source(), (old(p).index() as int, or_here(grouped_end(old(p).source(), old(p).index() as int), old(p).index() as int)), r.range),
            res matches Some(r) ==> expr_tree(
                old(p).source(),
                spec_space_end(old(p).source(), old(p).index() + "("@.len() as int),
                r.value,
            ),
        decreases old(p).remaining(), 3nat,
    {
        let m = p.mark();
        proof {
            reveal_strlit("(");
        }
        if p.str("(").is_none() {
            return None;
        }
        self.opt_sp(p);
        let exp = match self.expression(p) {
            Some(v) => v.value,
            None => {
                p.reset(m);
                return None;
            },
        };
        self.opt_sp(p);
        if p.str(")").is_none() {
            p.reset(m);
            return None;
        }
        Some(p.parsed_from(&m, exp))
    }

    pub fn primary_expression(&self, p: &mut PegParserImpl) -> (res: Option<
        Parsed<ast::Expression>,
    >)
        requires
            old(p).wf(),
        ensures
            body_ok(*old(p), *final(p), res),
            res is None ==> final(p).index() == string_literal_fail_end(
                old(p).source(),
                old(p).index() as int,
            ),
            if literal_at(old(p).source(), old(p).index() as int) {
                literal_result(*old(p), *final(p), res)
            } else {
                identifier_expression_result(*old(p), *final(p), res)
            },
            ends_at(*final(p), res, primary_end(old(p).source(), old(p).index() as int)),
            res matches Some(r) ==> primary_tree(old(p).source(), old(p).index() as int, r.value),
            res matches Some(r) ==> range_is(old(p).source(), (old(p).index() as int, or_here(primary_end(old(p).source(), old(p).index() as int), old(p).index() as int)), r.range),
    {
        let ghost src = old(p).source();
        let ghost i = old(p).index() as int;
        if let Some(r) = self.literal_expression(p) {
            Some(r)
        } else {
            proof {
                lemma_string_literal_fail_end(src, i);
            }
            if let Some(r) = self.identifier_expression(p) {
                Some(r)
            } else {
                None
            }
        }
    }

    pub fn identifier_expression(&self, p: &mut PegParserImpl) -> (res: Option<
        Parsed<ast::Expression>,
    >)
        requires
            old(p).wf(),
        ensures
            rule_ok(*old(p), *final(p), res),
            identifier_expression_result(*old(p), *final(p), res),
    {
        match self.identifier(p) {
            Some(Parsed { range, value }) => Some(
                Parsed { range, value: ast::Expression::identifier_expression(value) },
            ),
            None => None,
        }
    }

    /// An identifier: a letter or underscore followed by letters, digits and underscores, that
    /// is not a reserved word.  Its value is the text it covers.
    pub fn identifier(&self, p: &mut PegParserImpl) -> (res: Option<Parsed<String>>)
        requires
            old(p).wf(),
        ensures
            rule_ok(*old(p), *final(p), res),
            res is Some <==> {
                &&& !reserved_at(old(p).source(), old(p).index() as int)
                &&& char_at(old(p).source(), old(p).index() as int) matches Some(c)
                &&& is_identifier_start_char(c)
            },
            res is Some ==> final(p).index() == ident_end(
                old(p).source(),
                (old(p).index() + 1) as int,
            ),
            res matches Some(r) ==> {
                &&& r.range.start == old(p).position()
                &&& r.range.end == final(p).position()
                &&& r.value@ == old(p).source().subrange(
                    old(p).index() as int,
                    final(p).index() as int,
                )
                &&& r.value@.len() >= 1
                &&& is_identifier_start_char(r.value@[0])
                &&& forall|i: int| 1 <= i < r.value@.len() ==> is_identifier_rest_char(r.value@[i])
            },
    {
        let m = p.mark();
        // Make sure it's not a reserved word
        let is_reserved = self.reserved_word(p).is_some();
        p.reset(m);
        if is_reserved {
            return None;
        }
        let first = match p.char_class(&identifier_start_chars()) {
            Some(c) => c.value,
            None => {
                return None;
            },
        };
        let mut chars: Vec<char> = Vec::new();
        chars.push(first);
        let rest_chars = identifier_rest_chars();
        loop
            invariant
                p.wf(),
                p.source() == old(p).source(),
                old(p).index() < p.index(),
                old(p).position() <= p.position(),
                m.position() == old(p).position(),
                m.index() == old(p).index(),
                chars@ == p.source().subrange(old(p).index() as int, p.index() as int),
                chars@.len() >= 1,
                is_identifier_start_char(chars@[0]),
                forall|i: int| 1 <= i < chars@.len() ==> is_identifier_rest_char(chars@[i]),
                forall|c: char| rest_chars.spec_matches(c) <==> is_identifier_rest_char(c),
                ident_end(p.source(), (old(p).index() + 1) as int) == ident_end(p.source(), p.index() as int),
            ensures
                ident_end(p.source(), p.index() as int) == p.index(),
            decreases p.remaining(),
        {
            let ghost before = *p;
            match p.char_class(&rest_chars) {
                Some(c) => {
                    chars.push(c.value);
                    assert(chars@ =~= p.source().subrange(
                        old(p).index() as int,
                        p.index() as int,
                    ));
                },
                None => {
                    break ;
                },
            }
        }
        let value = string_from_chars(&chars);
        Some(p.parsed_from(&m, value))
    }

    /// A reserved word followed by a word boundary.  It may consume input when it fails.
    pub fn reserved_word(&self, p: &mut PegParserImpl) -> (res: Option<Parsed<&'static str>>)
        requires
            old(p).wf(),
        ensures
            body_ok(*old(p), *final(p), res),
            res is Some <==> reserved_at(old(p).source(), old(p).index() as int),
    {
        let word = match self.match_str(p, reserved_words()) {
            Some(w) => w,
            None => {
                return None;
            },
        };
        if self.word_boundary(p).is_none() {
            return None;
        }
        Some(word)
    }

    /// Tries each string in turn.
    fn match_str(&self, p: &mut PegParserImpl, match_strs: &[&'static str]) -> (res: Option<
        Parsed<&'static str>,
    >)
        requires
            old(p).wf(),
        ensures
            rule_ok(*old(p), *final(p), res),
            match first_str_at(old(p).source(), old(p).index() as int, match_strs@, 0) {
                Some(k) => res matches Some(r) && {
                    &&& r.value == match_strs@[k]
                    &&& r.range.start == old(p).position()
                    &&& r.range.end == final(p).position()
                    &&& final(p).index() == old(p).index() + match_strs@[k]@.len()
                },
                None => res is None,
            },
    {
        let mut i: usize = 0;
        while i < match_strs.len()
            invariant
                p.wf(),
                p.source() == old(p).source(),
                p.index() == old(p).index(),
                i <= match_strs@.len(),
                first_str_at(old(p).source(), old(p).index() as int, match_strs@, 0)
                    == first_str_at(old(p).source(), old(p).index() as int, match_strs@, i as int),
            decreases match_strs@.len() - i,
        {
            if let Some(r) = p.str(match_strs[i]) {
                return Some(r);
            }
            i = i + 1;
        }
        None
    }

    pub fn literal_expression(&self, p: &mut PegParserImpl) -> (res: Option<
        Parsed<ast::Expression>,
    >)
        requires
            old(p).wf(),
        ensures
            body_ok(*old(p), *final(p), res),
            literal_result(*old(p), *final(p), res),
            res is None ==> final(p).index() == string_literal_fail_end(
                old(p).source(),
                old(p).index() as int,
            ),
    {
        if let Some(r) = self.boolean_literal(p) {
            Some(r)
        } else if let Some(r) = self.int_literal(p) {
            Some(r)
        } else if let Some(r) = self.null_literal(p) {
            Some(r)
        } else if let Some(r) = self.string_literal(p) {
            Some(r)
        } else {
            None
        }
    }

    /// A keyword that must be followed by a non-identifier character or the end of the input.
    fn keyword(&self, p: &mut PegParserImpl, word: &'static str) -> (res: Option<
        Parsed<&'static str>,
    >)
        requires
            old(p).wf(),
        ensures
            rule_ok(*old(p), *final(p), res),
            res is Some <==> keyword_at(old(p).source(), old(p).index() as int, word@),
            res matches Some(r) ==> {
                &&& r.value == word
                &&& r.range.start == old(p).position()
                &&& r.range.end == final(p).position()
                &&& final(p).index() == old(p).index() + word@.len()
            },
    {
        let m = p.mark();
        let value = match p.str(word) {
            Some(v) => v,
            None => {
                return None;
            },
        };
        // Must be followed by a non-identifier char or eof
        if self.word_boundary(p).is_none() {
            p.reset(m);
            return None;
        }
        Some(p.parsed_from(&m, value.value))
    }

    pub fn boolean_literal(&self, p: &mut PegParserImpl) -> (res: Option<
        Parsed<ast::Expression>,
    >)
        requires
            old(p).wf(),
        ensures
            rule_ok(*old(p), *final(p), res),
            match spec_boolean_at(old(p).source(), old(p).index() as int) {
                Some(b) => res matches Some(r) && {
                    &&& r.value == ast::Expression::BooleanLiteral(b)
                    &&& r.range.start == old(p).position()
                    &&& r.range.end == final(p).position()
                    &&& final(p).index() == old(p).index() + spec_boolean_word(b).len()
                },
                None => res is None,
            },
    {
        if let Some(r) = self.keyword(p, "true") {
            Some(r.with_value(ast::Expression::BooleanLiteral(true)))
        } else if let Some(r) = self.keyword(p, "false") {
            Some(r.with_value(ast::Expression::BooleanLiteral(false)))
        } else {
            None
        }
    }

    pub fn null_literal(&self, p: &mut PegParserImpl) -> (res: Option<Parsed<ast::Expression>>)
        requires
            old(p).wf(),
        ensures
            rule_ok(*old(p), *final(p), res),
            res is Some <==> keyword_at(old(p).source(), old(p).index() as int, "null"@),
            res matches Some(r) ==> {
                &&& r.value == ast::Expression::NullLiteral
                &&& r.range.start == old(p).position()
                &&& r.range.end == final(p).position()
                &&& final(p).index() == old(p).index() + "null"@.len()
            },
    {
        if let Some(r) = self.keyword(p, "null") {
            Some(r.with_value(ast::Expression::null_literal()))
        } else {
            None
        }
    }

    // Typically follows reserved words to make sure they aren't recognized too quickly if
    // they're actually the start of a longer identifier (e.g., "false" vs. "falsey")
    pub fn word_boundary(&self, p: &mut PegParserImpl) -> (res: Option<Parsed<()>>)
        requires
            old(p).wf(),
        ensures
            rule_ok(*old(p), *final(p), res),
            final(p).index() == old(p).index(),
            (res is Some) == !(old(p).spec_peek() matches Some(c) && is_identifier_rest_char(c)),
    {
        let m = p.mark();
        let found = p.char_class(&identifier_rest_chars()).is_some();
        p.reset(m);
        if found {
            None
        } else {
            Some(p.parsed_from(&m, ()))
        }
    }

    pub fn string_literal(&self, p: &mut PegParserImpl) -> (res: Option<Parsed<ast::Expression>>)
        requires
            old(p).wf(),
        ensures
            body_ok(*old(p), *final(p), res),
            string_literal_result(
                *old(p),
                *final(p),
                res,
                spec_string_literal_at(old(p).source(), old(p).index() as int),
            ),
            res is None ==> final(p).index() == string_literal_fail_end(
                old(p).source(),
                old(p).index() as int,
            ),
    {
        let ghost src = old(p).source();
        let ghost i = old(p).index() as int;
        if let Some(r) = self.string_literal_for_delimiter(p, '\'') {
            Some(r)
        } else {
            proof {
                if char_at(src, i) == Some('\'') {
                    lemma_string_body_end(src, i + 1, '\'');
                }
            }
            if let Some(r) = self.string_literal_for_delimiter(p, '\"') {
                Some(r)
            } else {
                None
            }
        }
    }

    pub fn string_literal_for_delimiter(&self, p: &mut PegParserImpl, delimiter: char) -> (res:
        Option<Parsed<ast::Expression>>)
        requires
            old(p).wf(),
        ensures
            body_ok(*old(p), *final(p), res),
            string_literal_result(
                *old(p),
                *final(p),
                res,
                spec_string_literal_for_at(old(p).source(), old(p).index() as int, delimiter),
            ),
            res is None ==> final(p).index() == string_fail_end(
                old(p).source(),
                old(p).index() as int,
                delimiter,
            ),
    {
        let ghost src = old(p).source();
        let ghost i = old(p).index() as int;
        let m = p.mark();
        if p.ch(delimiter).is_none() {
            return None;
        }
        // Unwrap the chars, remove any that are line continuations ("\" followed by line
        // break), collect to string
        let mut value = String::new();
        loop
            invariant
                p.wf(),
                p.source() == src,
                src == old(p).source(),
                i == old(p).index(),
                old(p).index() < p.index(),
                old(p).position() <= p.position(),
                m.position() == old(p).position(),
                m.index() == old(p).index(),
                old(p).mark_valid(m),
                value@ + spec_string_body(src, p.index() as int, delimiter).0 == spec_string_body(
                    src,
                    i + 1,
                    delimiter,
                ).0,
                spec_string_body(src, p.index() as int, delimiter).1 == spec_string_body(
                    src,
                    i + 1,
                    delimiter,
                ).1,
            ensures
                value@ == spec_string_body(src, i + 1, delimiter).0,
                p.index() == spec_string_body(src, i + 1, delimiter).1,
            decreases p.remaining(),
        {
            let before = p.mark();
            let ghost bp = *p;
            match self.string_literal_char(p, delimiter) {
                Some(c) => {
                    proof {
                        bp.lemma_position_mono(p);
                    }
                    if p.pos() == before.pos() {
                        break ;
                    }
                    let ghost pre = value@;
                    if let Some(ch) = c.value.to_char() {
                        string_push(&mut value, ch);
                    }
                    proof {
                        let body = spec_string_body(src, bp.index() as int, delimiter);
                        let rest = spec_string_body(src, p.index() as int, delimiter);
                        assert(value@ == pre + opt_chars(c.value.spec_to_char()));
                        assert(body.0 == opt_chars(c.value.spec_to_char()) + rest.0);
                        assert(value@ + rest.0 =~= pre + body.0);
                    }
                },
                None => {
                    break ;
                },
            }
        }
        if p.ch(delimiter).is_none() {
            return None;
        }
        Some(p.parsed_from(&m, ast::Expression::string_literal(value)))
    }

    /// `\xXX`
    fn hex_escape(&self, p: &mut PegParserImpl) -> (res: Option<Parsed<CharOrLineBreak>>)
        requires
            old(p).wf(),
        ensures
            rule_ok(*old(p), *final(p), res),
            char_result(
                *old(p),
                *final(p),
                res,
                match spec_hex_escape_at(old(p).source(), old(p).index() as int) {
                    Some(c) => Some((Some(c), old(p).index() + 3int)),
                    None => None,
                },
            ),
    {
        let ghost src = old(p).source();
        let ghost j = old(p).index() as int;
        let m = p.mark();
        if p.ch('x').is_none() {
            return None;
        }
        let d0 = match self.hex_digit(p) {
            Some(d) => d.value,
            None => {
                proof {
                    lemma_not_all_hex(src, j + 1, j + 3, j + 1);
                }
                p.reset(m);
                return None;
            },
        };
        let d1 = match self.hex_digit(p) {
            Some(d) => d.value,
            None => {
                proof {
                    lemma_not_all_hex(src, j + 1, j + 3, j + 2);
                }
                p.reset(m);
                return None;
            },
        };
        let char_code = d0 * 16 + d1;
        proof {
            lemma_hex_step(src, j + 1, j + 1);
            lemma_hex_step(src, j + 1, j + 2);
            assert(src.subrange(j + 1, j + 1) =~= Seq::<char>::empty());
        }
        match char_from_u32(char_code) {
            Some(c) => Some(p.parsed_from(&m, CharOrLineBreak::Char(c))),
            None => {
                p.reset(m);
                None
            },
        }
    }

    /// `\uXXXX`
    fn unicode_escape(&self, p: &mut PegParserImpl) -> (res: Option<Parsed<CharOrLineBreak>>)
        requires
            old(p).wf(),
        ensures
            rule_ok(*old(p), *final(p), res),
            char_result(
                *old(p),
                *final(p),
                res,
                match spec_unicode_escape_at(old(p).source(), old(p).index() as int) {
                    Some(c) => Some((Some(c), old(p).index() + 5int)),
                    None => None,
                },
            ),
    {
        let ghost src = old(p).source();
        let ghost j = old(p).index() as int;
        let m = p.mark();
        if p.ch('u').is_none() {
            return None;
        }
        let mut char_code: u32 = 0;
        let mut k: usize = 0;
        proof {
            reveal_with_fuel(pow16, 5);
            assert(src.subrange(j + 1, j + 1) =~= Seq::<char>::empty());
        }
        while k < 4
            invariant
                p.wf(),
                p.source() == src,
                src == old(p).source(),
                j == old(p).index(),
                old(p).index() <= p.index(),
                old(p).position() <= p.position(),
                m.position() == old(p).position(),
                m.index() == old(p).index(),
                old(p).mark_valid(m),
                k <= 4,
                p.index() == j + 1 + k,
                char_code < pow16(k as nat),
                char_code == spec_hex_value(src.subrange(j + 1, j + 1 + k)),
                all_hex(src.subrange(j + 1, j + 1 + k)),
            decreases 4 - k,
        {
            let d = match self.hex_digit(p) {
                Some(d) => d.value,
                None => {
                    proof {
                        lemma_not_all_hex(src, j + 1, j + 5, j + 1 + k);
                    }
                    p.reset(m);
                    return None;
                },
            };
            assert(char_code * 16 + d < pow16((k + 1) as nat)) by (nonlinear_arith)
                requires
                    char_code < pow16(k as nat),
                    d < 16,
                    pow16((k + 1) as nat) == pow16(k as nat) * 16,
            ;
            proof {
                lemma_pow16_le((k + 1) as nat, 4);
                reveal_with_fuel(pow16, 5);
                assert(pow16(4) == 65536);
                lemma_hex_step(src, j + 1, j + 1 + k);
            }
            char_code = char_code * 16 + d;
            k = k + 1;
        }
        match char_from_u32(char_code) {
            Some(c) => Some(p.parsed_from(&m, CharOrLineBreak::Char(c))),
            None => {
                p.reset(m);
                None
            },
        }
    }

    /// `\u{X...}`, with one to six hex digits.
    fn codepoint_escape(&self, p: &mut PegParserImpl) -> (res: Option<Parsed<CharOrLineBreak>>)
        requires
            old(p).wf(),
        ensures
            rule_ok(*old(p), *final(p), res),
            char_result(
                *old(p),
                *final(p),
                res,
                match spec_codepoint_escape_at(old(p).source(), old(p).index() as int) {
                    Some((c, e)) => Some((Some(c), e)),
                    None => None,
                },
            ),
    {
        let ghost src = old(p).source();
        let ghost j = old(p).index() as int;
        let m = p.mark();
        if p.str("u{").is_none() {
            return None;
        }
        proof {
            reveal_strlit("u{");
        }
        let mut digits: Vec<u32> = Vec::new();
        loop
            invariant
                p.wf(),
                p.source() == src,
                src == old(p).source(),
                j == old(p).index(),
                old(p).index() <= p.index(),
                old(p).position() <= p.position(),
                m.position() == old(p).position(),
                m.index() == old(p).index(),
                old(p).mark_valid(m),
                p.index() == j + 2 + digits@.len(),
                forall|i: int| 0 <= i < digits@.len() ==> digits@[i] < 16,
                forall|i: int|
                    0 <= i < digits@.len() ==> Some(#[trigger] digits@[i]) == spec_to_digit(
                        src[j + 2 + i],
                        16,
                    ),
                hex_run_end(src, j + 2) == hex_run_end(src, p.index() as int),
            ensures
                hex_run_end(src, p.index() as int) == p.index(),
            decreases p.remaining(),
        {
            let before = p.mark();
            let ghost bp = *p;
            match self.hex_digit(p) {
                Some(d) => {
                    proof {
                        bp.lemma_position_mono(p);
                    }
                    if p.pos() == before.pos() {
                        break ;
                    }
                    let ghost n = digits@.len();
                    digits.push(d.value);
                    assert(digits@[n as int] == d.value);
                    assert(Some(d.value) == spec_to_digit(src[j + 2 + n], 16));
                },
                None => {
                    break ;
                },
            }
        }
        let ghost e = p.index() as int;
        if digits.len() == 0 || p.ch('}').is_none() {
            p.reset(m);
            return None;
        }
        if digits.len() > 6 {
            // A code point has at most six hex digits: a longer run fails the whole escape.
            p.reset(m);
            return None;
        }
        let mut char_code: u32 = 0;
        let mut k: usize = 0;
        proof {
            assert(src.subrange(j + 2, j + 2) =~= Seq::<char>::empty());
        }
        while k < digits.len()
            invariant
                k <= digits@.len() <= 6,
                0 <= j,
                j + 2 + digits@.len() == e,
                e < src.len(),
                forall|i: int| 0 <= i < digits@.len() ==> digits@[i] < 16,
                forall|i: int|
                    0 <= i < digits@.len() ==> Some(#[trigger] digits@[i]) == spec_to_digit(
                        src[j + 2 + i],
                        16,
                    ),
                char_code < pow16(k as nat),
                char_code == spec_hex_value(src.subrange(j + 2, j + 2 + k)),
            decreases digits@.len() - k,
        {
            let d = digits[k];
            assert(char_code * 16 + d < pow16((k + 1) as nat)) by (nonlinear_arith)
                requires
                    char_code < pow16(k as nat),
                    d < 16,
                    pow16((k + 1) as nat) == pow16(k as nat) * 16,
            ;
            proof {
                lemma_pow16_le((k + 1) as nat, 6);
                reveal_with_fuel(pow16, 7);
                assert(pow16(6) == 16777216);
                lemma_hex_step(src, j + 2, j + 2 + k);
                assert(Some(digits@[k as int]) == spec_to_digit(src[j + 2 + k], 16));
            }
            char_code = char_code * 16 + d;
            k = k + 1;
        }
        match char_from_u32(char_code) {
            Some(c) => Some(p.parsed_from(&m, CharOrLineBreak::Char(c))),
            None => {
                p.reset(m);
                None
            },
        }
    }

    /// `\` followed by a line break: a continuation that contributes no character.
    fn line_continuation(&self, p: &mut PegParserImpl) -> (res: Option<Parsed<CharOrLineBreak>>)
        requires
            old(p).wf(),
        ensures
            rule_ok(*old(p), *final(p), res),
            char_result(
                *old(p),
                *final(p),
                res,
                if char_at(old(p).source(), old(p).index() as int) is Some && is_newline_char(
                    old(p).source()[old(p).index() as int],
                ) {
                    Some((None, old(p).index() + 1int))
                } else {
                    None
                },
            ),
    {
        let m = p.mark();
        if p.char_class(&newline_chars()).is_none() {
            return None;
        }
        Some(p.parsed_from(&m, CharOrLineBreak::LineBreak))
    }

    /// What follows a `\` in a string literal.
    fn escape_sequence(&self, p: &mut PegParserImpl, delimiter: char) -> (res: Option<
        Parsed<CharOrLineBreak>,
    >)
        requires
            old(p).wf(),
        ensures
            rule_ok(*old(p), *final(p), res),
            char_result(
                *old(p),
                *final(p),
                res,
                spec_escape_at(old(p).source(), old(p).index() as int, delimiter),
            ),
    {
        let m = p.mark();
        let escapes: &[(char, char)] = &[
            ('n', '\n'),
            ('r', '\r'),
            ('t', '\t'),
            ('v', '\x0b'),
            ('b', '\x08'),
            ('f', '\x0c'),
            ('\\', '\\'),
            ('\'', '\''),
            ('\"', '\"'),
            ('0', '\0'),
        ];
        assert(escapes@ =~= spec_single_escapes());
        if let Some(r) = self.string_literal_escape_single(p, escapes) {
            Some(p.parsed_from(&m, r.value))
        } else if let Some(r) = self.hex_escape(p) {
            Some(p.parsed_from(&m, r.value))
        } else if let Some(r) = self.unicode_escape(p) {
            Some(p.parsed_from(&m, r.value))
        } else if let Some(r) = self.codepoint_escape(p) {
            Some(p.parsed_from(&m, r.value))
        } else if let Some(r) = self.line_continuation(p) {
            Some(p.parsed_from(&m, r.value))
        } else {
            // "\" followed by anything else (except the delimiter) is just that character
            let singles = [delimiter];
            let char_class = CharClass::new().except().chars(&singles);
            assert forall|c: char| char_class.spec_matches(c) <==> c != delimiter by {
                if c == delimiter {
                    assert(char_class.singles@[0] == c);
                }
            }
            match p.char_class(&char_class) {
                Some(ch) => Some(p.parsed_from(&m, CharOrLineBreak::Char(ch.value))),
                None => None,
            }
        }
    }

    pub fn string_literal_char(&self, p: &mut PegParserImpl, delimiter: char) -> (res: Option<
        Parsed<CharOrLineBreak>,
    >)
        requires
            old(p).wf(),
        ensures
            rule_ok(*old(p), *final(p), res),
            char_result(
                *old(p),
                *final(p),
                res,
                spec_string_char_at(old(p).source(), old(p).index() as int, delimiter),
            ),
    {
        // Check for "regular" characters (anything but the delimiter or escape)
        let singles = [delimiter, '\\'];
        let char_class = CharClass::new().except().chars(&singles);
        assert forall|c: char| char_class.spec_matches(c) <==> (c != delimiter && c != '\\') by {
            if c == delimiter {
                assert(char_class.singles@[0] == c);
            } else if c == '\\' {
                assert(char_class.singles@[1] == c);
            }
        }
        if let Some(ch) = p.char_class(&char_class) {
            return Some(ch.with_value(CharOrLineBreak::Char(ch.value)));
        }
        // Check for escape sequences ("\")
        let m = p.mark();
        if p.ch('\\').is_none() {
            return None;
        }
        match self.escape_sequence(p, delimiter) {
            Some(r) => Some(p.parsed_from(&m, r.value)),
            None => {
                p.reset(m);
                None
            },
        }
    }

    fn hex_digit(&self, p: &mut PegParserImpl) -> (res: Option<Parsed<u32>>)
        requires
            old(p).wf(),
        ensures
            rule_ok(*old(p), *final(p), res),
            res is Some <==> hex_digit_at(old(p).source(), old(p).index() as int) is Some,
            res matches Some(r) ==> {
                &&& final(p).index() == old(p).index() + 1
                &&& hex_digit_at(old(p).source(), old(p).index() as int) == Some(r.value)
                &&& spec_to_digit(old(p).source()[old(p).index() as int], 16) == Some(r.value)
                &&& r.value < 16
            },
    {
        let m = p.mark();
        let class = hex_digit_chars();
        assert forall|c: char| class.spec_matches(c) <==> is_radix_digit(c, 16) by {
            assert(class.spec_matches(c) <==> (is_ascii_digit(c) || ('a' <= c && c <= 'f') || (
            'A' <= c && c <= 'F')));
            if 'a' <= c && c <= 'z' {
                assert(is_radix_digit(c, 16) <==> c <= 'f');
            } else if 'A' <= c && c <= 'Z' {
                assert(is_radix_digit(c, 16) <==> c <= 'F');
            }
        }
        let ch = match p.char_class(&class) {
            Some(c) => c,
            None => {
                return None;
            },
        };
        match to_digit(ch.value, 16) {
            Some(d) => Some(ch.with_value(d)),
            None => {
                p.reset(m);
                None
            },
        }
    }

    fn string_literal_escape_single(&self, p: &mut PegParserImpl, mapping: &[(char, char)]) -> (res:
        Option<Parsed<CharOrLineBreak>>)
        requires
            old(p).wf(),
        ensures
            rule_ok(*old(p), *final(p), res),
            char_result(
                *old(p),
                *final(p),
                res,
                if char_at(old(p).source(), old(p).index() as int) is Some && first_mapping(
                    mapping@,
                    old(p).source()[old(p).index() as int],
                    0,
                ) is Some {
                    Some(
                        (
                            first_mapping(mapping@, old(p).source()[old(p).index() as int], 0),
                            old(p).index() + 1int,
                        ),
                    )
                } else {
                    None
                },
            ),
    {
        let mut i: usize = 0;
        while i < mapping.len()
            invariant
                p.wf(),
                p.source() == old(p).source(),
                p.index() == old(p).index(),
                i <= mapping@.len(),
                char_at(old(p).source(), old(p).index() as int) is Some ==> first_mapping(
                    mapping@,
                    old(p).source()[old(p).index() as int],
                    0,
                ) == first_mapping(mapping@, old(p).source()[old(p).index() as int], i as int),
            decreases mapping@.len() - i,
        {
            let (src, dest) = mapping[i];
            if let Some(s) = p.ch(src) {
                assert(first_mapping(mapping@, src, i as int) == Some(dest));
                return Some(s.with_value(CharOrLineBreak::Char(dest)));
            }
            i = i + 1;
        }
        None
    }

    /// An integer literal of one radix: the prefix, a digit, then digits and underscores.
    fn int_literal_radix(
        &self,
        p: &mut PegParserImpl,
        prefix: &'static str,
        char_class: &CharClass,
        radix: u32,
        ast_radix: ast::Radix,
    ) -> (res: Option<Parsed<ast::Expression>>)
        requires
            old(p).wf(),
            2 <= radix <= 36,
            forall|c: char| char_class.spec_matches(c) <==> is_radix_digit(c, radix),
        ensures
            rule_ok(*old(p), *final(p), res),
            int_literal_result(
                *old(p),
                *final(p),
                res,
                spec_radix_literal_at(old(p).source(), old(p).index() as int, prefix@, radix),
                ast_radix,
            ),
    {
        let ghost src = old(p).source();
        let ghost i0 = old(p).index() as int;
        let ghost d = i0 + prefix@.len();
        let m = p.mark();
        if p.str(prefix).is_none() {
            return None;
        }
        let first = match p.char_class(char_class) {
            Some(c) => c,
            None => {
                p.reset(m);
                return None;
            },
        };
        assert(first.value == src[d]);
        let mut digits: Vec<Parsed<DigitOrUnderscore>> = Vec::new();
        digits.push(first.with_value(DigitOrUnderscore::Digit(first.value)));
        loop
            invariant
                p.wf(),
                p.source() == src,
                src == old(p).source(),
                old(p).index() <= p.index(),
                old(p).position() <= p.position(),
                m.position() == old(p).position(),
                m.index() == old(p).index(),
                old(p).mark_valid(m),
                2 <= radix <= 36,
                forall|c: char| char_class.spec_matches(c) <==> is_radix_digit(c, radix),
                d < p.index(),
                digits@.len() == p.index() - d,
                forall|k: int| 0 <= k < digits@.len() ==> #[trigger] digits@[k].value == digit_of(src[d + k]),
                digit_run_end(src, d + 1, radix) == digit_run_end(src, p.index() as int, radix),
            ensures
                digit_run_end(src, p.index() as int, radix) == p.index(),
            decreases p.remaining(),
        {
            if let Some(r) = p.ch('_') {
                digits.push(r.with_value(DigitOrUnderscore::Underscore));
            } else if let Some(r) = p.char_class(char_class) {
                digits.push(r.with_value(DigitOrUnderscore::Digit(r.value)));
            } else {
                break ;
            }
        }
        proof {
            let cs = src.subrange(d, p.index() as int);
            assert forall|k: int| 0 <= k < digits@.len() implies digits@[k].value == digit_of(cs[k]) by {
                assert(digits@[k].value == digit_of(src[d + k]));
            }
            lemma_digits_of_chars(digits@, cs, radix);
        }
        match collect_digits(&digits, radix) {
            Some(value) => Some(p.parsed_from(&m, ast::Expression::int_literal(value, ast_radix, None))),
            None => {
                p.reset(m);
                None
            },
        }
    }

    pub fn decimal_literal(&self, p: &mut PegParserImpl) -> (res: Option<
        Parsed<ast::Expression>,
    >)
        requires
            old(p).wf(),
        ensures
            rule_ok(*old(p), *final(p), res),
            int_literal_result(
                *old(p),
                *final(p),
                res,
                spec_radix_literal_at(old(p).source(), old(p).index() as int, ""@, 10),
                ast::Radix::Decimal,
            ),
    {
        let class = decimal_digit();
        assert forall|c: char| class.spec_matches(c) <==> is_radix_digit(c, 10) by {
            assert(class.spec_matches(c) <==> is_ascii_digit(c));
            if 'a' <= c && c <= 'z' {
                assert(!is_radix_digit(c, 10));
            } else if 'A' <= c && c <= 'Z' {
                assert(!is_radix_digit(c, 10));
            }
        }
        self.int_literal_radix(p, "", &class, 10, ast::Radix::Decimal)
    }

    pub fn hex_literal(&self, p: &mut PegParserImpl) -> (res: Option<Parsed<ast::Expression>>)
        requires
            old(p).wf(),
        ensures
            rule_ok(*old(p), *final(p), res),
            int_literal_result(
                *old(p),
                *final(p),
                res,
                spec_radix_literal_at(old(p).source(), old(p).index() as int, "0x"@, 16),
                ast::Radix::Hex,
            ),
    {
        let class = hex_digit_chars();
        assert forall|c: char| class.spec_matches(c) <==> is_radix_digit(c, 16) by {
            assert(class.spec_matches(c) <==> (is_ascii_digit(c) || ('a' <= c && c <= 'f') || (
            'A' <= c && c <= 'F')));
            if 'a' <= c && c <= 'z' {
                assert(is_radix_digit(c, 16) <==> c <= 'f');
            } else if 'A' <= c && c <= 'Z' {
                assert(is_radix_digit(c, 16) <==> c <= 'F');
            }
        }
        self.int_literal_radix(p, "0x", &class, 16, ast::Radix::Hex)
    }

    pub fn octal_literal(&self, p: &mut PegParserImpl) -> (res: Option<Parsed<ast::Expression>>)
        requires
            old(p).wf(),
        ensures
            rule_ok(*old(p), *final(p), res),
            int_literal_result(
                *old(p),
                *final(p),
                res,
                spec_radix_literal_at(old(p).source(), old(p).index() as int, "0o"@, 8),
                ast::Radix::Octal,
            ),
    {
        self.int_literal_radix(p, "0o", &octal_digit(), 8, ast::Radix::Octal)
    }

    pub fn binary_literal(&self, p: &mut PegParserImpl) -> (res: Option<
        Parsed<ast::Expression>,
    >)
        requires
            old(p).wf(),
        ensures
            rule_ok(*old(p), *final(p), res),
            int_literal_result(
                *old(p),
                *final(p),
                res,
                spec_radix_literal_at(old(p).source(), old(p).index() as int, "0b"@, 2),
                ast::Radix::Binary,
            ),
    {
        self.int_literal_radix(p, "0b", &binary_digit(), 2, ast::Radix::Binary)
    }

    pub fn int_literal(&self, p: &mut PegParserImpl) -> (res: Option<Parsed<ast::Expression>>)
        requires
            old(p).wf(),
        ensures
            rule_ok(*old(p), *final(p), res),
            match spec_int_literal_at(old(p).source(), old(p).index() as int) {
                Some((v, e, radix)) => int_literal_result(*old(p), *final(p), res, Some((v, e)), radix),
                None => res is None,
            },
    {
        if let Some(r) = self.hex_literal(p) {
            Some(r)
        } else if let Some(r) = self.octal_literal(p) {
            Some(r)
        } else if let Some(r) = self.binary_literal(p) {
            Some(r)
        } else if let Some(r) = self.decimal_literal(p) {
            Some(r)
        } else {
            None
        }
    }

    // shorthand for optional space
    pub fn opt_sp(&self, p: &mut PegParserImpl) -> (res: Option<Parsed<()>>)
        requires
            old(p).wf(),
        ensures
            rule_ok(*old(p), *final(p), res),
            unit_result(
                *old(p),
                *final(p),
                res,
                Some(spec_space_end(old(p).source(), old(p).index() as int)),
            ),
    {
        self.sp(p)
    }

    /// Space: any run of whitespace and comments, possibly empty.
    pub fn sp(&self, p: &mut PegParserImpl) -> (res: Option<Parsed<()>>)
        requires
            old(p).wf(),
        ensures
            rule_ok(*old(p), *final(p), res),
            unit_result(
                *old(p),
                *final(p),
                res,
                Some(spec_space_end(old(p).source(), old(p).index() as int)),
            ),
    {
        let ghost src = old(p).source();
        let m = p.mark();
        loop
            invariant
                p.wf(),
                p.source() == src,
                src == old(p).source(),
                old(p).index() <= p.index(),
                old(p).position() <= p.position(),
                m.position() == old(p).position(),
                spec_space_end(src, old(p).index() as int) == spec_space_end(src, p.index() as int),
            ensures
                spec_space_end(src, p.index() as int) == p.index(),
            decreases p.remaining(),
        {
            let before = p.mark();
            let ghost bp = *p;
            let found = if self.ws(p).is_some() {
                true
            } else if self.line_comment(p).is_some() {
                true
            } else {
                self.block_comment(p).is_some()
            };
            proof {
                bp.lemma_position_mono(p);
            }
            if !found || p.pos() == before.pos() {
                break ;
            }
        }
        Some(p.parsed_from(&m, ()))
    }

    pub fn ws_char(&self, p: &mut PegParserImpl) -> (res: Option<Parsed<()>>)
        requires
            old(p).wf(),
        ensures
            rule_ok(*old(p), *final(p), res),
            unit_result(
                *old(p),
                *final(p),
                res,
                if char_at(old(p).source(), old(p).index() as int) is Some && is_ws_char(
                    old(p).source()[old(p).index() as int],
                ) {
                    Some(old(p).index() + 1int)
                } else {
                    None
                },
            ),
    {
        match p.char_class(&ws_chars()) {
            Some(r) => Some(r.with_value(())),
            None => None,
        }
    }

    pub fn ws(&self, p: &mut PegParserImpl) -> (res: Option<Parsed<()>>)
        requires
            old(p).wf(),
        ensures
            rule_ok(*old(p), *final(p), res),
            unit_result(
                *old(p),
                *final(p),
                res,
                if char_at(old(p).source(), old(p).index() as int) is Some && is_ws_char(
                    old(p).source()[old(p).index() as int],
                ) {
                    Some(old(p).index() + 1int)
                } else {
                    None
                },
            ),
    {
        match p.char_class(&ws_chars()) {
            Some(r) => Some(r.with_value(())),
            None => None,
        }
    }

    /// `//` up to the end of the line (the line break is not part of it).
    pub fn line_comment(&self, p: &mut PegParserImpl) -> (res: Option<Parsed<()>>)
        requires
            old(p).wf(),
        ensures
            rule_ok(*old(p), *final(p), res),
            unit_result(
                *old(p),
                *final(p),
                res,
                spec_line_comment_at(old(p).source(), old(p).index() as int),
            ),
            res is Some ==> old(p).index() < final(p).index(),
    {
        let ghost src = old(p).source();
        let m = p.mark();
        proof {
            reveal_strlit("//");
        }
        if p.str("//").is_none() {
            return None;
        }
        let cc = not_newline_chars();
        loop
            invariant
                p.wf(),
                p.source() == src,
                src == old(p).source(),
                old(p).index() < p.index(),
                old(p).position() <= p.position(),
                m.position() == old(p).position(),
                forall|c: char| cc.spec_matches(c) <==> !is_newline_char(c),
                line_rest_end(src, old(p).index() + 2int) == line_rest_end(src, p.index() as int),
            ensures
                line_rest_end(src, p.index() as int) == p.index(),
            decreases p.remaining(),
        {
            if p.char_class(&cc).is_none() {
                break ;
            }
        }
        Some(p.parsed_from(&m, ()))
    }

    /// `/*` up to the next `*/`.
    pub fn block_comment(&self, p: &mut PegParserImpl) -> (res: Option<Parsed<()>>)
        requires
            old(p).wf(),
        ensures
            rule_ok(*old(p), *final(p), res),
            unit_result(
                *old(p),
                *final(p),
                res,
                spec_block_comment_at(old(p).source(), old(p).index() as int),
            ),
            res is Some ==> old(p).index() < final(p).index(),
    {
        let ghost src = old(p).source();
        let m = p.mark();
        proof {
            reveal_strlit("/*");
            reveal_strlit("*/");
        }
        if p.str("/*").is_none() {
            return None;
        }
        let any = any_char();
        loop
            invariant
                p.wf(),
                p.source() == old(p).source(),
                old(p).index() < p.index(),
                old(p).position() <= p.position(),
                m.position() == old(p).position(),
                m.index() == old(p).index(),
                old(p).mark_valid(m),
                src == old(p).source(),
                forall|c: char| any.spec_matches(c),
                close_comment_end(src, old(p).index() + 2int) == close_comment_end(
                    src,
                    p.index() as int,
                ),
            ensures
                p.wf(),
                p.source() == src,
                old(p).index() < p.index(),
                old(p).position() <= p.position(),
                p.index() < src.len() ==> str_at(src, p.index() as int, "*/"@),
                close_comment_end(src, old(p).index() + 2int) == close_comment_end(
                    src,
                    p.index() as int,
                ),
            decreases p.remaining(),
        {
            let before = p.mark();
            if p.str("*/").is_some() {
                p.reset(before);
                break ;
            }
            if p.char_class(&any).is_none() {
                break ;
            }
        }
        if p.str("*/").is_none() {
            p.reset(m);
            return None;
        }
        Some(p.parsed_from(&m, ()))
    }

    // Space that doesn't include newlines (used in finding statement ends)
    pub fn no_line_end_space(&self, p: &mut PegParserImpl) -> (res: Option<Parsed<()>>)
        requires
            old(p).wf(),
        ensures
            rule_ok(*old(p), *final(p), res),
            unit_result(
                *old(p),
                *final(p),
                res,
                if spec_inline_space_end(old(p).source(), old(p).index() as int) > old(p).index() {
                    Some(spec_inline_space_end(old(p).source(), old(p).index() as int))
                } else {
                    None
                },
            ),
    {
        let ghost src = old(p).source();
        let m = p.mark();
        let cc = no_line_end_ws_chars();
        let mut count: usize = 0;
        loop
            invariant
                p.wf(),
                p.source() == src,
                src == old(p).source(),
                old(p).index() <= p.index(),
                old(p).position() <= p.position(),
                m.position() == old(p).position(),
                m.index() == old(p).index(),
                old(p).mark_valid(m),
                count == 0 ==> p.index() == old(p).index(),
                count != 0 ==> p.index() > old(p).index(),
                forall|c: char| cc.spec_matches(c) <==> (c == ' ' || c == '\t'),
                spec_inline_space_end(src, old(p).index() as int) == spec_inline_space_end(
                    src,
                    p.index() as int,
                ),
            ensures
                spec_inline_space_end(src, p.index() as int) == p.index(),
                count == 0 ==> p.index() == old(p).index(),
                count != 0 ==> p.index() > old(p).index(),
            decreases p.remaining(),
        {
            let before = p.mark();
            let ghost gb = *p;
            let found = if p.char_class(&cc).is_some() {
                true
            } else {
                self.block_comment(p).is_some()
            };
            proof {
                gb.lemma_position_mono(&*p);
            }
            if !found || p.pos() == before.pos() {
                break ;
            }
            count = 1;
        }
        if count == 0 {
            p.reset(m);
            return None;
        }
        Some(p.parsed_from(&m, ()))
    }

    // Things that can terminate a statement
    pub fn statement_end(&self, p: &mut PegParserImpl) -> (res: Option<Parsed<()>>)
        requires
            old(p).wf(),
        ensures
            rule_ok(*old(p), *final(p), res),
            unit_result(
                *old(p),
                *final(p),
                res,
                spec_statement_end_at(old(p).source(), old(p).index() as int),
            ),
    {
        let ghost src = old(p).source();
        let m = p.mark();
        // Consume any space up to potential statement enders
        let _ = self.no_line_end_space(p);
        proof {
            lemma_inline_space_end_ge(src, old(p).index() as int);
            assert(p.index() == spec_inline_space_end(src, old(p).index() as int));
        }
        let ended = if p.ch(';').is_some() {
            true
        } else if self.line_comment(p).is_some() {
            true
        } else if p.char_class(&newline_chars()).is_some() {
            true
        } else {
            match p.peek() {
                // Covers the last statement in a file
                None => true,
                // Covers the last statement in a block, and the "advance" statement in a
                // for(..;..;..) statement
                Some(c) => c == '}' || c == ')',
            }
        };
        if !ended {
            p.reset(m);
            return None;
        }
        Some(p.parsed_from(&m, ()))
    }
}

/// 16 to the power `k`.
pub open spec fn pow16(k: nat) -> nat
    decreases k,
{
    if k == 0 {
        1
    } else {
        16 * pow16((k - 1) as nat)
    }
}

proof fn lemma_pow16_le(k: nat, n: nat)
    requires
        k <= n,
    ensures
        pow16(k) <= pow16(n),
    decreases n - k,
{
    if k < n {
        lemma_pow16_le(k, (n - 1) as nat);
    }
}

} // verus!
