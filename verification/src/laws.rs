
use vstd::prelude::*;

use crate::ast;
use crate::model::{BinaryOp, ExpressionData, IntLiteralSuffix, LetOrConst, Model, StatementData, UnaryOp};
use crate::model_builder::{spec_binary_op, spec_int_literal_suffix, spec_let_or_const, spec_unary_op};
use crate::model_json::{
    expr_json_ok,
    json_kind_is,
    spec_binary_op_name,
    spec_escape_char,
    spec_let_or_const_name,
    spec_suffix_name,
    spec_unary_op_name,
    stmt_json_ok,
    DumpOpts,
    Json,
};
use crate::parser::{
    binary_op_text,
    keyword_at,
    spec_boolean_at,
    spec_int_literal_at,
    spec_to_digit,
    first_op_at,
    lemma_binary_table_texts,
    lemma_first_op_at,
    spec_binary_ops,
    spec_string_char_at,
    spec_unary_ops,
    str_at,
    unary_op_text,
    BinaryLevel,
};

verus! {

/// Where the operator table of a binary level matches at index `j`, the operator it yields is
/// the one whose text stands there: `!=` yields `NotEquals`, `==` yields `Equals`, and so on
/// for every operator of every level.
pub proof fn law_binary_operator_is_the_text_read(s: Seq<char>, level: BinaryLevel, j: int)
    requires
        first_op_at(s, j, spec_binary_ops(level), 0) is Some,
    ensures
        ({
            let x = first_op_at(s, j, spec_binary_ops(level), 0)->0;
            str_at(s, j, binary_op_text(spec_binary_ops(level)[x].1))
        }),
{
    lemma_first_op_at(s, j, spec_binary_ops(level), 0);
    lemma_binary_table_texts(level, first_op_at(s, j, spec_binary_ops(level), 0)->0);
}

/// Where the unary operator table matches at index `j`, the operator it yields is the one whose
/// text stands there.
pub proof fn law_unary_operator_is_the_text_read(s: Seq<char>, j: int)
    requires
        first_op_at(s, j, spec_unary_ops(), 0) is Some,
    ensures
        ({
            let x = first_op_at(s, j, spec_unary_ops(), 0)->0;
            str_at(s, j, unary_op_text(spec_unary_ops()[x].1))
        }),
{
    lemma_first_op_at(s, j, spec_unary_ops(), 0);
}

/// A few characters of a text: its length, its first two characters, its last and its eighth.
spec fn fingerprint(t: Seq<char>) -> (nat, char, char, char, char) {
    (
        t.len(),
        t[0],
        if t.len() > 1 { t[1] } else { t[0] },
        t[t.len() - 1],
        if t.len() > 7 { t[7] } else { t[0] },
    )
}

spec fn binary_text_fingerprint(op: ast::BinaryOp) -> (nat, char, char, char, char) {
    match op {
        ast::BinaryOp::Plus => (1nat, '+', '+', '+', '+'),
        ast::BinaryOp::Minus => (1nat, '-', '-', '-', '-'),
        ast::BinaryOp::Times => (1nat, '*', '*', '*', '*'),
        ast::BinaryOp::Divide => (1nat, '/', '/', '/', '/'),
        ast::BinaryOp::Mod => (1nat, '%', '%', '%', '%'),
        ast::BinaryOp::ShiftLeft => (2nat, '<', '<', '<', '<'),
        ast::BinaryOp::LogicalShiftRight => (3nat, '>', '>', '>', '>'),
        ast::BinaryOp::ArithmeticShiftRight => (2nat, '>', '>', '>', '>'),
        ast::BinaryOp::LessThan => (1nat, '<', '<', '<', '<'),
        ast::BinaryOp::LessThanOrEquals => (2nat, '<', '=', '=', '<'),
        ast::BinaryOp::GreaterThan => (1nat, '>', '>', '>', '>'),
        ast::BinaryOp::GreaterThanOrEquals => (2nat, '>', '=', '=', '>'),
        ast::BinaryOp::Equals => (2nat, '=', '=', '=', '='),
        ast::BinaryOp::NotEquals => (2nat, '!', '=', '=', '!'),
        ast::BinaryOp::BitwiseAnd => (1nat, '&', '&', '&', '&'),
        ast::BinaryOp::BitwiseXor => (1nat, '^', '^', '^', '^'),
        ast::BinaryOp::BitwiseOr => (1nat, '|', '|', '|', '|'),
        ast::BinaryOp::LogicalAnd => (2nat, '&', '&', '&', '&'),
        ast::BinaryOp::LogicalOr => (2nat, '|', '|', '|', '|'),
        ast::BinaryOp::Assign => (1nat, '=', '=', '=', '='),
        ast::BinaryOp::PlusAssign => (2nat, '+', '=', '=', '+'),
        ast::BinaryOp::MinusAssign => (2nat, '-', '=', '=', '-'),
        ast::BinaryOp::TimesAssign => (2nat, '*', '=', '=', '*'),
        ast::BinaryOp::DivideAssign => (2nat, '/', '=', '=', '/'),
        ast::BinaryOp::ModAssign => (2nat, '%', '=', '=', '%'),
        ast::BinaryOp::ShiftLeftAssign => (3nat, '<', '<', '=', '<'),
        ast::BinaryOp::LogicalShiftRightAssign => (4nat, '>', '>', '=', '>'),
        ast::BinaryOp::ArithmeticShiftRightAssign => (3nat, '>', '>', '=', '>'),
        ast::BinaryOp::BitwiseAndAssign => (2nat, '&', '=', '=', '&'),
        ast::BinaryOp::BitwiseXorAssign => (2nat, '^', '=', '=', '^'),
        ast::BinaryOp::BitwiseOrAssign => (2nat, '|', '=', '=', '|'),
        ast::BinaryOp::LogicalAndAssign => (3nat, '&', '&', '=', '&'),
        ast::BinaryOp::LogicalOrAssign => (3nat, '|', '|', '=', '|'),
    }
}

proof fn lemma_binary_text_fingerprint(op: ast::BinaryOp)
    ensures
        fingerprint(binary_op_text(op)) == binary_text_fingerprint(op),
{
    reveal_strlit("!=");
    reveal_strlit("%");
    reveal_strlit("%=");
    reveal_strlit("&");
    reveal_strlit("&&");
    reveal_strlit("&&=");
    reveal_strlit("&=");
    reveal_strlit("*");
    reveal_strlit("*=");
    reveal_strlit("+");
    reveal_strlit("+=");
    reveal_strlit("-");
    reveal_strlit("-=");
    reveal_strlit("/");
    reveal_strlit("/=");
    reveal_strlit("<");
    reveal_strlit("<<");
    reveal_strlit("<<=");
    reveal_strlit("<=");
    reveal_strlit("=");
    reveal_strlit("==");
    reveal_strlit(">");
    reveal_strlit(">=");
    reveal_strlit(">>");
    reveal_strlit(">>=");
    reveal_strlit(">>>");
    reveal_strlit(">>>=");
    reveal_strlit("^");
    reveal_strlit("^=");
    reveal_strlit("|");
    reveal_strlit("|=");
    reveal_strlit("||");
    reveal_strlit("||=");
    match op {
        ast::BinaryOp::Plus => {},
        ast::BinaryOp::Minus => {},
        ast::BinaryOp::Times => {},
        ast::BinaryOp::Divide => {},
        ast::BinaryOp::Mod => {},
        ast::BinaryOp::ShiftLeft => {},
        ast::BinaryOp::LogicalShiftRight => {},
        ast::BinaryOp::ArithmeticShiftRight => {},
        ast::BinaryOp::LessThan => {},
        ast::BinaryOp::LessThanOrEquals => {},
        ast::BinaryOp::GreaterThan => {},
        ast::BinaryOp::GreaterThanOrEquals => {},
        ast::BinaryOp::Equals => {},
        ast::BinaryOp::NotEquals => {},
        ast::BinaryOp::BitwiseAnd => {},
        ast::BinaryOp::BitwiseXor => {},
        ast::BinaryOp::BitwiseOr => {},
        ast::BinaryOp::LogicalAnd => {},
        ast::BinaryOp::LogicalOr => {},
        ast::BinaryOp::Assign => {},
        ast::BinaryOp::PlusAssign => {},
        ast::BinaryOp::MinusAssign => {},
        ast::BinaryOp::TimesAssign => {},
        ast::BinaryOp::DivideAssign => {},
        ast::BinaryOp::ModAssign => {},
        ast::BinaryOp::ShiftLeftAssign => {},
        ast::BinaryOp::LogicalShiftRightAssign => {},
        ast::BinaryOp::ArithmeticShiftRightAssign => {},
        ast::BinaryOp::BitwiseAndAssign => {},
        ast::BinaryOp::BitwiseXorAssign => {},
        ast::BinaryOp::BitwiseOrAssign => {},
        ast::BinaryOp::LogicalAndAssign => {},
        ast::BinaryOp::LogicalOrAssign => {},
    }
}

spec fn unary_text_fingerprint(op: ast::UnaryOp) -> (nat, char, char, char, char) {
    match op {
        ast::UnaryOp::Plus => (1nat, '+', '+', '+', '+'),
        ast::UnaryOp::Minus => (1nat, '-', '-', '-', '-'),
        ast::UnaryOp::LogicalNot => (1nat, '!', '!', '!', '!'),
        ast::UnaryOp::BitwiseNot => (1nat, '~', '~', '~', '~'),
    }
}

proof fn lemma_unary_text_fingerprint(op: ast::UnaryOp)
    ensures
        fingerprint(unary_op_text(op)) == unary_text_fingerprint(op),
{
    reveal_strlit("!");
    reveal_strlit("+");
    reveal_strlit("-");
    reveal_strlit("~");
    match op {
        ast::UnaryOp::Plus => {},
        ast::UnaryOp::Minus => {},
        ast::UnaryOp::LogicalNot => {},
        ast::UnaryOp::BitwiseNot => {},
    }
}

spec fn binary_name_fingerprint(op: BinaryOp) -> (nat, char, char, char, char) {
    match op {
        BinaryOp::Plus => (4nat, 'P', 'l', 's', 'P'),
        BinaryOp::Minus => (5nat, 'M', 'i', 's', 'M'),
        BinaryOp::Times => (5nat, 'T', 'i', 's', 'T'),
        BinaryOp::Divide => (6nat, 'D', 'i', 'e', 'D'),
        BinaryOp::Mod => (3nat, 'M', 'o', 'd', 'M'),
        BinaryOp::ShiftLeft => (9nat, 'S', 'h', 't', 'f'),
        BinaryOp::LogicalShiftRight => (17nat, 'L', 'o', 't', 'S'),
        BinaryOp::ArithmeticShiftRight => (20nat, 'A', 'r', 't', 't'),
        BinaryOp::LessThan => (8nat, 'L', 'e', 'n', 'n'),
        BinaryOp::LessThanOrEquals => (16nat, 'L', 'e', 's', 'n'),
        BinaryOp::GreaterThan => (11nat, 'G', 'r', 'n', 'T'),
        BinaryOp::GreaterThanOrEquals => (19nat, 'G', 'r', 's', 'T'),
        BinaryOp::Equals => (6nat, 'E', 'q', 's', 'E'),
        BinaryOp::NotEquals => (9nat, 'N', 'o', 's', 'l'),
        BinaryOp::BitwiseAnd => (10nat, 'B', 'i', 'd', 'A'),
        BinaryOp::BitwiseXor => (10nat, 'B', 'i', 'r', 'X'),
        BinaryOp::BitwiseOr => (9nat, 'B', 'i', 'r', 'O'),
        BinaryOp::LogicalAnd => (10nat, 'L', 'o', 'd', 'A'),
        BinaryOp::LogicalOr => (9nat, 'L', 'o', 'r', 'O'),
        BinaryOp::Assign => (6nat, 'A', 's', 'n', 'A'),
        BinaryOp::PlusAssign => (10nat, 'P', 'l', 'n', 'i'),
        BinaryOp::MinusAssign => (11nat, 'M', 'i', 'n', 's'),
        BinaryOp::TimesAssign => (11nat, 'T', 'i', 'n', 's'),
        BinaryOp::DivideAssign => (12nat, 'D', 'i', 'n', 's'),
        BinaryOp::ModAssign => (9nat, 'M', 'o', 'n', 'g'),
        BinaryOp::ShiftLeftAssign => (15nat, 'S', 'h', 'n', 'f'),
        BinaryOp::LogicalShiftRightAssign => (23nat, 'L', 'o', 'n', 'S'),
        BinaryOp::ArithmeticShiftRightAssign => (26nat, 'A', 'r', 'n', 't'),
        BinaryOp::BitwiseAndAssign => (16nat, 'B', 'i', 'n', 'A'),
        BinaryOp::BitwiseXorAssign => (16nat, 'B', 'i', 'n', 'X'),
        BinaryOp::BitwiseOrAssign => (15nat, 'B', 'i', 'n', 'O'),
        BinaryOp::LogicalAndAssign => (16nat, 'L', 'o', 'n', 'A'),
        BinaryOp::LogicalOrAssign => (15nat, 'L', 'o', 'n', 'O'),
    }
}

proof fn lemma_binary_name_fingerprint(op: BinaryOp)
    ensures
        fingerprint(spec_binary_op_name(op)) == binary_name_fingerprint(op),
{
    reveal_strlit("ArithmeticShiftRight");
    reveal_strlit("ArithmeticShiftRightAssign");
    reveal_strlit("Assign");
    reveal_strlit("BitwiseAnd");
    reveal_strlit("BitwiseAndAssign");
    reveal_strlit("BitwiseOr");
    reveal_strlit("BitwiseOrAssign");
    reveal_strlit("BitwiseXor");
    reveal_strlit("BitwiseXorAssign");
    reveal_strlit("Divide");
    reveal_strlit("DivideAssign");
    reveal_strlit("Equals");
    reveal_strlit("GreaterThan");
    reveal_strlit("GreaterThanOrEquals");
    reveal_strlit("LessThan");
    reveal_strlit("LessThanOrEquals");
    reveal_strlit("LogicalAnd");
    reveal_strlit("LogicalAndAssign");
    reveal_strlit("LogicalOr");
    reveal_strlit("LogicalOrAssign");
    reveal_strlit("LogicalShiftRight");
    reveal_strlit("LogicalShiftRightAssign");
    reveal_strlit("Minus");
    reveal_strlit("MinusAssign");
    reveal_strlit("Mod");
    reveal_strlit("ModAssign");
    reveal_strlit("NotEquals");
    reveal_strlit("Plus");
    reveal_strlit("PlusAssign");
    reveal_strlit("ShiftLeft");
    reveal_strlit("ShiftLeftAssign");
    reveal_strlit("Times");
    reveal_strlit("TimesAssign");
    match op {
        BinaryOp::Plus => {},
        BinaryOp::Minus => {},
        BinaryOp::Times => {},
        BinaryOp::Divide => {},
        BinaryOp::Mod => {},
        BinaryOp::ShiftLeft => {},
        BinaryOp::LogicalShiftRight => {},
        BinaryOp::ArithmeticShiftRight => {},
        BinaryOp::LessThan => {},
        BinaryOp::LessThanOrEquals => {},
        BinaryOp::GreaterThan => {},
        BinaryOp::GreaterThanOrEquals => {},
        BinaryOp::Equals => {},
        BinaryOp::NotEquals => {},
        BinaryOp::BitwiseAnd => {},
        BinaryOp::BitwiseXor => {},
        BinaryOp::BitwiseOr => {},
        BinaryOp::LogicalAnd => {},
        BinaryOp::LogicalOr => {},
        BinaryOp::Assign => {},
        BinaryOp::PlusAssign => {},
        BinaryOp::MinusAssign => {},
        BinaryOp::TimesAssign => {},
        BinaryOp::DivideAssign => {},
        BinaryOp::ModAssign => {},
        BinaryOp::ShiftLeftAssign => {},
        BinaryOp::LogicalShiftRightAssign => {},
        BinaryOp::ArithmeticShiftRightAssign => {},
        BinaryOp::BitwiseAndAssign => {},
        BinaryOp::BitwiseXorAssign => {},
        BinaryOp::BitwiseOrAssign => {},
        BinaryOp::LogicalAndAssign => {},
        BinaryOp::LogicalOrAssign => {},
    }
}

spec fn unary_name_fingerprint(op: UnaryOp) -> (nat, char, char, char, char) {
    match op {
        UnaryOp::Plus => (4nat, 'P', 'l', 's', 'P'),
        UnaryOp::Minus => (5nat, 'M', 'i', 's', 'M'),
        UnaryOp::LogicalNot => (10nat, 'L', 'o', 't', 'N'),
        UnaryOp::BitwiseNot => (10nat, 'B', 'i', 't', 'N'),
    }
}

proof fn lemma_unary_name_fingerprint(op: UnaryOp)
    ensures
        fingerprint(spec_unary_op_name(op)) == unary_name_fingerprint(op),
{
    reveal_strlit("BitwiseNot");
    reveal_strlit("LogicalNot");
    reveal_strlit("Minus");
    reveal_strlit("Plus");
    match op {
        UnaryOp::Plus => {},
        UnaryOp::Minus => {},
        UnaryOp::LogicalNot => {},
        UnaryOp::BitwiseNot => {},
    }
}

/// The operator whose name has the given fingerprint.
spec fn binary_op_of_name_fingerprint(f: (nat, char, char, char, char)) -> BinaryOp {
    if f == (4nat, 'P', 'l', 's', 'P') {
        BinaryOp::Plus
    } else if f == (5nat, 'M', 'i', 's', 'M') {
        BinaryOp::Minus
    } else if f == (5nat, 'T', 'i', 's', 'T') {
        BinaryOp::Times
    } else if f == (6nat, 'D', 'i', 'e', 'D') {
        BinaryOp::Divide
    } else if f == (3nat, 'M', 'o', 'd', 'M') {
        BinaryOp::Mod
    } else if f == (9nat, 'S', 'h', 't', 'f') {
        BinaryOp::ShiftLeft
    } else if f == (17nat, 'L', 'o', 't', 'S') {
        BinaryOp::LogicalShiftRight
    } else if f == (20nat, 'A', 'r', 't', 't') {
        BinaryOp::ArithmeticShiftRight
    } else if f == (8nat, 'L', 'e', 'n', 'n') {
        BinaryOp::LessThan
    } else if f == (16nat, 'L', 'e', 's', 'n') {
        BinaryOp::LessThanOrEquals
    } else if f == (11nat, 'G', 'r', 'n', 'T') {
        BinaryOp::GreaterThan
    } else if f == (19nat, 'G', 'r', 's', 'T') {
        BinaryOp::GreaterThanOrEquals
    } else if f == (6nat, 'E', 'q', 's', 'E') {
        BinaryOp::Equals
    } else if f == (9nat, 'N', 'o', 's', 'l') {
        BinaryOp::NotEquals
    } else if f == (10nat, 'B', 'i', 'd', 'A') {
        BinaryOp::BitwiseAnd
    } else if f == (10nat, 'B', 'i', 'r', 'X') {
        BinaryOp::BitwiseXor
    } else if f == (9nat, 'B', 'i', 'r', 'O') {
        BinaryOp::BitwiseOr
    } else if f == (10nat, 'L', 'o', 'd', 'A') {
        BinaryOp::LogicalAnd
    } else if f == (9nat, 'L', 'o', 'r', 'O') {
        BinaryOp::LogicalOr
    } else if f == (6nat, 'A', 's', 'n', 'A') {
        BinaryOp::Assign
    } else if f == (10nat, 'P', 'l', 'n', 'i') {
        BinaryOp::PlusAssign
    } else if f == (11nat, 'M', 'i', 'n', 's') {
        BinaryOp::MinusAssign
    } else if f == (11nat, 'T', 'i', 'n', 's') {
        BinaryOp::TimesAssign
    } else if f == (12nat, 'D', 'i', 'n', 's') {
        BinaryOp::DivideAssign
    } else if f == (9nat, 'M', 'o', 'n', 'g') {
        BinaryOp::ModAssign
    } else if f == (15nat, 'S', 'h', 'n', 'f') {
        BinaryOp::ShiftLeftAssign
    } else if f == (23nat, 'L', 'o', 'n', 'S') {
        BinaryOp::LogicalShiftRightAssign
    } else if f == (26nat, 'A', 'r', 'n', 't') {
        BinaryOp::ArithmeticShiftRightAssign
    } else if f == (16nat, 'B', 'i', 'n', 'A') {
        BinaryOp::BitwiseAndAssign
    } else if f == (16nat, 'B', 'i', 'n', 'X') {
        BinaryOp::BitwiseXorAssign
    } else if f == (15nat, 'B', 'i', 'n', 'O') {
        BinaryOp::BitwiseOrAssign
    } else if f == (16nat, 'L', 'o', 'n', 'A') {
        BinaryOp::LogicalAndAssign
    } else {
        BinaryOp::LogicalOrAssign
    }
}

proof fn lemma_binary_name_decodes(op: BinaryOp)
    ensures
        binary_op_of_name_fingerprint(binary_name_fingerprint(op)) == op,
{
}

/// Every operator is written as its own spelling, and no two operators share one.
pub proof fn law_operator_spellings(a: ast::BinaryOp, b: ast::BinaryOp, c: ast::UnaryOp, d: ast::UnaryOp)
    ensures
        binary_op_text(ast::BinaryOp::Plus) == "+"@,
        binary_op_text(ast::BinaryOp::Minus) == "-"@,
        binary_op_text(ast::BinaryOp::Times) == "*"@,
        binary_op_text(ast::BinaryOp::Divide) == "/"@,
        binary_op_text(ast::BinaryOp::Mod) == "%"@,
        binary_op_text(ast::BinaryOp::ShiftLeft) == "<<"@,
        binary_op_text(ast::BinaryOp::LogicalShiftRight) == ">>>"@,
        binary_op_text(ast::BinaryOp::ArithmeticShiftRight) == ">>"@,
        binary_op_text(ast::BinaryOp::LessThan) == "<"@,
        binary_op_text(ast::BinaryOp::LessThanOrEquals) == "<="@,
        binary_op_text(ast::BinaryOp::GreaterThan) == ">"@,
        binary_op_text(ast::BinaryOp::GreaterThanOrEquals) == ">="@,
        binary_op_text(ast::BinaryOp::Equals) == "=="@,
        binary_op_text(ast::BinaryOp::NotEquals) == "!="@,
        binary_op_text(ast::BinaryOp::BitwiseAnd) == "&"@,
        binary_op_text(ast::BinaryOp::BitwiseXor) == "^"@,
        binary_op_text(ast::BinaryOp::BitwiseOr) == "|"@,
        binary_op_text(ast::BinaryOp::LogicalAnd) == "&&"@,
        binary_op_text(ast::BinaryOp::LogicalOr) == "||"@,
        binary_op_text(ast::BinaryOp::Assign) == "="@,
        binary_op_text(ast::BinaryOp::PlusAssign) == "+="@,
        binary_op_text(ast::BinaryOp::MinusAssign) == "-="@,
        binary_op_text(ast::BinaryOp::TimesAssign) == "*="@,
        binary_op_text(ast::BinaryOp::DivideAssign) == "/="@,
        binary_op_text(ast::BinaryOp::ModAssign) == "%="@,
        binary_op_text(ast::BinaryOp::ShiftLeftAssign) == "<<="@,
        binary_op_text(ast::BinaryOp::LogicalShiftRightAssign) == ">>>="@,
        binary_op_text(ast::BinaryOp::ArithmeticShiftRightAssign) == ">>="@,
        binary_op_text(ast::BinaryOp::BitwiseAndAssign) == "&="@,
        binary_op_text(ast::BinaryOp::BitwiseXorAssign) == "^="@,
        binary_op_text(ast::BinaryOp::BitwiseOrAssign) == "|="@,
        binary_op_text(ast::BinaryOp::LogicalAndAssign) == "&&="@,
        binary_op_text(ast::BinaryOp::LogicalOrAssign) == "||="@,
        unary_op_text(ast::UnaryOp::Plus) == "+"@,
        unary_op_text(ast::UnaryOp::Minus) == "-"@,
        unary_op_text(ast::UnaryOp::LogicalNot) == "!"@,
        unary_op_text(ast::UnaryOp::BitwiseNot) == "~"@,
        binary_op_text(a) == binary_op_text(b) ==> a == b,
        unary_op_text(c) == unary_op_text(d) ==> c == d,
{
    lemma_binary_text_fingerprint(a);
    lemma_binary_text_fingerprint(b);
    lemma_unary_text_fingerprint(c);
    lemma_unary_text_fingerprint(d);
}

/// In a string literal, a backslash followed by one of the letters of the single escapes
/// stands for one character, given here by its code: `\\n` is U+000A, `\\r` U+000D, `\\t`
/// U+0009, `\\v` U+000B, `\\b` U+0008, `\\f` U+000C and `\\0` U+0000; a backslash,
/// a quote or a double quote after a backslash stands for itself.
pub proof fn law_single_escapes(s: Seq<char>, i: int, delimiter: char)
    requires
        0 <= i,
        i + 1 < s.len(),
        s[i] == '\\',
    ensures
        s[i + 1] == 'n' ==> (spec_string_char_at(s, i, delimiter) matches Some((Some(c), e)) && c as u32 == 10 && e == i + 2),
        s[i + 1] == 'r' ==> (spec_string_char_at(s, i, delimiter) matches Some((Some(c), e)) && c as u32 == 13 && e == i + 2),
        s[i + 1] == 't' ==> (spec_string_char_at(s, i, delimiter) matches Some((Some(c), e)) && c as u32 == 9 && e == i + 2),
        s[i + 1] == 'v' ==> (spec_string_char_at(s, i, delimiter) matches Some((Some(c), e)) && c as u32 == 11 && e == i + 2),
        s[i + 1] == 'b' ==> (spec_string_char_at(s, i, delimiter) matches Some((Some(c), e)) && c as u32 == 8 && e == i + 2),
        s[i + 1] == 'f' ==> (spec_string_char_at(s, i, delimiter) matches Some((Some(c), e)) && c as u32 == 12 && e == i + 2),
        s[i + 1] == '0' ==> (spec_string_char_at(s, i, delimiter) matches Some((Some(c), e)) && c as u32 == 0 && e == i + 2),
        s[i + 1] == '\\' ==> (spec_string_char_at(s, i, delimiter) matches Some((Some(c), e)) && c as u32 == 92 && e == i + 2),
        s[i + 1] == '\'' ==> (spec_string_char_at(s, i, delimiter) matches Some((Some(c), e)) && c as u32 == 39 && e == i + 2),
        s[i + 1] == '\"' ==> (spec_string_char_at(s, i, delimiter) matches Some((Some(c), e)) && c as u32 == 34 && e == i + 2),
{
    reveal_with_fuel(crate::parser::first_mapping, 11);
}

/// Building the model keeps every operator, suffix and declaration keyword as the one of the
/// same name, and distinct ones stay distinct.
pub proof fn law_lowering_keeps_names(
    a: ast::BinaryOp,
    b: ast::BinaryOp,
    c: ast::UnaryOp,
    d: ast::UnaryOp,
)
    ensures
        spec_binary_op(ast::BinaryOp::Plus) == BinaryOp::Plus,
        spec_binary_op(ast::BinaryOp::Minus) == BinaryOp::Minus,
        spec_binary_op(ast::BinaryOp::Times) == BinaryOp::Times,
        spec_binary_op(ast::BinaryOp::Divide) == BinaryOp::Divide,
        spec_binary_op(ast::BinaryOp::Mod) == BinaryOp::Mod,
        spec_binary_op(ast::BinaryOp::ShiftLeft) == BinaryOp::ShiftLeft,
        spec_binary_op(ast::BinaryOp::LogicalShiftRight) == BinaryOp::LogicalShiftRight,
        spec_binary_op(ast::BinaryOp::ArithmeticShiftRight) == BinaryOp::ArithmeticShiftRight,
        spec_binary_op(ast::BinaryOp::LessThan) == BinaryOp::LessThan,
        spec_binary_op(ast::BinaryOp::LessThanOrEquals) == BinaryOp::LessThanOrEquals,
        spec_binary_op(ast::BinaryOp::GreaterThan) == BinaryOp::GreaterThan,
        spec_binary_op(ast::BinaryOp::GreaterThanOrEquals) == BinaryOp::GreaterThanOrEquals,
        spec_binary_op(ast::BinaryOp::Equals) == BinaryOp::Equals,
        spec_binary_op(ast::BinaryOp::NotEquals) == BinaryOp::NotEquals,
        spec_binary_op(ast::BinaryOp::BitwiseAnd) == BinaryOp::BitwiseAnd,
        spec_binary_op(ast::BinaryOp::BitwiseXor) == BinaryOp::BitwiseXor,
        spec_binary_op(ast::BinaryOp::BitwiseOr) == BinaryOp::BitwiseOr,
        spec_binary_op(ast::BinaryOp::LogicalAnd) == BinaryOp::LogicalAnd,
        spec_binary_op(ast::BinaryOp::LogicalOr) == BinaryOp::LogicalOr,
        spec_binary_op(ast::BinaryOp::Assign) == BinaryOp::Assign,
        spec_binary_op(ast::BinaryOp::PlusAssign) == BinaryOp::PlusAssign,
        spec_binary_op(ast::BinaryOp::MinusAssign) == BinaryOp::MinusAssign,
        spec_binary_op(ast::BinaryOp::TimesAssign) == BinaryOp::TimesAssign,
        spec_binary_op(ast::BinaryOp::DivideAssign) == BinaryOp::DivideAssign,
        spec_binary_op(ast::BinaryOp::ModAssign) == BinaryOp::ModAssign,
        spec_binary_op(ast::BinaryOp::ShiftLeftAssign) == BinaryOp::ShiftLeftAssign,
        spec_binary_op(ast::BinaryOp::LogicalShiftRightAssign) == BinaryOp::LogicalShiftRightAssign,
        spec_binary_op(ast::BinaryOp::ArithmeticShiftRightAssign) == BinaryOp::ArithmeticShiftRightAssign,
        spec_binary_op(ast::BinaryOp::BitwiseAndAssign) == BinaryOp::BitwiseAndAssign,
        spec_binary_op(ast::BinaryOp::BitwiseXorAssign) == BinaryOp::BitwiseXorAssign,
        spec_binary_op(ast::BinaryOp::BitwiseOrAssign) == BinaryOp::BitwiseOrAssign,
        spec_binary_op(ast::BinaryOp::LogicalAndAssign) == BinaryOp::LogicalAndAssign,
        spec_binary_op(ast::BinaryOp::LogicalOrAssign) == BinaryOp::LogicalOrAssign,
        spec_unary_op(ast::UnaryOp::Plus) == UnaryOp::Plus,
        spec_unary_op(ast::UnaryOp::Minus) == UnaryOp::Minus,
        spec_unary_op(ast::UnaryOp::LogicalNot) == UnaryOp::LogicalNot,
        spec_unary_op(ast::UnaryOp::BitwiseNot) == UnaryOp::BitwiseNot,
        spec_int_literal_suffix(ast::IntLiteralSuffix::U8) == IntLiteralSuffix::U8,
        spec_int_literal_suffix(ast::IntLiteralSuffix::U16) == IntLiteralSuffix::U16,
        spec_int_literal_suffix(ast::IntLiteralSuffix::U32) == IntLiteralSuffix::U32,
        spec_int_literal_suffix(ast::IntLiteralSuffix::U64) == IntLiteralSuffix::U64,
        spec_int_literal_suffix(ast::IntLiteralSuffix::I8) == IntLiteralSuffix::I8,
        spec_int_literal_suffix(ast::IntLiteralSuffix::I16) == IntLiteralSuffix::I16,
        spec_int_literal_suffix(ast::IntLiteralSuffix::I32) == IntLiteralSuffix::I32,
        spec_int_literal_suffix(ast::IntLiteralSuffix::I64) == IntLiteralSuffix::I64,
        spec_let_or_const(ast::LetOrConst::Let) == LetOrConst::Let,
        spec_let_or_const(ast::LetOrConst::Const) == LetOrConst::Const,
        spec_binary_op(a) == spec_binary_op(b) ==> a == b,
        spec_unary_op(c) == spec_unary_op(d) ==> c == d,
{
}

/// The dump names every operator, suffix and declaration keyword by its own name, and
/// distinct operators get distinct names.
pub proof fn law_dump_names(a: BinaryOp, b: BinaryOp, c: UnaryOp, d: UnaryOp)
    ensures
        spec_binary_op_name(BinaryOp::Plus) == "Plus"@,
        spec_binary_op_name(BinaryOp::Minus) == "Minus"@,
        spec_binary_op_name(BinaryOp::Times) == "Times"@,
        spec_binary_op_name(BinaryOp::Divide) == "Divide"@,
        spec_binary_op_name(BinaryOp::Mod) == "Mod"@,
        spec_binary_op_name(BinaryOp::ShiftLeft) == "ShiftLeft"@,
        spec_binary_op_name(BinaryOp::LogicalShiftRight) == "LogicalShiftRight"@,
        spec_binary_op_name(BinaryOp::ArithmeticShiftRight) == "ArithmeticShiftRight"@,
        spec_binary_op_name(BinaryOp::LessThan) == "LessThan"@,
        spec_binary_op_name(BinaryOp::LessThanOrEquals) == "LessThanOrEquals"@,
        spec_binary_op_name(BinaryOp::GreaterThan) == "GreaterThan"@,
        spec_binary_op_name(BinaryOp::GreaterThanOrEquals) == "GreaterThanOrEquals"@,
        spec_binary_op_name(BinaryOp::Equals) == "Equals"@,
        spec_binary_op_name(BinaryOp::NotEquals) == "NotEquals"@,
        spec_binary_op_name(BinaryOp::BitwiseAnd) == "BitwiseAnd"@,
        spec_binary_op_name(BinaryOp::BitwiseXor) == "BitwiseXor"@,
        spec_binary_op_name(BinaryOp::BitwiseOr) == "BitwiseOr"@,
        spec_binary_op_name(BinaryOp::LogicalAnd) == "LogicalAnd"@,
        spec_binary_op_name(BinaryOp::LogicalOr) == "LogicalOr"@,
        spec_binary_op_name(BinaryOp::Assign) == "Assign"@,
        spec_binary_op_name(BinaryOp::PlusAssign) == "PlusAssign"@,
        spec_binary_op_name(BinaryOp::MinusAssign) == "MinusAssign"@,
        spec_binary_op_name(BinaryOp::TimesAssign) == "TimesAssign"@,
        spec_binary_op_name(BinaryOp::DivideAssign) == "DivideAssign"@,
        spec_binary_op_name(BinaryOp::ModAssign) == "ModAssign"@,
        spec_binary_op_name(BinaryOp::ShiftLeftAssign) == "ShiftLeftAssign"@,
        spec_binary_op_name(BinaryOp::LogicalShiftRightAssign) == "LogicalShiftRightAssign"@,
        spec_binary_op_name(BinaryOp::ArithmeticShiftRightAssign) == "ArithmeticShiftRightAssign"@,
        spec_binary_op_name(BinaryOp::BitwiseAndAssign) == "BitwiseAndAssign"@,
        spec_binary_op_name(BinaryOp::BitwiseXorAssign) == "BitwiseXorAssign"@,
        spec_binary_op_name(BinaryOp::BitwiseOrAssign) == "BitwiseOrAssign"@,
        spec_binary_op_name(BinaryOp::LogicalAndAssign) == "LogicalAndAssign"@,
        spec_binary_op_name(BinaryOp::LogicalOrAssign) == "LogicalOrAssign"@,
        spec_unary_op_name(UnaryOp::Plus) == "Plus"@,
        spec_unary_op_name(UnaryOp::Minus) == "Minus"@,
        spec_unary_op_name(UnaryOp::LogicalNot) == "LogicalNot"@,
        spec_unary_op_name(UnaryOp::BitwiseNot) == "BitwiseNot"@,
        spec_suffix_name(IntLiteralSuffix::U8) == "U8"@,
        spec_suffix_name(IntLiteralSuffix::U16) == "U16"@,
        spec_suffix_name(IntLiteralSuffix::U32) == "U32"@,
        spec_suffix_name(IntLiteralSuffix::U64) == "U64"@,
        spec_suffix_name(IntLiteralSuffix::I8) == "I8"@,
        spec_suffix_name(IntLiteralSuffix::I16) == "I16"@,
        spec_suffix_name(IntLiteralSuffix::I32) == "I32"@,
        spec_suffix_name(IntLiteralSuffix::I64) == "I64"@,
        spec_let_or_const_name(LetOrConst::Let) == "Let"@,
        spec_let_or_const_name(LetOrConst::Const) == "Const"@,
        spec_binary_op_name(a) == spec_binary_op_name(b) ==> a == b,
        spec_unary_op_name(c) == spec_unary_op_name(d) ==> c == d,
{
    lemma_binary_name_fingerprint(a);
    lemma_binary_name_fingerprint(b);
    lemma_binary_name_decodes(a);
    lemma_binary_name_decodes(b);
    lemma_unary_name_fingerprint(c);
    lemma_unary_name_fingerprint(d);
}

/// The dump of a statement of the model, with fuel left, is a node whose kind is the name of
/// the statement's form.
pub proof fn law_statement_nodes_carry_their_kind(
    j: Json,
    m: Model,
    s: StatementData,
    opts: DumpOpts,
    fuel: nat,
)
    requires
        fuel > 0,
        m.stmt_valid(s),
        stmt_json_ok(j, m, s, opts, fuel),
    ensures
        s is EmptyStatement ==> json_kind_is(j, "EmptyStatement"@),
        s is ExpressionStatement ==> json_kind_is(j, "ExpressionStatement"@),
        s is IfStatement ==> json_kind_is(j, "IfStatement"@),
        s is WhileStatement ==> json_kind_is(j, "WhileStatement"@),
        s is ReturnStatement ==> json_kind_is(j, "ReturnStatement"@),
        s is BreakStatement ==> json_kind_is(j, "BreakStatement"@),
        s is ContinueStatement ==> json_kind_is(j, "ContinueStatement"@),
        s is BlockStatement ==> json_kind_is(j, "BlockStatement"@),
        s is ForStatement ==> json_kind_is(j, "ForStatement"@),
        s is SwitchStatement ==> json_kind_is(j, "SwitchStatement"@),
        s is VarDeclStatement ==> json_kind_is(j, "VarDeclStatement"@),
        s is FunctionDeclStatement ==> json_kind_is(j, "FunctionDeclStatement"@),
        s is LabeledStatement ==> json_kind_is(j, "LabeledStatement"@),
        s is TryStatement ==> json_kind_is(j, "TryStatement"@),
{
}

/// The dump of an expression of the model, with fuel left, is a node whose kind is the name of
/// the expression's form.
pub proof fn law_expression_nodes_carry_their_kind(
    j: Json,
    m: Model,
    e: ExpressionData,
    opts: DumpOpts,
    fuel: nat,
)
    requires
        fuel > 0,
        m.expr_valid(e),
        expr_json_ok(j, m, e, opts, fuel),
    ensures
        e is CommaExpression ==> json_kind_is(j, "CommaExpression"@),
        e is TernaryExpression ==> json_kind_is(j, "TernaryExpression"@),
        e is BinaryExpression ==> json_kind_is(j, "BinaryExpression"@),
        e is UnaryExpression ==> json_kind_is(j, "UnaryExpression"@),
        e is BooleanLiteral ==> json_kind_is(j, "BooleanLiteral"@),
        e is NullLiteral ==> json_kind_is(j, "NullLiteral"@),
        e is StringLiteral ==> json_kind_is(j, "StringLiteral"@),
        e is IntLiteral ==> json_kind_is(j, "IntLiteral"@),
        e is DotAccessExpression ==> json_kind_is(j, "DotAccessExpression"@),
        e is IndexAccessExpression ==> json_kind_is(j, "IndexAccessExpression"@),
        e is FunctionCallExpression ==> json_kind_is(j, "FunctionCallExpression"@),
        e is NonNullAssertExpression ==> json_kind_is(j, "NonNullAssertExpression"@),
        e is IdentifierExpression ==> json_kind_is(j, "IdentifierExpression"@),
{
}

/// The value of a hexadecimal digit character.
pub open spec fn hex_value(c: char) -> int {
    if '0' <= c <= '9' {
        c as u32 - 48
    } else if 'a' <= c <= 'f' {
        c as u32 - 87
    } else {
        -1
    }
}

/// In a JSON string a double quote, a backslash, a line feed, a carriage return and a tab are
/// written as a backslash and `"`, `\\`, `n`, `r` and `t`; every other character below U+0020
/// as `\\u00` and two hex digits whose value is its code; every other character as itself.
pub proof fn law_json_string_escapes(c: char)
    ensures
        c as u32 == 34 ==> spec_escape_char(c) =~= seq!['\\', '"'],
        c as u32 == 92 ==> spec_escape_char(c) =~= seq!['\\', '\\'],
        c as u32 == 10 ==> spec_escape_char(c) =~= seq!['\\', 'n'],
        c as u32 == 13 ==> spec_escape_char(c) =~= seq!['\\', 'r'],
        c as u32 == 9 ==> spec_escape_char(c) =~= seq!['\\', 't'],
        (c as u32) < 32 && c as u32 != 9 && c as u32 != 10 && c as u32 != 13 ==> {
            let e = spec_escape_char(c);
            &&& e.len() == 6
            &&& e.subrange(0, 4) =~= seq!['\\', 'u', '0', '0']
            &&& hex_value(e[4]) * 16 + hex_value(e[5]) == c as u32
        },
        (c as u32) >= 32 && c as u32 != 34 && c as u32 != 92 ==> spec_escape_char(c) =~= seq![c],
{
}

/// The value of a digit character of any case, by its code: `0`-`9` are 0-9, `a`-`z` and
/// `A`-`Z` are 10-35.
pub open spec fn digit_value(c: char) -> int {
    if 48 <= c as u32 <= 57 {
        c as u32 - 48
    } else if 97 <= c as u32 <= 122 {
        c as u32 - 87
    } else if 65 <= c as u32 <= 90 {
        c as u32 - 55
    } else {
        -1
    }
}

/// A character is a digit of a radix exactly when its value is below the radix, and then the
/// digit it stands for is that value.
pub proof fn law_digits(c: char, radix: u32)
    ensures
        spec_to_digit(c, radix) is Some <==> 0 <= digit_value(c) < radix,
        spec_to_digit(c, radix) matches Some(d) ==> d == digit_value(c),
{
}

/// The words `true` and `false` are the boolean literals of those values.
pub proof fn law_boolean_words(s: Seq<char>, i: int)
    ensures
        keyword_at(s, i, "true"@) ==> spec_boolean_at(s, i) == Some(true),
        keyword_at(s, i, "false"@) ==> spec_boolean_at(s, i) == Some(false),
        spec_boolean_at(s, i) == Some(true) ==> keyword_at(s, i, "true"@),
        spec_boolean_at(s, i) == Some(false) ==> keyword_at(s, i, "false"@),
{
    reveal_strlit("true");
    reveal_strlit("false");
    if keyword_at(s, i, "true"@) && keyword_at(s, i, "false"@) {
        assert(s.subrange(i, i + 4)[0] == s[i]);
        assert(s.subrange(i, i + 5)[0] == s[i]);
        assert("true"@[0] == 't');
        assert("false"@[0] == 'f');
    }
}

/// An integer literal is tagged hexadecimal, octal or binary only where it starts with `0x`,
/// `0o` or `0b`.
pub proof fn law_radix_prefixes(s: Seq<char>, i: int)
    ensures
        spec_int_literal_at(s, i) matches Some((v, e, r)) ==> (r == ast::Radix::Hex ==> str_at(
            s,
            i,
            "0x"@,
        )),
        spec_int_literal_at(s, i) matches Some((v, e, r)) ==> (r == ast::Radix::Octal ==> str_at(
            s,
            i,
            "0o"@,
        )),
        spec_int_literal_at(s, i) matches Some((v, e, r)) ==> (r == ast::Radix::Binary
            ==> str_at(s, i, "0b"@)),
{
}

/// In a string literal, a backslash, `x` and two hexadecimal digits stand for the character
/// whose code is the value of the two digits.
pub proof fn law_hex_escapes(s: Seq<char>, i: int, delimiter: char)
    requires
        0 <= i,
        i + 3 < s.len(),
        s[i] == '\\',
        s[i + 1] == 'x',
        0 <= digit_value(s[i + 2]) < 16,
        0 <= digit_value(s[i + 3]) < 16,
    ensures
        spec_string_char_at(s, i, delimiter) matches Some((Some(c), e)) && c as u32
            == digit_value(s[i + 2]) * 16 + digit_value(s[i + 3]) && e == i + 4,
{
    reveal_with_fuel(crate::parser::first_mapping, 11);
    reveal_with_fuel(crate::parser::spec_hex_value, 3);
    law_digits(s[i + 2], 16);
    law_digits(s[i + 3], 16);
    let cs = s.subrange(i + 2, i + 4);
    assert(cs.drop_last().drop_last() =~= Seq::<char>::empty());
    assert(cs.drop_last().last() == s[i + 2]);
    assert(cs.last() == s[i + 3]);
    assert(crate::parser::all_hex(cs)) by {
        assert forall|k: int| 0 <= k < cs.len() implies crate::parser::is_radix_digit(
            #[trigger] cs[k],
            16,
        ) by {
            assert(cs[k] == s[i + 2 + k]);
        }
    }
    let v = crate::parser::spec_hex_value(cs);
    assert(v == digit_value(s[i + 2]) * 16 + digit_value(s[i + 3]));
    assert(crate::text::is_scalar_value(v as u32));
}

} // verus!
