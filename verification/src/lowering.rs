use vstd::prelude::*;

use crate::ast;
use crate::model::{
    CatchClauseData,
    ExpressionData,
    FileData,
    FileItemData,
    ForInitData,
    FunctionSignatureData,
    ItemPtr,
    Model,
    StatementData,
    SwitchItemData,
};
use crate::model::{
    lemma_file_item_key_in,
    lemma_growth_keeps_spans,
    lemma_stmt_key_in,
    lemma_valid_grows,
    SourceFilePtr,
};
use crate::model_builder::{
    spec_location,
    opt_string_view,
    spec_binary_op,
    spec_int_literal_suffix,
    spec_label,
    spec_let_or_const,
    spec_unary_op,
};
use crate::peg_parser::{Parsed, ParsedRange};

verus! {

/// The suffix of a parsed integer literal, as the model stores it.
pub open spec fn lowered_suffix(s: Option<crate::peg_parser::Parsed<ast::IntLiteralSuffix>>) -> Option<
    crate::model::IntLiteralSuffix,
> {
    match s {
        Some(s) => Some(spec_int_literal_suffix(s.value)),
        None => None,
    }
}

/// The model holds the parsed expression `a` as `e`.  Ternary, binary, unary and member
/// expressions without operators are held as their operand; with operators, ternaries nest
/// to the right, binary operators fold to the left, unary operators nest with the first one
/// outermost, and member operations apply in order, the last one outermost.
pub open spec fn expr_lowered(m: Model, a: ast::Expression, e: ExpressionData) -> bool
    decreases a, 0int, 0int,
{
    match a {
        ast::Expression::CommaExpression(c) => e matches ExpressionData::CommaExpression(p) && {
            &&& p.id < m.comma_expressions.items@.len()
            &&& m.comma_expressions.items@[p.id as int].exps@.len() == c.exps@.len()
            &&& forall|i: int|
                0 <= i < c.exps@.len() ==> expr_lowered(
                    m,
                    c.exps@[i].value,
                    #[trigger] m.comma_expressions.items@[p.id as int].exps@[i],
                )
        },
        ast::Expression::TernaryExpression(t) => if t.terms@.len() == 0 {
            expr_lowered(m, t.if_false.value, e)
        } else {
            ternary_lowered(m, t, 0, e)
        },
        ast::Expression::BinaryExpression(b) => if b.rest@.len() == 0 {
            expr_lowered(m, b.first.value, e)
        } else {
            binary_lowered(m, b, b.rest@.len() - 1, e)
        },
        ast::Expression::UnaryExpression(u) => if u.ops@.len() == 0 {
            expr_lowered(m, u.exp.value, e)
        } else {
            unary_lowered(m, u, 0, e)
        },
        ast::Expression::BooleanLiteral(v) => e matches ExpressionData::BooleanLiteral(p) && {
            &&& p.id < m.boolean_literals.items@.len()
            &&& m.boolean_literals.items@[p.id as int].value == v
        },
        ast::Expression::NullLiteral => e matches ExpressionData::NullLiteral(p) && p.id
            < m.null_literals.items@.len(),
        ast::Expression::StringLiteral(v) => e matches ExpressionData::StringLiteral(p) && {
            &&& p.id < m.string_literals.items@.len()
            &&& m.string_literals.items@[p.id as int].value@ == v@
        },
        ast::Expression::IntLiteral(v) => e matches ExpressionData::IntLiteral(p) && {
            &&& p.id < m.int_literals.items@.len()
            &&& m.int_literals.items@[p.id as int].value == v.value
            &&& m.int_literals.items@[p.id as int].suffix == lowered_suffix(v.suffix)
        },
        ast::Expression::MemberExpression(x) => if x.rest@.len() == 0 {
            expr_lowered(m, x.first.value, e)
        } else {
            member_lowered(m, x, x.rest@.len() - 1, e)
        },
        ast::Expression::IdentifierExpression(v) => e matches ExpressionData::IdentifierExpression(p)
            && {
            &&& p.id < m.identifier_expressions.items@.len()
            &&& m.identifier_expressions.items@[p.id as int].name@ == v.name@
        },
    }
}

/// The model holds the terms of a ternary expression from `ix` on as `e`.
pub open spec fn ternary_lowered(m: Model, t: ast::TernaryExpression, ix: int, e: ExpressionData) -> bool
    decreases t, t.terms@.len() - ix, 0int,
{
    if 0 <= ix < t.terms@.len() {
        e matches ExpressionData::TernaryExpression(p) && {
            &&& p.id < m.ternary_expressions.items@.len()
            &&& expr_lowered(
                m,
                t.terms@[ix].value.test.value,
                m.ternary_expressions.items@[p.id as int].test,
            )
            &&& expr_lowered(
                m,
                t.terms@[ix].value.if_true.value,
                m.ternary_expressions.items@[p.id as int].if_true,
            )
            &&& if ix == t.terms@.len() - 1 {
                expr_lowered(m, t.if_false.value, m.ternary_expressions.items@[p.id as int].if_false)
            } else {
                ternary_lowered(m, t, ix + 1, m.ternary_expressions.items@[p.id as int].if_false)
            }
        }
    } else {
        false
    }
}

/// The model holds the operand and the terms up to `ix` of a binary expression as `e`.
pub open spec fn binary_lowered(m: Model, b: ast::BinaryExpression, ix: int, e: ExpressionData) -> bool
    decreases b, ix, 0int,
{
    if 0 <= ix < b.rest@.len() {
        e matches ExpressionData::BinaryExpression(p) && {
            &&& p.id < m.binary_expressions.items@.len()
            &&& m.binary_expressions.items@[p.id as int].op == spec_binary_op(
                b.rest@[ix].value.op.value,
            )
            &&& expr_lowered(
                m,
                b.rest@[ix].value.exp.value,
                m.binary_expressions.items@[p.id as int].right,
            )
            &&& if ix == 0 {
                expr_lowered(m, b.first.value, m.binary_expressions.items@[p.id as int].left)
            } else {
                binary_lowered(m, b, ix - 1, m.binary_expressions.items@[p.id as int].left)
            }
        }
    } else {
        false
    }
}

/// The model holds the operators from `ix` on of a unary expression, and its operand, as `e`.
pub open spec fn unary_lowered(m: Model, u: ast::UnaryExpression, ix: int, e: ExpressionData) -> bool
    decreases u, u.ops@.len() - ix, 0int,
{
    if 0 <= ix < u.ops@.len() {
        e matches ExpressionData::UnaryExpression(p) && {
            &&& p.id < m.unary_expressions.items@.len()
            &&& m.unary_expressions.items@[p.id as int].op == spec_unary_op(u.ops@[ix].value)
            &&& if ix == u.ops@.len() - 1 {
                expr_lowered(m, u.exp.value, m.unary_expressions.items@[p.id as int].exp)
            } else {
                unary_lowered(m, u, ix + 1, m.unary_expressions.items@[p.id as int].exp)
            }
        }
    } else {
        false
    }
}

/// The model holds the first operand and the member operations up to `ix` as `e`.
pub open spec fn member_lowered(m: Model, x: ast::MemberExpression, ix: int, e: ExpressionData) -> bool
    decreases x, ix, 1int,
{
    if 0 <= ix < x.rest@.len() {
        match x.rest@[ix].value {
            ast::MemberOp::DotAccess(d) => e matches ExpressionData::DotAccessExpression(p) && {
                &&& p.id < m.dot_access_expressions.items@.len()
                &&& m.dot_access_expressions.items@[p.id as int].name@ == d.name.value@
                &&& member_inner_lowered(m, x, ix, m.dot_access_expressions.items@[p.id as int].exp)
            },
            ast::MemberOp::FunctionCall(f) => e matches ExpressionData::FunctionCallExpression(p)
                && {
                &&& p.id < m.function_call_expressions.items@.len()
                &&& m.function_call_expressions.items@[p.id as int].args@.len()
                    == f.args.value@.len()
                &&& forall|i: int|
                    0 <= i < f.args.value@.len() ==> expr_lowered(
                        m,
                        f.args.value@[i].value,
                        #[trigger] m.function_call_expressions.items@[p.id as int].args@[i],
                    )
                &&& member_inner_lowered(
                    m,
                    x,
                    ix,
                    m.function_call_expressions.items@[p.id as int].exp,
                )
            },
            ast::MemberOp::IndexAccess(v) => e matches ExpressionData::IndexAccessExpression(p)
                && {
                &&& p.id < m.index_access_expressions.items@.len()
                &&& expr_lowered(
                    m,
                    v.exp.value,
                    m.index_access_expressions.items@[p.id as int].access_exp,
                )
                &&& member_inner_lowered(
                    m,
                    x,
                    ix,
                    m.index_access_expressions.items@[p.id as int].exp,
                )
            },
            ast::MemberOp::NonNullAssert => e matches ExpressionData::NonNullAssertExpression(p)
                && {
                &&& p.id < m.non_null_assert_expressions.items@.len()
                &&& member_inner_lowered(
                    m,
                    x,
                    ix,
                    m.non_null_assert_expressions.items@[p.id as int].exp,
                )
            },
        }
    } else {
        false
    }
}

/// What the member operation at `ix` applies to: the first operand, or the operations before.
pub open spec fn member_inner_lowered(m: Model, x: ast::MemberExpression, ix: int, e: ExpressionData) -> bool
    decreases x, ix, 0int,
{
    if ix == 0 {
        expr_lowered(m, x.first.value, e)
    } else if 0 < ix < x.rest@.len() {
        member_lowered(m, x, ix - 1, e)
    } else {
        false
    }
}


/// The model holds an optional parsed expression as `e`.
pub open spec fn opt_expr_lowered(
    m: Model,
    a: Option<Box<Parsed<ast::Expression>>>,
    e: Option<ExpressionData>,
) -> bool {
    match a {
        Some(x) => e matches Some(y) && expr_lowered(m, x.value, y),
        None => e is None,
    }
}

/// The model holds the parsed statement `a` as `s`.
pub open spec fn stmt_lowered(m: Model, a: ast::Statement, s: StatementData) -> bool
    decreases a, 0int,
{
    match a {
        ast::Statement::EmptyStatement => s matches StatementData::EmptyStatement(p) && p.id
            < m.empty_statements.items@.len(),
        ast::Statement::ExpressionStatement(x) => s matches StatementData::ExpressionStatement(p)
            && {
            &&& p.id < m.expression_statements.items@.len()
            &&& expr_lowered(m, x.exp.value, m.expression_statements.items@[p.id as int].exp)
        },
        ast::Statement::IfStatement(x) => s matches StatementData::IfStatement(p) && {
            let d = m.if_statements.items@[p.id as int];
            &&& p.id < m.if_statements.items@.len()
            &&& expr_lowered(m, x.test.value, d.test)
            &&& stmt_lowered(m, x.if_true.value, d.if_true)
            &&& (x.if_false is Some) == (d.if_false is Some)
            &&& x.if_false is Some ==> stmt_lowered(m, x.if_false->0.value, d.if_false->0)
        },
        ast::Statement::WhileStatement(x) => s matches StatementData::WhileStatement(p) && {
            let d = m.while_statements.items@[p.id as int];
            &&& p.id < m.while_statements.items@.len()
            &&& expr_lowered(m, x.test.value, d.test)
            &&& stmt_lowered(m, x.stmt.value, d.stmt)
        },
        ast::Statement::ReturnStatement(x) => s matches StatementData::ReturnStatement(p) && {
            &&& p.id < m.return_statements.items@.len()
            &&& opt_expr_lowered(m, x.exp, m.return_statements.items@[p.id as int].exp)
        },
        ast::Statement::BreakStatement(x) => s matches StatementData::BreakStatement(p) && {
            &&& p.id < m.break_statements.items@.len()
            &&& opt_string_view(m.break_statements.items@[p.id as int].label) == spec_label(
                x.label,
            )
        },
        ast::Statement::ContinueStatement(x) => s matches StatementData::ContinueStatement(p) && {
            &&& p.id < m.continue_statements.items@.len()
            &&& opt_string_view(m.continue_statements.items@[p.id as int].label) == spec_label(
                x.label,
            )
        },
        ast::Statement::BlockStatement(x) => s matches StatementData::BlockStatement(p) && {
            let d = m.block_statements.items@[p.id as int];
            &&& p.id < m.block_statements.items@.len()
            &&& d.stmts@.len() == x.stmts.value@.len()
            &&& forall|i: int|
                0 <= i < x.stmts.value@.len() ==> stmt_lowered(
                    m,
                    x.stmts.value@[i].value,
                    #[trigger] d.stmts@[i],
                )
        },
        ast::Statement::ForStatement(x) => s matches StatementData::ForStatement(p) && {
            let d = m.for_statements.items@[p.id as int];
            &&& p.id < m.for_statements.items@.len()
            &&& (x.init is Some) == (d.init is Some)
            &&& x.init is Some ==> for_init_lowered(m, x.init->0.value, d.init->0)
            &&& opt_expr_lowered(m, x.test, d.test)
            &&& opt_expr_lowered(m, x.advance, d.advance)
            &&& stmt_lowered(m, x.stmt.value, d.stmt)
        },
        ast::Statement::SwitchStatement(x) => s matches StatementData::SwitchStatement(p) && {
            let d = m.switch_statements.items@[p.id as int];
            &&& p.id < m.switch_statements.items@.len()
            &&& expr_lowered(m, x.exp.value, d.exp)
            &&& d.items@.len() == x.items.value@.len()
            &&& forall|i: int|
                0 <= i < x.items.value@.len() ==> switch_item_lowered(
                    m,
                    x.items.value@[i].value,
                    #[trigger] d.items@[i],
                )
        },
        ast::Statement::VarDeclStatement(x) => s matches StatementData::VarDeclStatement(p) && {
            let d = m.var_decl_statements.items@[p.id as int];
            &&& p.id < m.var_decl_statements.items@.len()
            &&& d.let_or_const == spec_let_or_const(x.let_or_const.value)
            &&& d.name@ == x.name.value@
            &&& opt_expr_lowered(m, x.init, d.init)
        },
        ast::Statement::FunctionDeclStatement(x) => s matches StatementData::FunctionDeclStatement(p)
            && {
            let d = m.function_decl_statements.items@[p.id as int];
            &&& p.id < m.function_decl_statements.items@.len()
            &&& d.name@ == x.name.value@
            &&& signature_lowered(m, x.args.value@, d.signature)
            &&& stmt_lowered(m, x.body.value, d.body)
        },
        ast::Statement::LabeledStatement(x) => s matches StatementData::LabeledStatement(p) && {
            let d = m.labeled_statements.items@[p.id as int];
            &&& p.id < m.labeled_statements.items@.len()
            &&& d.name@ == x.name.value@
            &&& stmt_lowered(m, x.stmt.value, d.stmt)
        },
        ast::Statement::TryStatement(x) => s matches StatementData::TryStatement(p) && {
            let d = m.try_statements.items@[p.id as int];
            &&& p.id < m.try_statements.items@.len()
            &&& stmt_lowered(m, x.stmt.value, d.stmt)
            &&& (x.catch_clause is Some) == (d.catch_clause is Some)
            &&& x.catch_clause is Some ==> catch_lowered(
                m,
                x.catch_clause->0.value,
                d.catch_clause->0,
            )
            &&& (x.finally_clause is Some) == (d.finally_clause is Some)
            &&& x.finally_clause is Some ==> stmt_lowered(
                m,
                x.finally_clause->0.value,
                d.finally_clause->0,
            )
        },
    }
}

/// The model holds the initializer of a `for` statement as `fi`.
pub open spec fn for_init_lowered(m: Model, a: ast::ForInit, fi: ForInitData) -> bool
    decreases a, 0int,
{
    match a {
        ast::ForInit::Expression(e) => fi matches ForInitData::Expression(de) && expr_lowered(
            m,
            e.value,
            de,
        ),
        ast::ForInit::VarDecl(s) => fi matches ForInitData::VarDecl(ds) && stmt_lowered(
            m,
            s.value,
            ds,
        ),
    }
}

/// The model holds an item of a `switch` statement as `si`.
pub open spec fn switch_item_lowered(m: Model, a: ast::SwitchItem, si: SwitchItemData) -> bool
    decreases a, 0int,
{
    match a {
        ast::SwitchItem::Statement(s) => si matches SwitchItemData::Statement(p) && {
            &&& p.id < m.switch_body_statements.items@.len()
            &&& stmt_lowered(m, s.value, m.switch_body_statements.items@[p.id as int].stmt)
        },
        ast::SwitchItem::Case(e) => si matches SwitchItemData::Case(p) && {
            &&& p.id < m.switch_cases.items@.len()
            &&& expr_lowered(m, e.value, m.switch_cases.items@[p.id as int].exp)
        },
        ast::SwitchItem::Default => si matches SwitchItemData::Default(p) && p.id
            < m.switch_defaults.items@.len(),
    }
}

/// The model holds the `catch` clause of a `try` statement at `p`.
pub open spec fn catch_lowered(m: Model, a: ast::CatchClause, p: ItemPtr<CatchClauseData>) -> bool
    decreases a, 0int,
{
    &&& p.id < m.catch_clauses.items@.len()
    &&& opt_string_view(m.catch_clauses.items@[p.id as int].name) == spec_label(a.name)
    &&& stmt_lowered(m, a.stmt.value, m.catch_clauses.items@[p.id as int].stmt)
}

/// The model holds the arguments of a function declaration as the signature at `p`.
pub open spec fn signature_lowered(
    m: Model,
    args: Seq<Parsed<ast::FunctionDeclArg>>,
    p: ItemPtr<FunctionSignatureData>,
) -> bool {
    let d = m.function_signatures.items@[p.id as int];
    &&& p.id < m.function_signatures.items@.len()
    &&& d.args@.len() == args.len()
    &&& forall|i: int|
        0 <= i < args.len() ==> {
            &&& (#[trigger] d.args@[i]).id < m.function_decl_args.items@.len()
            &&& m.function_decl_args.items@[d.args@[i].id as int].name@ == args[i].value.name.value@
        }
}

/// The model holds an item of a parsed file as `fi`.
pub open spec fn file_item_lowered(m: Model, a: ast::FileItem, fi: FileItemData) -> bool {
    match a {
        ast::FileItem::Statement(s) => fi matches FileItemData::Statement(ds) && stmt_lowered(
            m,
            s,
            ds,
        ),
        ast::FileItem::TypeDecl(_) => fi matches FileItemData::TypeDecl(p) && p.id
            < m.type_decls.items@.len(),
        ast::FileItem::ImportDecl(x) => fi matches FileItemData::ImportDecl(p) && {
            &&& p.id < m.import_decls.items@.len()
            &&& m.import_decls.items@[p.id as int].name@ == x.name.value@
            &&& m.import_decls.items@[p.id as int].source@ == x.source.value@
        },
    }
}

/// The model holds the parsed file `f` at `p`: one item for each parsed item, in order.
pub open spec fn file_lowered(m: Model, f: ast::File, p: ItemPtr<FileData>) -> bool {
    &&& p.id < m.files.items@.len()
    &&& m.files.items@[p.id as int].items@.len() == f.items@.len()
    &&& forall|i: int|
        0 <= i < f.items@.len() ==> file_item_lowered(
            m,
            f.items@[i].value,
            #[trigger] m.files.items@[p.id as int].items@[i],
        )
}

//--------------------------------------------------
// Chains of operators, as the builder makes them: each node is built around the node or the
// operand that it takes.

/// The model holds the ternary terms from `ix` on as `e`, the innermost ending in `fd`.
pub open spec fn ternary_chain(
    m: Model,
    terms: Seq<Parsed<ast::TernaryExpressionTerm>>,
    ix: int,
    fd: ExpressionData,
    e: ExpressionData,
) -> bool
    decreases terms.len() - ix,
{
    if 0 <= ix < terms.len() {
        e matches ExpressionData::TernaryExpression(p) && {
            let d = m.ternary_expressions.items@[p.id as int];
            &&& p.id < m.ternary_expressions.items@.len()
            &&& expr_lowered(m, terms[ix].value.test.value, d.test)
            &&& expr_lowered(m, terms[ix].value.if_true.value, d.if_true)
            &&& if ix == terms.len() - 1 {
                d.if_false == fd
            } else {
                ternary_chain(m, terms, ix + 1, fd, d.if_false)
            }
        }
    } else {
        false
    }
}

/// The model holds the binary terms up to `ix` as `e`, the innermost taking `fd` on its left.
pub open spec fn binary_chain(
    m: Model,
    terms: Seq<Parsed<ast::BinaryExpressionTerm>>,
    ix: int,
    fd: ExpressionData,
    e: ExpressionData,
) -> bool
    decreases ix,
{
    if 0 <= ix < terms.len() {
        e matches ExpressionData::BinaryExpression(p) && {
            let d = m.binary_expressions.items@[p.id as int];
            &&& p.id < m.binary_expressions.items@.len()
            &&& d.op == spec_binary_op(terms[ix].value.op.value)
            &&& expr_lowered(m, terms[ix].value.exp.value, d.right)
            &&& if ix == 0 {
                d.left == fd
            } else {
                binary_chain(m, terms, ix - 1, fd, d.left)
            }
        }
    } else {
        false
    }
}

/// The model holds the unary operators from `ix` on as `e`, the innermost applied to `fd`.
pub open spec fn unary_chain(
    m: Model,
    ops: Seq<Parsed<ast::UnaryOp>>,
    ix: int,
    fd: ExpressionData,
    e: ExpressionData,
) -> bool
    decreases ops.len() - ix,
{
    if 0 <= ix < ops.len() {
        e matches ExpressionData::UnaryExpression(p) && {
            let d = m.unary_expressions.items@[p.id as int];
            &&& p.id < m.unary_expressions.items@.len()
            &&& d.op == spec_unary_op(ops[ix].value)
            &&& if ix == ops.len() - 1 {
                d.exp == fd
            } else {
                unary_chain(m, ops, ix + 1, fd, d.exp)
            }
        }
    } else {
        false
    }
}

/// The model holds one member operation, applied to `inner`, as `e`.
pub open spec fn member_op_lowered(m: Model, op: ast::MemberOp, inner: ExpressionData, e: ExpressionData) -> bool {
    match op {
        ast::MemberOp::DotAccess(d) => e matches ExpressionData::DotAccessExpression(p) && {
            &&& p.id < m.dot_access_expressions.items@.len()
            &&& m.dot_access_expressions.items@[p.id as int].name@ == d.name.value@
            &&& m.dot_access_expressions.items@[p.id as int].exp == inner
        },
        ast::MemberOp::FunctionCall(f) => e matches ExpressionData::FunctionCallExpression(p) && {
            &&& p.id < m.function_call_expressions.items@.len()
            &&& m.function_call_expressions.items@[p.id as int].args@.len() == f.args.value@.len()
            &&& forall|i: int|
                0 <= i < f.args.value@.len() ==> expr_lowered(
                    m,
                    f.args.value@[i].value,
                    #[trigger] m.function_call_expressions.items@[p.id as int].args@[i],
                )
            &&& m.function_call_expressions.items@[p.id as int].exp == inner
        },
        ast::MemberOp::IndexAccess(v) => e matches ExpressionData::IndexAccessExpression(p) && {
            &&& p.id < m.index_access_expressions.items@.len()
            &&& expr_lowered(m, v.exp.value, m.index_access_expressions.items@[p.id as int].access_exp)
            &&& m.index_access_expressions.items@[p.id as int].exp == inner
        },
        ast::MemberOp::NonNullAssert => e matches ExpressionData::NonNullAssertExpression(p) && {
            &&& p.id < m.non_null_assert_expressions.items@.len()
            &&& m.non_null_assert_expressions.items@[p.id as int].exp == inner
        },
    }
}

/// What a member operation node applies to.
pub open spec fn member_op_inner(m: Model, e: ExpressionData) -> ExpressionData {
    match e {
        ExpressionData::DotAccessExpression(p) => m.dot_access_expressions.items@[p.id as int].exp,
        ExpressionData::FunctionCallExpression(p) => m.function_call_expressions.items@[p.id as int].exp,
        ExpressionData::IndexAccessExpression(p) => m.index_access_expressions.items@[p.id as int].exp,
        ExpressionData::NonNullAssertExpression(p) => m.non_null_assert_expressions.items@[p.id as int].exp,
        _ => e,
    }
}

/// The model holds the member operations up to `ix` as `e`, the innermost applied to `fd`.
pub open spec fn member_chain(
    m: Model,
    rest: Seq<Parsed<ast::MemberOp>>,
    ix: int,
    fd: ExpressionData,
    e: ExpressionData,
) -> bool
    decreases ix,
{
    if 0 <= ix < rest.len() {
        if ix == 0 {
            member_op_lowered(m, rest[ix].value, fd, e)
        } else {
            &&& member_op_lowered(m, rest[ix].value, member_op_inner(m, e), e)
            &&& member_chain(m, rest, ix - 1, fd, member_op_inner(m, e))
        }
    } else {
        false
    }
}

/// What a model holds of a parsed expression, it still holds once it has grown.
pub proof fn lemma_expr_lowered_grows(m1: Model, m2: Model, a: ast::Expression, e: ExpressionData)
    requires
        m1.items_grow_to(m2),
        expr_lowered(m1, a, e),
    ensures
        expr_lowered(m2, a, e),
    decreases a, 0int, 0int,
{
    match a {
        ast::Expression::CommaExpression(c) => {
            if let ExpressionData::CommaExpression(p) = e {
                let d = m1.comma_expressions.items@[p.id as int];
                assert(m2.comma_expressions.items@[p.id as int] == d);
                assert forall|i: int| 0 <= i < c.exps@.len() implies expr_lowered(
                    m2,
                    c.exps@[i].value,
                    #[trigger] d.exps@[i],
                ) by {
                    lemma_expr_lowered_grows(m1, m2, c.exps@[i].value, d.exps@[i]);
                }
            }
        },
        ast::Expression::TernaryExpression(t) => {
            if t.terms@.len() == 0 {
                lemma_expr_lowered_grows(m1, m2, t.if_false.value, e);
            } else {
                lemma_ternary_lowered_grows(m1, m2, t, 0, e);
            }
        },
        ast::Expression::BinaryExpression(b) => {
            if b.rest@.len() == 0 {
                lemma_expr_lowered_grows(m1, m2, b.first.value, e);
            } else {
                lemma_binary_lowered_grows(m1, m2, b, b.rest@.len() - 1, e);
            }
        },
        ast::Expression::UnaryExpression(u) => {
            if u.ops@.len() == 0 {
                lemma_expr_lowered_grows(m1, m2, u.exp.value, e);
            } else {
                lemma_unary_lowered_grows(m1, m2, u, 0, e);
            }
        },
        ast::Expression::MemberExpression(x) => {
            if x.rest@.len() == 0 {
                lemma_expr_lowered_grows(m1, m2, x.first.value, e);
            } else {
                lemma_member_lowered_grows(m1, m2, x, x.rest@.len() - 1, e);
            }
        },
        _ => {},
    }
}

pub proof fn lemma_ternary_lowered_grows(
    m1: Model,
    m2: Model,
    t: ast::TernaryExpression,
    ix: int,
    e: ExpressionData,
)
    requires
        m1.items_grow_to(m2),
        ternary_lowered(m1, t, ix, e),
    ensures
        ternary_lowered(m2, t, ix, e),
    decreases t, t.terms@.len() - ix, 0int,
{
    if let ExpressionData::TernaryExpression(p) = e {
        let d = m1.ternary_expressions.items@[p.id as int];
        assert(m2.ternary_expressions.items@[p.id as int] == d);
        lemma_expr_lowered_grows(m1, m2, t.terms@[ix].value.test.value, d.test);
        lemma_expr_lowered_grows(m1, m2, t.terms@[ix].value.if_true.value, d.if_true);
        if ix == t.terms@.len() - 1 {
            lemma_expr_lowered_grows(m1, m2, t.if_false.value, d.if_false);
        } else {
            lemma_ternary_lowered_grows(m1, m2, t, ix + 1, d.if_false);
        }
    }
}

pub proof fn lemma_binary_lowered_grows(
    m1: Model,
    m2: Model,
    b: ast::BinaryExpression,
    ix: int,
    e: ExpressionData,
)
    requires
        m1.items_grow_to(m2),
        binary_lowered(m1, b, ix, e),
    ensures
        binary_lowered(m2, b, ix, e),
    decreases b, ix, 0int,
{
    if let ExpressionData::BinaryExpression(p) = e {
        let d = m1.binary_expressions.items@[p.id as int];
        assert(m2.binary_expressions.items@[p.id as int] == d);
        lemma_expr_lowered_grows(m1, m2, b.rest@[ix].value.exp.value, d.right);
        if ix == 0 {
            lemma_expr_lowered_grows(m1, m2, b.first.value, d.left);
        } else {
            lemma_binary_lowered_grows(m1, m2, b, ix - 1, d.left);
        }
    }
}

pub proof fn lemma_unary_lowered_grows(
    m1: Model,
    m2: Model,
    u: ast::UnaryExpression,
    ix: int,
    e: ExpressionData,
)
    requires
        m1.items_grow_to(m2),
        unary_lowered(m1, u, ix, e),
    ensures
        unary_lowered(m2, u, ix, e),
    decreases u, u.ops@.len() - ix, 0int,
{
    if let ExpressionData::UnaryExpression(p) = e {
        let d = m1.unary_expressions.items@[p.id as int];
        assert(m2.unary_expressions.items@[p.id as int] == d);
        if ix == u.ops@.len() - 1 {
            lemma_expr_lowered_grows(m1, m2, u.exp.value, d.exp);
        } else {
            lemma_unary_lowered_grows(m1, m2, u, ix + 1, d.exp);
        }
    }
}

pub proof fn lemma_member_lowered_grows(
    m1: Model,
    m2: Model,
    x: ast::MemberExpression,
    ix: int,
    e: ExpressionData,
)
    requires
        m1.items_grow_to(m2),
        member_lowered(m1, x, ix, e),
    ensures
        member_lowered(m2, x, ix, e),
    decreases x, ix, 1int,
{
    match x.rest@[ix].value {
        ast::MemberOp::DotAccess(_) => {
            if let ExpressionData::DotAccessExpression(p) = e {
                let d = m1.dot_access_expressions.items@[p.id as int];
                assert(m2.dot_access_expressions.items@[p.id as int] == d);
                lemma_member_inner_lowered_grows(m1, m2, x, ix, d.exp);
            }
        },
        ast::MemberOp::FunctionCall(f) => {
            if let ExpressionData::FunctionCallExpression(p) = e {
                let d = m1.function_call_expressions.items@[p.id as int];
                assert(m2.function_call_expressions.items@[p.id as int] == d);
                assert forall|i: int| 0 <= i < f.args.value@.len() implies expr_lowered(
                    m2,
                    f.args.value@[i].value,
                    #[trigger] d.args@[i],
                ) by {
                    lemma_expr_lowered_grows(m1, m2, f.args.value@[i].value, d.args@[i]);
                }
                lemma_member_inner_lowered_grows(m1, m2, x, ix, d.exp);
            }
        },
        ast::MemberOp::IndexAccess(v) => {
            if let ExpressionData::IndexAccessExpression(p) = e {
                let d = m1.index_access_expressions.items@[p.id as int];
                assert(m2.index_access_expressions.items@[p.id as int] == d);
                lemma_expr_lowered_grows(m1, m2, v.exp.value, d.access_exp);
                lemma_member_inner_lowered_grows(m1, m2, x, ix, d.exp);
            }
        },
        ast::MemberOp::NonNullAssert => {
            if let ExpressionData::NonNullAssertExpression(p) = e {
                let d = m1.non_null_assert_expressions.items@[p.id as int];
                assert(m2.non_null_assert_expressions.items@[p.id as int] == d);
                lemma_member_inner_lowered_grows(m1, m2, x, ix, d.exp);
            }
        },
    }
}

pub proof fn lemma_member_inner_lowered_grows(
    m1: Model,
    m2: Model,
    x: ast::MemberExpression,
    ix: int,
    e: ExpressionData,
)
    requires
        m1.items_grow_to(m2),
        member_inner_lowered(m1, x, ix, e),
    ensures
        member_inner_lowered(m2, x, ix, e),
    decreases x, ix, 0int,
{
    if ix == 0 {
        lemma_expr_lowered_grows(m1, m2, x.first.value, e);
    } else {
        lemma_member_lowered_grows(m1, m2, x, ix - 1, e);
    }
}


pub proof fn lemma_opt_expr_lowered_grows(
    m1: Model,
    m2: Model,
    a: Option<Box<Parsed<ast::Expression>>>,
    e: Option<ExpressionData>,
)
    requires
        m1.items_grow_to(m2),
        opt_expr_lowered(m1, a, e),
    ensures
        opt_expr_lowered(m2, a, e),
{
    if let Some(x) = a {
        lemma_expr_lowered_grows(m1, m2, x.value, e->0);
    }
}

/// What a model holds of a parsed statement, it still holds once it has grown.
pub proof fn lemma_stmt_lowered_grows(m1: Model, m2: Model, a: ast::Statement, s: StatementData)
    requires
        m1.items_grow_to(m2),
        stmt_lowered(m1, a, s),
    ensures
        stmt_lowered(m2, a, s),
    decreases a, 0int,
{
    match a {
        ast::Statement::EmptyStatement => {},
        ast::Statement::ExpressionStatement(x) => {
            if let StatementData::ExpressionStatement(p) = s {
                let d = m1.expression_statements.items@[p.id as int];
                assert(m2.expression_statements.items@[p.id as int] == d);
                lemma_expr_lowered_grows(m1, m2, x.exp.value, d.exp);
            }
        },
        ast::Statement::IfStatement(x) => {
            if let StatementData::IfStatement(p) = s {
                let d = m1.if_statements.items@[p.id as int];
                assert(m2.if_statements.items@[p.id as int] == d);
                lemma_expr_lowered_grows(m1, m2, x.test.value, d.test);
                lemma_stmt_lowered_grows(m1, m2, x.if_true.value, d.if_true);
                if x.if_false is Some {
                    lemma_stmt_lowered_grows(m1, m2, x.if_false->0.value, d.if_false->0);
                }
            }
        },
        ast::Statement::WhileStatement(x) => {
            if let StatementData::WhileStatement(p) = s {
                let d = m1.while_statements.items@[p.id as int];
                assert(m2.while_statements.items@[p.id as int] == d);
                lemma_expr_lowered_grows(m1, m2, x.test.value, d.test);
                lemma_stmt_lowered_grows(m1, m2, x.stmt.value, d.stmt);
            }
        },
        ast::Statement::ReturnStatement(x) => {
            if let StatementData::ReturnStatement(p) = s {
                let d = m1.return_statements.items@[p.id as int];
                assert(m2.return_statements.items@[p.id as int] == d);
                lemma_opt_expr_lowered_grows(m1, m2, x.exp, d.exp);
            }
        },
        ast::Statement::BreakStatement(x) => {
            if let StatementData::BreakStatement(p) = s {
                assert(m2.break_statements.items@[p.id as int] == m1.break_statements.items@[p.id as int]);
            }
        },
        ast::Statement::ContinueStatement(x) => {
            if let StatementData::ContinueStatement(p) = s {
                assert(m2.continue_statements.items@[p.id as int] == m1.continue_statements.items@[p.id as int]);
            }
        },
        ast::Statement::BlockStatement(x) => {
            if let StatementData::BlockStatement(p) = s {
                let d = m1.block_statements.items@[p.id as int];
                assert(m2.block_statements.items@[p.id as int] == d);
                assert forall|i: int| 0 <= i < x.stmts.value@.len() implies stmt_lowered(
                    m2,
                    x.stmts.value@[i].value,
                    #[trigger] d.stmts@[i],
                ) by {
                    lemma_stmt_lowered_grows(m1, m2, x.stmts.value@[i].value, d.stmts@[i]);
                }
            }
        },
        ast::Statement::ForStatement(x) => {
            if let StatementData::ForStatement(p) = s {
                let d = m1.for_statements.items@[p.id as int];
                assert(m2.for_statements.items@[p.id as int] == d);
                if x.init is Some {
                    lemma_for_init_lowered_grows(m1, m2, x.init->0.value, d.init->0);
                }
                lemma_opt_expr_lowered_grows(m1, m2, x.test, d.test);
                lemma_opt_expr_lowered_grows(m1, m2, x.advance, d.advance);
                lemma_stmt_lowered_grows(m1, m2, x.stmt.value, d.stmt);
            }
        },
        ast::Statement::SwitchStatement(x) => {
            if let StatementData::SwitchStatement(p) = s {
                let d = m1.switch_statements.items@[p.id as int];
                assert(m2.switch_statements.items@[p.id as int] == d);
                lemma_expr_lowered_grows(m1, m2, x.exp.value, d.exp);
                assert forall|i: int| 0 <= i < x.items.value@.len() implies switch_item_lowered(
                    m2,
                    x.items.value@[i].value,
                    #[trigger] d.items@[i],
                ) by {
                    lemma_switch_item_lowered_grows(m1, m2, x.items.value@[i].value, d.items@[i]);
                }
            }
        },
        ast::Statement::VarDeclStatement(x) => {
            if let StatementData::VarDeclStatement(p) = s {
                let d = m1.var_decl_statements.items@[p.id as int];
                assert(m2.var_decl_statements.items@[p.id as int] == d);
                lemma_opt_expr_lowered_grows(m1, m2, x.init, d.init);
            }
        },
        ast::Statement::FunctionDeclStatement(x) => {
            if let StatementData::FunctionDeclStatement(p) = s {
                let d = m1.function_decl_statements.items@[p.id as int];
                assert(m2.function_decl_statements.items@[p.id as int] == d);
                let sd = m1.function_signatures.items@[d.signature.id as int];
                assert(m2.function_signatures.items@[d.signature.id as int] == sd);
                assert forall|i: int| 0 <= i < x.args.value@.len() implies {
                    &&& (#[trigger] sd.args@[i]).id < m2.function_decl_args.items@.len()
                    &&& m2.function_decl_args.items@[sd.args@[i].id as int].name@
                        == x.args.value@[i].value.name.value@
                } by {
                    assert(m2.function_decl_args.items@[sd.args@[i].id as int]
                        == m1.function_decl_args.items@[sd.args@[i].id as int]);
                }
                lemma_stmt_lowered_grows(m1, m2, x.body.value, d.body);
            }
        },
        ast::Statement::LabeledStatement(x) => {
            if let StatementData::LabeledStatement(p) = s {
                let d = m1.labeled_statements.items@[p.id as int];
                assert(m2.labeled_statements.items@[p.id as int] == d);
                lemma_stmt_lowered_grows(m1, m2, x.stmt.value, d.stmt);
            }
        },
        ast::Statement::TryStatement(x) => {
            if let StatementData::TryStatement(p) = s {
                let d = m1.try_statements.items@[p.id as int];
                assert(m2.try_statements.items@[p.id as int] == d);
                lemma_stmt_lowered_grows(m1, m2, x.stmt.value, d.stmt);
                if x.catch_clause is Some {
                    lemma_catch_lowered_grows(m1, m2, x.catch_clause->0.value, d.catch_clause->0);
                }
                if x.finally_clause is Some {
                    lemma_stmt_lowered_grows(
                        m1,
                        m2,
                        x.finally_clause->0.value,
                        d.finally_clause->0,
                    );
                }
            }
        },
    }
}

pub proof fn lemma_for_init_lowered_grows(m1: Model, m2: Model, a: ast::ForInit, fi: ForInitData)
    requires
        m1.items_grow_to(m2),
        for_init_lowered(m1, a, fi),
    ensures
        for_init_lowered(m2, a, fi),
    decreases a, 0int,
{
    match a {
        ast::ForInit::Expression(e) => {
            if let ForInitData::Expression(de) = fi {
                lemma_expr_lowered_grows(m1, m2, e.value, de);
            }
        },
        ast::ForInit::VarDecl(st) => {
            if let ForInitData::VarDecl(ds) = fi {
                lemma_stmt_lowered_grows(m1, m2, st.value, ds);
            }
        },
    }
}

pub proof fn lemma_switch_item_lowered_grows(
    m1: Model,
    m2: Model,
    a: ast::SwitchItem,
    si: SwitchItemData,
)
    requires
        m1.items_grow_to(m2),
        switch_item_lowered(m1, a, si),
    ensures
        switch_item_lowered(m2, a, si),
    decreases a, 0int,
{
    match a {
        ast::SwitchItem::Statement(st) => {
            if let SwitchItemData::Statement(p) = si {
                let d = m1.switch_body_statements.items@[p.id as int];
                assert(m2.switch_body_statements.items@[p.id as int] == d);
                lemma_stmt_lowered_grows(m1, m2, st.value, d.stmt);
            }
        },
        ast::SwitchItem::Case(e) => {
            if let SwitchItemData::Case(p) = si {
                let d = m1.switch_cases.items@[p.id as int];
                assert(m2.switch_cases.items@[p.id as int] == d);
                lemma_expr_lowered_grows(m1, m2, e.value, d.exp);
            }
        },
        ast::SwitchItem::Default => {},
    }
}

pub proof fn lemma_catch_lowered_grows(
    m1: Model,
    m2: Model,
    a: ast::CatchClause,
    p: ItemPtr<CatchClauseData>,
)
    requires
        m1.items_grow_to(m2),
        catch_lowered(m1, a, p),
    ensures
        catch_lowered(m2, a, p),
    decreases a, 0int,
{
    let d = m1.catch_clauses.items@[p.id as int];
    assert(m2.catch_clauses.items@[p.id as int] == d);
    lemma_stmt_lowered_grows(m1, m2, a.stmt.value, d.stmt);
}

/// What a model holds of a parsed file item, it still holds once it has grown.
pub proof fn lemma_file_item_lowered_grows(m1: Model, m2: Model, a: ast::FileItem, fi: FileItemData)
    requires
        m1.items_grow_to(m2),
        file_item_lowered(m1, a, fi),
    ensures
        file_item_lowered(m2, a, fi),
{
    match a {
        ast::FileItem::Statement(st) => {
            if let FileItemData::Statement(ds) = fi {
                lemma_stmt_lowered_grows(m1, m2, st, ds);
            }
        },
        ast::FileItem::TypeDecl(_) => {},
        ast::FileItem::ImportDecl(_) => {
            if let FileItemData::ImportDecl(p) = fi {
                assert(m2.import_decls.items@[p.id as int] == m1.import_decls.items@[p.id as int]);
            }
        },
    }
}

/// What a model holds of a parsed file, it still holds once it has grown: adding another file
/// leaves it as it was.
pub proof fn lemma_file_lowered_grows(m1: Model, m2: Model, f: ast::File, p: ItemPtr<FileData>)
    requires
        m1.items_grow_to(m2),
        file_lowered(m1, f, p),
    ensures
        file_lowered(m2, f, p),
{
    let d = m1.files.items@[p.id as int];
    assert(m2.files.items@[p.id as int] == d);
    assert forall|i: int| 0 <= i < f.items@.len() implies file_item_lowered(
        m2,
        f.items@[i].value,
        #[trigger] d.items@[i],
    ) by {
        lemma_file_item_lowered_grows(m1, m2, f.items@[i].value, d.items@[i]);
    }
}


pub proof fn lemma_ternary_chain_grows(
    m1: Model,
    m2: Model,
    terms: Seq<Parsed<ast::TernaryExpressionTerm>>,
    ix: int,
    fd: ExpressionData,
    e: ExpressionData,
)
    requires
        m1.items_grow_to(m2),
        ternary_chain(m1, terms, ix, fd, e),
    ensures
        ternary_chain(m2, terms, ix, fd, e),
    decreases terms.len() - ix,
{
    if let ExpressionData::TernaryExpression(p) = e {
        let d = m1.ternary_expressions.items@[p.id as int];
        assert(m2.ternary_expressions.items@[p.id as int] == d);
        lemma_expr_lowered_grows(m1, m2, terms[ix].value.test.value, d.test);
        lemma_expr_lowered_grows(m1, m2, terms[ix].value.if_true.value, d.if_true);
        if ix < terms.len() - 1 {
            lemma_ternary_chain_grows(m1, m2, terms, ix + 1, fd, d.if_false);
        }
    }
}

/// A chain of ternary terms that ends in the lowering of the last alternative is the lowering
/// of the ternary expression.
pub proof fn lemma_ternary_chain_lowered(
    m: Model,
    t: ast::TernaryExpression,
    ix: int,
    fd: ExpressionData,
    e: ExpressionData,
)
    requires
        ternary_chain(m, t.terms@, ix, fd, e),
        expr_lowered(m, t.if_false.value, fd),
    ensures
        ternary_lowered(m, t, ix, e),
    decreases t.terms@.len() - ix,
{
    if let ExpressionData::TernaryExpression(p) = e {
        if ix < t.terms@.len() - 1 {
            lemma_ternary_chain_lowered(m, t, ix + 1, fd, m.ternary_expressions.items@[p.id as int].if_false);
        }
    }
}

pub proof fn lemma_binary_chain_grows(
    m1: Model,
    m2: Model,
    terms: Seq<Parsed<ast::BinaryExpressionTerm>>,
    ix: int,
    fd: ExpressionData,
    e: ExpressionData,
)
    requires
        m1.items_grow_to(m2),
        binary_chain(m1, terms, ix, fd, e),
    ensures
        binary_chain(m2, terms, ix, fd, e),
    decreases ix,
{
    if let ExpressionData::BinaryExpression(p) = e {
        let d = m1.binary_expressions.items@[p.id as int];
        assert(m2.binary_expressions.items@[p.id as int] == d);
        lemma_expr_lowered_grows(m1, m2, terms[ix].value.exp.value, d.right);
        if ix > 0 {
            lemma_binary_chain_grows(m1, m2, terms, ix - 1, fd, d.left);
        }
    }
}

/// A chain of binary terms around the lowering of the first operand is the lowering of the
/// binary expression.
pub proof fn lemma_binary_chain_lowered(
    m: Model,
    b: ast::BinaryExpression,
    ix: int,
    fd: ExpressionData,
    e: ExpressionData,
)
    requires
        binary_chain(m, b.rest@, ix, fd, e),
        expr_lowered(m, b.first.value, fd),
    ensures
        binary_lowered(m, b, ix, e),
    decreases ix,
{
    if let ExpressionData::BinaryExpression(p) = e {
        if ix > 0 {
            lemma_binary_chain_lowered(m, b, ix - 1, fd, m.binary_expressions.items@[p.id as int].left);
        }
    }
}

pub proof fn lemma_unary_chain_grows(
    m1: Model,
    m2: Model,
    ops: Seq<Parsed<ast::UnaryOp>>,
    ix: int,
    fd: ExpressionData,
    e: ExpressionData,
)
    requires
        m1.items_grow_to(m2),
        unary_chain(m1, ops, ix, fd, e),
    ensures
        unary_chain(m2, ops, ix, fd, e),
    decreases ops.len() - ix,
{
    if let ExpressionData::UnaryExpression(p) = e {
        let d = m1.unary_expressions.items@[p.id as int];
        assert(m2.unary_expressions.items@[p.id as int] == d);
        if ix < ops.len() - 1 {
            lemma_unary_chain_grows(m1, m2, ops, ix + 1, fd, d.exp);
        }
    }
}

/// A chain of unary operators around the lowering of the operand is the lowering of the unary
/// expression.
pub proof fn lemma_unary_chain_lowered(
    m: Model,
    u: ast::UnaryExpression,
    ix: int,
    fd: ExpressionData,
    e: ExpressionData,
)
    requires
        unary_chain(m, u.ops@, ix, fd, e),
        expr_lowered(m, u.exp.value, fd),
    ensures
        unary_lowered(m, u, ix, e),
    decreases u.ops@.len() - ix,
{
    if let ExpressionData::UnaryExpression(p) = e {
        if ix < u.ops@.len() - 1 {
            lemma_unary_chain_lowered(m, u, ix + 1, fd, m.unary_expressions.items@[p.id as int].exp);
        }
    }
}

pub proof fn lemma_member_op_lowered_grows(
    m1: Model,
    m2: Model,
    op: ast::MemberOp,
    inner: ExpressionData,
    e: ExpressionData,
)
    requires
        m1.items_grow_to(m2),
        member_op_lowered(m1, op, inner, e),
    ensures
        member_op_lowered(m2, op, inner, e),
        member_op_inner(m2, e) == member_op_inner(m1, e),
{
    match op {
        ast::MemberOp::DotAccess(_) => {
            if let ExpressionData::DotAccessExpression(p) = e {
                assert(m2.dot_access_expressions.items@[p.id as int] == m1.dot_access_expressions.items@[p.id as int]);
            }
        },
        ast::MemberOp::FunctionCall(f) => {
            if let ExpressionData::FunctionCallExpression(p) = e {
                let d = m1.function_call_expressions.items@[p.id as int];
                assert(m2.function_call_expressions.items@[p.id as int] == d);
                assert forall|i: int| 0 <= i < f.args.value@.len() implies expr_lowered(
                    m2,
                    f.args.value@[i].value,
                    #[trigger] d.args@[i],
                ) by {
                    lemma_expr_lowered_grows(m1, m2, f.args.value@[i].value, d.args@[i]);
                }
            }
        },
        ast::MemberOp::IndexAccess(v) => {
            if let ExpressionData::IndexAccessExpression(p) = e {
                let d = m1.index_access_expressions.items@[p.id as int];
                assert(m2.index_access_expressions.items@[p.id as int] == d);
                lemma_expr_lowered_grows(m1, m2, v.exp.value, d.access_exp);
            }
        },
        ast::MemberOp::NonNullAssert => {
            if let ExpressionData::NonNullAssertExpression(p) = e {
                assert(m2.non_null_assert_expressions.items@[p.id as int] == m1.non_null_assert_expressions.items@[p.id as int]);
            }
        },
    }
}

pub proof fn lemma_member_chain_grows(
    m1: Model,
    m2: Model,
    rest: Seq<Parsed<ast::MemberOp>>,
    ix: int,
    fd: ExpressionData,
    e: ExpressionData,
)
    requires
        m1.items_grow_to(m2),
        member_chain(m1, rest, ix, fd, e),
    ensures
        member_chain(m2, rest, ix, fd, e),
    decreases ix,
{
    if ix == 0 {
        lemma_member_op_lowered_grows(m1, m2, rest[ix].value, fd, e);
    } else {
        lemma_member_op_lowered_grows(m1, m2, rest[ix].value, member_op_inner(m1, e), e);
        lemma_member_chain_grows(m1, m2, rest, ix - 1, fd, member_op_inner(m1, e));
    }
}

/// A chain of member operations around the lowering of the first operand is the lowering of
/// the member expression.
pub proof fn lemma_member_chain_lowered(
    m: Model,
    x: ast::MemberExpression,
    ix: int,
    fd: ExpressionData,
    e: ExpressionData,
)
    requires
        member_chain(m, x.rest@, ix, fd, e),
        expr_lowered(m, x.first.value, fd),
    ensures
        member_lowered(m, x, ix, e),
    decreases ix,
{
    if ix > 0 {
        lemma_member_chain_lowered(m, x, ix - 1, fd, member_op_inner(m, e));
    }
}


/// The lowerings of the first `n` expressions of a list survive growth.
pub proof fn lemma_exprs_lowered_grow(
    m1: Model,
    m2: Model,
    asts: Seq<Parsed<ast::Expression>>,
    es: Seq<ExpressionData>,
    n: int,
)
    requires
        m1.items_grow_to(m2),
        forall|j: int| 0 <= j < n ==> expr_lowered(m1, asts[j].value, #[trigger] es[j]),
    ensures
        forall|j: int| 0 <= j < n ==> expr_lowered(m2, asts[j].value, #[trigger] es[j]),
{
    assert forall|j: int| 0 <= j < n implies expr_lowered(m2, asts[j].value, #[trigger] es[j]) by {
        lemma_expr_lowered_grows(m1, m2, asts[j].value, es[j]);
    }
}

/// The lowerings of the first `n` statements of a list survive growth.
pub proof fn lemma_stmts_lowered_grow(
    m1: Model,
    m2: Model,
    asts: Seq<Parsed<ast::Statement>>,
    ss: Seq<StatementData>,
    n: int,
)
    requires
        m1.items_grow_to(m2),
        forall|j: int| 0 <= j < n ==> stmt_lowered(m1, asts[j].value, #[trigger] ss[j]),
    ensures
        forall|j: int| 0 <= j < n ==> stmt_lowered(m2, asts[j].value, #[trigger] ss[j]),
{
    assert forall|j: int| 0 <= j < n implies stmt_lowered(m2, asts[j].value, #[trigger] ss[j]) by {
        lemma_stmt_lowered_grows(m1, m2, asts[j].value, ss[j]);
    }
}

/// The lowerings of the first `n` items of a `switch` statement survive growth.
pub proof fn lemma_switch_items_lowered_grow(
    m1: Model,
    m2: Model,
    asts: Seq<Parsed<ast::SwitchItem>>,
    sis: Seq<SwitchItemData>,
    n: int,
)
    requires
        m1.items_grow_to(m2),
        forall|j: int| 0 <= j < n ==> switch_item_lowered(m1, asts[j].value, #[trigger] sis[j]),
    ensures
        forall|j: int| 0 <= j < n ==> switch_item_lowered(m2, asts[j].value, #[trigger] sis[j]),
{
    assert forall|j: int| 0 <= j < n implies switch_item_lowered(
        m2,
        asts[j].value,
        #[trigger] sis[j],
    ) by {
        lemma_switch_item_lowered_grows(m1, m2, asts[j].value, sis[j]);
    }
}

/// The lowerings of the first `n` items of a file survive growth.
pub proof fn lemma_file_items_lowered_grow(
    m1: Model,
    m2: Model,
    asts: Seq<Parsed<ast::FileItem>>,
    fis: Seq<FileItemData>,
    n: int,
)
    requires
        m1.items_grow_to(m2),
        forall|j: int| 0 <= j < n ==> file_item_lowered(m1, asts[j].value, #[trigger] fis[j]),
    ensures
        forall|j: int| 0 <= j < n ==> file_item_lowered(m2, asts[j].value, #[trigger] fis[j]),
{
    assert forall|j: int| 0 <= j < n implies file_item_lowered(
        m2,
        asts[j].value,
        #[trigger] fis[j],
    ) by {
        lemma_file_item_lowered_grows(m1, m2, asts[j].value, fis[j]);
    }
}


pub proof fn lemma_signature_lowered_grows(
    m1: Model,
    m2: Model,
    args: Seq<Parsed<ast::FunctionDeclArg>>,
    p: ItemPtr<FunctionSignatureData>,
)
    requires
        m1.items_grow_to(m2),
        signature_lowered(m1, args, p),
    ensures
        signature_lowered(m2, args, p),
{
    let d = m1.function_signatures.items@[p.id as int];
    assert(m2.function_signatures.items@[p.id as int] == d);
    assert forall|i: int| 0 <= i < args.len() implies {
        &&& (#[trigger] d.args@[i]).id < m2.function_decl_args.items@.len()
        &&& m2.function_decl_args.items@[d.args@[i].id as int].name@ == args[i].value.name.value@
    } by {
        assert(m2.function_decl_args.items@[d.args@[i].id as int]
            == m1.function_decl_args.items@[d.args@[i].id as int]);
    }
}


//--------------------------------------------------
// Where the statements of the model stand in the source

/// The statement `s` of the model is valid, its span is the location of `range` in the source
/// file `f`, and so for the statements it holds.
pub open spec fn stmt_spans(
    m: Model,
    f: SourceFilePtr,
    a: ast::Statement,
    range: ParsedRange,
    s: StatementData,
) -> bool
    decreases a, 1int,
{
    &&& m.stmt_valid(s)
    &&& m.span_table.spec_get(s.spec_key()) == Some(spec_location(f, range))
    &&& stmt_children_spans(m, f, a, s)
}

/// The statements held by the statement `s`, parsed as `a`, have their spans: the branches of
/// an if statement, the bodies of while and for statements and of function declarations, and
/// the statements of a block.
pub open spec fn stmt_children_spans(m: Model, f: SourceFilePtr, a: ast::Statement, s: StatementData) -> bool
    decreases a, 0int,
{
    match a {
        ast::Statement::IfStatement(x) => s matches StatementData::IfStatement(p) && {
            let d = m.if_statements.items@[p.id as int];
            &&& stmt_spans(m, f, x.if_true.value, x.if_true.range, d.if_true)
            &&& match x.if_false {
                Some(e) => d.if_false matches Some(ds) && stmt_spans(m, f, e.value, e.range, ds),
                None => true,
            }
        },
        ast::Statement::WhileStatement(x) => s matches StatementData::WhileStatement(p) && stmt_spans(
            m,
            f,
            x.stmt.value,
            x.stmt.range,
            m.while_statements.items@[p.id as int].stmt,
        ),
        ast::Statement::BlockStatement(x) => s matches StatementData::BlockStatement(p) && {
            let d = m.block_statements.items@[p.id as int];
            &&& d.stmts@.len() == x.stmts.value@.len()
            &&& forall|i: int|
                0 <= i < x.stmts.value@.len() ==> stmt_spans(
                    m,
                    f,
                    x.stmts.value@[i].value,
                    x.stmts.value@[i].range,
                    #[trigger] d.stmts@[i],
                )
        },
        ast::Statement::ForStatement(x) => s matches StatementData::ForStatement(p) && stmt_spans(
            m,
            f,
            x.stmt.value,
            x.stmt.range,
            m.for_statements.items@[p.id as int].stmt,
        ),
        ast::Statement::FunctionDeclStatement(x) => s matches StatementData::FunctionDeclStatement(p)
            && stmt_spans(
            m,
            f,
            x.body.value,
            x.body.range,
            m.function_decl_statements.items@[p.id as int].body,
        ),
        _ => true,
    }
}

/// The spans of a statement and of the statements it holds stay as the model grows.
pub proof fn lemma_stmt_spans_grow(
    m1: Model,
    m2: Model,
    f: SourceFilePtr,
    a: ast::Statement,
    range: ParsedRange,
    s: StatementData,
)
    requires
        m1.kinds_ok(),
        m1.grows_to(m2),
        stmt_spans(m1, f, a, range, s),
    ensures
        stmt_spans(m2, f, a, range, s),
    decreases a, 1int,
{
    lemma_valid_grows(m1, m2);
    lemma_stmt_key_in(m1, s);
    lemma_growth_keeps_spans(m1, m2, s.spec_key());
    lemma_stmt_children_spans_grow(m1, m2, f, a, s);
}

/// The spans of the statements held by a statement stay as the model grows.
pub proof fn lemma_stmt_children_spans_grow(
    m1: Model,
    m2: Model,
    f: SourceFilePtr,
    a: ast::Statement,
    s: StatementData,
)
    requires
        m1.kinds_ok(),
        m1.grows_to(m2),
        m1.stmt_valid(s),
        stmt_children_spans(m1, f, a, s),
    ensures
        stmt_children_spans(m2, f, a, s),
    decreases a, 0int,
{
    match a {
        ast::Statement::IfStatement(x) => {
            let p = s->IfStatement_0;
            let d = m1.if_statements.items@[p.id as int];
            assert(m2.if_statements.items@[p.id as int] == d);
            lemma_stmt_spans_grow(m1, m2, f, x.if_true.value, x.if_true.range, d.if_true);
            if let Some(e) = x.if_false {
                lemma_stmt_spans_grow(m1, m2, f, e.value, e.range, d.if_false->0);
            }
        },
        ast::Statement::WhileStatement(x) => {
            let p = s->WhileStatement_0;
            assert(m2.while_statements.items@[p.id as int] == m1.while_statements.items@[p.id as int]);
            lemma_stmt_spans_grow(m1, m2, f, x.stmt.value, x.stmt.range, m1.while_statements.items@[p.id as int].stmt);
        },
        ast::Statement::BlockStatement(x) => {
            let p = s->BlockStatement_0;
            let d = m1.block_statements.items@[p.id as int];
            assert(m2.block_statements.items@[p.id as int] == d);
            assert forall|i: int| 0 <= i < x.stmts.value@.len() implies stmt_spans(
                m2,
                f,
                x.stmts.value@[i].value,
                x.stmts.value@[i].range,
                #[trigger] d.stmts@[i],
            ) by {
                lemma_stmt_spans_grow(m1, m2, f, x.stmts.value@[i].value, x.stmts.value@[i].range, d.stmts@[i]);
            }
        },
        ast::Statement::ForStatement(x) => {
            let p = s->ForStatement_0;
            assert(m2.for_statements.items@[p.id as int] == m1.for_statements.items@[p.id as int]);
            lemma_stmt_spans_grow(m1, m2, f, x.stmt.value, x.stmt.range, m1.for_statements.items@[p.id as int].stmt);
        },
        ast::Statement::FunctionDeclStatement(x) => {
            let p = s->FunctionDeclStatement_0;
            assert(m2.function_decl_statements.items@[p.id as int] == m1.function_decl_statements.items@[p.id as int]);
            lemma_stmt_spans_grow(m1, m2, f, x.body.value, x.body.range, m1.function_decl_statements.items@[p.id as int].body);
        },
        _ => {},
    }
}

/// The item `fi` of a file, parsed as `a` over `range`, has the location of `range` in the
/// source file `f` as its span, and a statement item has the spans of the statements it holds.
pub open spec fn file_item_spans(
    m: Model,
    f: SourceFilePtr,
    a: ast::FileItem,
    range: ParsedRange,
    fi: FileItemData,
) -> bool {
    &&& m.span_table.spec_get(fi.spec_key()) == Some(spec_location(f, range))
    &&& match a {
        ast::FileItem::Statement(x) => fi matches FileItemData::Statement(s) && stmt_spans(
            m,
            f,
            x,
            range,
            s,
        ),
        _ => true,
    }
}

/// The spans of a file item, and of the statements it holds, stay as the model grows.
pub proof fn lemma_file_item_spans_grow(
    m1: Model,
    m2: Model,
    f: SourceFilePtr,
    a: ast::FileItem,
    range: ParsedRange,
    fi: FileItemData,
)
    requires
        m1.kinds_ok(),
        m1.grows_to(m2),
        m1.file_item_valid(fi),
        file_item_spans(m1, f, a, range, fi),
    ensures
        file_item_spans(m2, f, a, range, fi),
{
    lemma_file_item_key_in(m1, fi);
    lemma_growth_keeps_spans(m1, m2, fi.spec_key());
    if let ast::FileItem::Statement(x) = a {
        lemma_stmt_spans_grow(m1, m2, f, x, range, fi->Statement_0);
    }
}

} // verus!
