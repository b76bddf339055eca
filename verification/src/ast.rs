use vstd::prelude::*;

use crate::peg_parser::Parsed;

verus! {

#[derive(Debug)]
pub struct File {
    pub items: Vec<Parsed<FileItem>>,
}

#[derive(Debug)]
pub enum FileItem {
    Statement(Statement),
    TypeDecl(TypeDecl),
    ImportDecl(ImportDecl),
}

#[derive(Debug)]
pub struct TypeDecl {}

#[derive(Debug)]
pub struct ImportDecl {
    pub name: Parsed<String>,
    pub source: Parsed<String>,
}

#[derive(Debug)]
pub enum Statement {
    EmptyStatement,
    ExpressionStatement(ExpressionStatement),
    IfStatement(IfStatement),
    WhileStatement(WhileStatement),
    ReturnStatement(ReturnStatement),
    BreakStatement(BreakStatement),
    ContinueStatement(ContinueStatement),
    BlockStatement(BlockStatement),
    ForStatement(ForStatement),
    SwitchStatement(SwitchStatement),
    VarDeclStatement(VarDeclStatement),
    FunctionDeclStatement(FunctionDeclStatement),
    LabeledStatement(LabeledStatement),
    TryStatement(TryStatement),
}

/// Boxes the value of an optional.
pub open spec fn spec_box_opt<T>(v: Option<T>) -> Option<Box<T>> {
    match v {
        Some(x) => Some(Box::new(x)),
        None => None,
    }
}

fn box_opt<T>(v: Option<T>) -> (res: Option<Box<T>>)
    ensures
        res == spec_box_opt(v),
{
    match v {
        Some(x) => Some(Box::new(x)),
        None => None,
    }
}

impl Statement {
    pub fn empty_statement() -> (res: Self)
        ensures
            res == Statement::EmptyStatement,
    {
        Self::EmptyStatement
    }

    pub fn expression_statement(exp: Parsed<Expression>) -> (res: Self)
        ensures
            res == Statement::ExpressionStatement(ExpressionStatement { exp: Box::new(exp) }),
    {
        Self::ExpressionStatement(ExpressionStatement { exp: Box::new(exp) })
    }

    pub fn if_statement(
        test: Parsed<Expression>,
        if_true: Parsed<Statement>,
        if_false: Option<Parsed<Statement>>,
    ) -> (res: Self)
        ensures
            res == Statement::IfStatement(
                IfStatement {
                    test: Box::new(test),
                    if_true: Box::new(if_true),
                    if_false: spec_box_opt(if_false),
                },
            ),
    {
        Self::IfStatement(
            IfStatement {
                test: Box::new(test),
                if_true: Box::new(if_true),
                if_false: box_opt(if_false),
            },
        )
    }

    pub fn while_statement(test: Parsed<Expression>, stmt: Parsed<Statement>) -> (res: Self)
        ensures
            res == Statement::WhileStatement(
                WhileStatement { test: Box::new(test), stmt: Box::new(stmt) },
            ),
    {
        Self::WhileStatement(WhileStatement { test: Box::new(test), stmt: Box::new(stmt) })
    }

    pub fn return_statement(exp: Option<Parsed<Expression>>) -> (res: Self)
        ensures
            res == Statement::ReturnStatement(ReturnStatement { exp: spec_box_opt(exp) }),
    {
        Self::ReturnStatement(ReturnStatement { exp: box_opt(exp) })
    }

    pub fn break_statement(label: Option<Parsed<String>>) -> (res: Self)
        ensures
            res == Statement::BreakStatement(BreakStatement { label }),
    {
        Self::BreakStatement(BreakStatement { label })
    }

    pub fn continue_statement(label: Option<Parsed<String>>) -> (res: Self)
        ensures
            res == Statement::ContinueStatement(ContinueStatement { label }),
    {
        Self::ContinueStatement(ContinueStatement { label })
    }

    pub fn block_statement(stmts: Parsed<Vec<Parsed<Statement>>>) -> (res: Self)
        ensures
            res == Statement::BlockStatement(BlockStatement { stmts: Box::new(stmts) }),
    {
        Self::BlockStatement(BlockStatement { stmts: Box::new(stmts) })
    }

    pub fn for_statement(
        init: Option<Parsed<ForInit>>,
        test: Option<Parsed<Expression>>,
        advance: Option<Parsed<Expression>>,
        stmt: Parsed<Statement>,
    ) -> (res: Self)
        ensures
            res == Statement::ForStatement(
                ForStatement {
                    init: spec_box_opt(init),
                    test: spec_box_opt(test),
                    advance: spec_box_opt(advance),
                    stmt: Box::new(stmt),
                },
            ),
    {
        Self::ForStatement(
            ForStatement {
                init: box_opt(init),
                test: box_opt(test),
                advance: box_opt(advance),
                stmt: Box::new(stmt),
            },
        )
    }

    pub fn switch_statement(
        exp: Parsed<Expression>,
        items: Parsed<Vec<Parsed<SwitchItem>>>,
    ) -> (res: Self)
        ensures
            res == Statement::SwitchStatement(
                SwitchStatement { exp: Box::new(exp), items: Box::new(items) },
            ),
    {
        Self::SwitchStatement(SwitchStatement { exp: Box::new(exp), items: Box::new(items) })
    }

    pub fn var_decl_statement(
        let_or_const: Parsed<LetOrConst>,
        name: Parsed<String>,
        init: Option<Parsed<Expression>>,
    ) -> (res: Self)
        ensures
            res == Statement::VarDeclStatement(
                VarDeclStatement { let_or_const, name, init: spec_box_opt(init) },
            ),
    {
        Self::VarDeclStatement(VarDeclStatement { let_or_const, name, init: box_opt(init) })
    }

    pub fn function_decl_statement(
        name: Parsed<String>,
        args: Parsed<Vec<Parsed<FunctionDeclArg>>>,
        body: Parsed<Statement>,
    ) -> (res: Self)
        ensures
            res == Statement::FunctionDeclStatement(
                FunctionDeclStatement { name, args, body: Box::new(body) },
            ),
    {
        Self::FunctionDeclStatement(FunctionDeclStatement { name, args, body: Box::new(body) })
    }

    pub fn labeled_statement(name: Parsed<String>, stmt: Parsed<Statement>) -> (res: Self)
        ensures
            res == Statement::LabeledStatement(LabeledStatement { name, stmt: Box::new(stmt) }),
    {
        Self::LabeledStatement(LabeledStatement { name, stmt: Box::new(stmt) })
    }

    pub fn try_statement(
        stmt: Parsed<Statement>,
        catch_clause: Option<Parsed<CatchClause>>,
        finally_clause: Option<Parsed<Statement>>,
    ) -> (res: Self)
        ensures
            res == Statement::TryStatement(
                TryStatement {
                    stmt: Box::new(stmt),
                    catch_clause: spec_box_opt(catch_clause),
                    finally_clause: spec_box_opt(finally_clause),
                },
            ),
    {
        Self::TryStatement(
            TryStatement {
                stmt: Box::new(stmt),
                catch_clause: box_opt(catch_clause),
                finally_clause: box_opt(finally_clause),
            },
        )
    }
}

#[derive(Debug)]
pub struct ExpressionStatement {
    pub exp: Box<Parsed<Expression>>,
}

#[derive(Debug)]
pub struct IfStatement {
    pub test: Box<Parsed<Expression>>,
    pub if_true: Box<Parsed<Statement>>,
    pub if_false: Option<Box<Parsed<Statement>>>,
}

#[derive(Debug)]
pub struct WhileStatement {
    pub test: Box<Parsed<Expression>>,
    pub stmt: Box<Parsed<Statement>>,
}

#[derive(Debug)]
pub struct ReturnStatement {
    pub exp: Option<Box<Parsed<Expression>>>,
}

#[derive(Debug)]
pub struct BreakStatement {
    pub label: Option<Parsed<String>>,
}

#[derive(Debug)]
pub struct ContinueStatement {
    pub label: Option<Parsed<String>>,
}

#[derive(Debug)]
pub struct BlockStatement {
    pub stmts: Box<Parsed<Vec<Parsed<Statement>>>>,
}

#[derive(Debug)]
pub struct ForStatement {
    pub init: Option<Box<Parsed<ForInit>>>,
    pub test: Option<Box<Parsed<Expression>>>,
    pub advance: Option<Box<Parsed<Expression>>>,
    pub stmt: Box<Parsed<Statement>>,
}

#[derive(Debug)]
pub enum ForInit {
    Expression(Parsed<Expression>),
    VarDecl(Parsed<Statement>),
}

#[derive(Debug)]
pub struct SwitchStatement {
    pub exp: Box<Parsed<Expression>>,
    pub items: Box<Parsed<Vec<Parsed<SwitchItem>>>>,
}

#[derive(Debug)]
pub enum SwitchItem {
    Statement(Parsed<Statement>),
    Case(Parsed<Expression>),
    Default,
}

#[derive(Debug)]
pub struct VarDeclStatement {
    pub let_or_const: Parsed<LetOrConst>,
    pub name: Parsed<String>,
    pub init: Option<Box<Parsed<Expression>>>,
}

#[derive(Debug)]
pub struct FunctionDeclStatement {
    pub name: Parsed<String>,
    pub args: Parsed<Vec<Parsed<FunctionDeclArg>>>,
    pub body: Box<Parsed<Statement>>,
}

#[derive(Debug)]
pub struct FunctionDeclArg {
    pub name: Parsed<String>,
}

#[derive(Debug)]
pub struct LabeledStatement {
    pub name: Parsed<String>,
    pub stmt: Box<Parsed<Statement>>,
}

#[derive(Debug)]
pub struct TryStatement {
    pub stmt: Box<Parsed<Statement>>,
    pub catch_clause: Option<Box<Parsed<CatchClause>>>,
    pub finally_clause: Option<Box<Parsed<Statement>>>,
}

#[derive(Debug)]
pub struct CatchClause {
    pub name: Option<Parsed<String>>,
    pub stmt: Box<Parsed<Statement>>,
}

#[derive(Debug)]
pub enum Expression {
    CommaExpression(CommaExpression),
    TernaryExpression(TernaryExpression),
    BinaryExpression(BinaryExpression),
    UnaryExpression(UnaryExpression),
    BooleanLiteral(bool),
    NullLiteral,
    StringLiteral(String),
    IntLiteral(IntLiteral),
    MemberExpression(MemberExpression),
    IdentifierExpression(IdentifierExpression),
}

impl Expression {
    pub fn comma_expression(exps: Vec<Parsed<Expression>>) -> (res: Self)
        ensures
            res == Expression::CommaExpression(CommaExpression { exps }),
    {
        Self::CommaExpression(CommaExpression { exps })
    }

    pub fn ternary_expression(
        terms: Vec<Parsed<TernaryExpressionTerm>>,
        if_false: Parsed<Expression>,
    ) -> (res: Self)
        ensures
            res == Expression::TernaryExpression(
                TernaryExpression { terms, if_false: Box::new(if_false) },
            ),
    {
        Self::TernaryExpression(TernaryExpression { terms, if_false: Box::new(if_false) })
    }

    pub fn null_literal() -> (res: Self)
        ensures
            res == Expression::NullLiteral,
    {
        Self::NullLiteral
    }

    pub fn string_literal(str: String) -> (res: Self)
        ensures
            res == Expression::StringLiteral(str),
    {
        Self::StringLiteral(str)
    }

    pub fn int_literal(value: u64, radix: Radix, suffix: Option<Parsed<IntLiteralSuffix>>) -> (res:
        Self)
        ensures
            res == Expression::IntLiteral(IntLiteral { value, radix, suffix }),
    {
        Self::IntLiteral(IntLiteral { value, radix, suffix })
    }

    pub fn binary_expression(
        first: Parsed<Expression>,
        rest: Vec<Parsed<BinaryExpressionTerm>>,
    ) -> (res: Self)
        ensures
            res == Expression::BinaryExpression(
                BinaryExpression { first: Box::new(first), rest },
            ),
    {
        Self::BinaryExpression(BinaryExpression { first: Box::new(first), rest })
    }

    pub fn unary_expression(ops: Vec<Parsed<UnaryOp>>, exp: Parsed<Expression>) -> (res: Self)
        ensures
            res == Expression::UnaryExpression(UnaryExpression { ops, exp: Box::new(exp) }),
    {
        Self::UnaryExpression(UnaryExpression { ops, exp: Box::new(exp) })
    }

    pub fn member_expression(first: Parsed<Expression>, rest: Vec<Parsed<MemberOp>>) -> (res:
        Self)
        ensures
            res == Expression::MemberExpression(
                MemberExpression { first: Box::new(first), rest },
            ),
    {
        Self::MemberExpression(MemberExpression { first: Box::new(first), rest })
    }

    pub fn identifier_expression(name: String) -> (res: Self)
        ensures
            res == Expression::IdentifierExpression(IdentifierExpression { name }),
    {
        Self::IdentifierExpression(IdentifierExpression { name })
    }
}

#[derive(Debug)]
pub struct CommaExpression {
    pub exps: Vec<Parsed<Expression>>,
}

#[derive(Debug)]
pub struct TernaryExpression {
    pub terms: Vec<Parsed<TernaryExpressionTerm>>,
    pub if_false: Box<Parsed<Expression>>,
}

#[derive(Debug)]
pub struct TernaryExpressionTerm {
    pub test: Box<Parsed<Expression>>,
    pub if_true: Box<Parsed<Expression>>,
}

#[derive(Debug)]
pub struct BinaryExpression {
    pub first: Box<Parsed<Expression>>,
    pub rest: Vec<Parsed<BinaryExpressionTerm>>,
}

#[derive(Debug)]
pub struct BinaryExpressionTerm {
    pub op: Parsed<BinaryOp>,
    pub exp: Box<Parsed<Expression>>,
}

#[derive(Debug)]
pub struct UnaryExpression {
    pub ops: Vec<Parsed<UnaryOp>>,
    pub exp: Box<Parsed<Expression>>,
}

#[derive(Debug)]
pub struct IntLiteral {
    pub value: u64,
    pub radix: Radix,
    pub suffix: Option<Parsed<IntLiteralSuffix>>,
}

#[derive(Debug, Clone, Copy, PartialEq, Eq, Structural)]
pub enum LetOrConst {
    Let,
    Const,
}

#[derive(Debug, Clone, Copy, PartialEq, Eq, Structural)]
pub enum IntLiteralSuffix {
    U8,
    U16,
    U32,
    U64,
    I8,
    I16,
    I32,
    I64,
}

/// The source radix of an int literal
#[derive(Debug, Clone, Copy, PartialEq, Eq, Structural)]
pub enum Radix {
    Decimal,
    Hex,
    Octal,
    Binary,
}

#[derive(Debug, Clone, Copy, PartialEq, Eq, Structural)]
pub enum BinaryOp {
    Plus,
    Minus,
    Times,
    Divide,
    Mod,
    ShiftLeft,
    LogicalShiftRight,
    ArithmeticShiftRight,
    LessThan,
    LessThanOrEquals,
    GreaterThan,
    GreaterThanOrEquals,
    Equals,
    NotEquals,
    BitwiseAnd,
    BitwiseXor,
    BitwiseOr,
    LogicalAnd,
    LogicalOr,
    Assign,
    PlusAssign,
    MinusAssign,
    TimesAssign,
    DivideAssign,
    ModAssign,
    ShiftLeftAssign,
    LogicalShiftRightAssign,
    ArithmeticShiftRightAssign,
    BitwiseAndAssign,
    BitwiseXorAssign,
    BitwiseOrAssign,
    LogicalAndAssign,
    LogicalOrAssign,
}

#[derive(Debug, Clone, Copy, PartialEq, Eq, Structural)]
pub enum UnaryOp {
    Plus,
    Minus,
    LogicalNot,
    BitwiseNot,
}

#[derive(Debug)]
pub enum MemberOp {
    DotAccess(DotAccess),
    FunctionCall(FunctionCall),
    IndexAccess(IndexAccess),
    NonNullAssert,
}

#[derive(Debug)]
pub struct MemberExpression {
    pub first: Box<Parsed<Expression>>,
    pub rest: Vec<Parsed<MemberOp>>,
}

impl MemberOp {
    pub fn dot_access(name: Parsed<String>) -> (res: Self)
        ensures
            res == MemberOp::DotAccess(DotAccess { name }),
    {
        MemberOp::DotAccess(DotAccess { name })
    }

    pub fn function_call(args: Parsed<Vec<Parsed<Expression>>>) -> (res: Self)
        ensures
            res == MemberOp::FunctionCall(FunctionCall { args }),
    {
        MemberOp::FunctionCall(FunctionCall { args })
    }

    pub fn index_access(exp: Parsed<Expression>) -> (res: Self)
        ensures
            res == MemberOp::IndexAccess(IndexAccess { exp: Box::new(exp) }),
    {
        MemberOp::IndexAccess(IndexAccess { exp: Box::new(exp) })
    }

    pub fn non_null_assert() -> (res: Self)
        ensures
            res == MemberOp::NonNullAssert,
    {
        MemberOp::NonNullAssert
    }
}

#[derive(Debug)]
pub struct DotAccess {
    pub name: Parsed<String>,
}

#[derive(Debug)]
pub struct FunctionCall {
    pub args: Parsed<Vec<Parsed<Expression>>>,
}

#[derive(Debug)]
pub struct IndexAccess {
    pub exp: Box<Parsed<Expression>>,
}

#[derive(Debug)]
pub struct IdentifierExpression {
    pub name: String,
}

} // verus!
