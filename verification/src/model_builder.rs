use vstd::prelude::*;

use crate::ast;
use crate::model::{
    BinaryExpressionData,
    BinaryOp,
    BlockStatementData,
    BooleanLiteralData,
    BreakStatementData,
    CatchClauseData,
    CommaExpressionData,
    ContinueStatementData,
    DotAccessExpressionData,
    EmptyStatementData,
    ExpressionData,
    ExpressionStatementData,
    FileData,
    FileItemData,
    ForInitData,
    ForStatementData,
    FunctionCallExpressionData,
    FunctionDeclArgData,
    FunctionDeclStatementData,
    FunctionSignatureData,
    IdentifierExpressionData,
    IfStatementData,
    ImportDeclData,
    IndexAccessExpressionData,
    IntLiteralData,
    IntLiteralSuffix,
    ItemPtr,
    LabeledStatementData,
    LetOrConst,
    Model,
    NonNullAssertExpressionData,
    NullLiteralData,
    ReturnStatementData,
    SourceFile,
    SourceFilePtr,
    SourceLocation,
    Span,
    StatementData,
    StringLiteralData,
    SwitchBodyStatementData,
    SwitchCaseData,
    SwitchDefaultData,
    SwitchItemData,
    SwitchStatementData,
    TernaryExpressionData,
    TryStatementData,
    TypeDeclData,
    UnaryExpressionData,
    UnaryOp,
    VarDeclStatementData,
    WhileStatementData,
    lemma_grows_refl,
    lemma_grows_trans,
    lemma_valid_grows,
    ptr_in,
};
use crate::lowering::{
    binary_chain,
    catch_lowered,
    file_item_lowered,
    file_lowered,
    for_init_lowered,
    lemma_catch_lowered_grows,
    lemma_file_items_lowered_grow,
    file_item_spans,
    lemma_file_item_spans_grow,
    lemma_for_init_lowered_grows,
    lemma_opt_expr_lowered_grows,
    lemma_signature_lowered_grows,
    lemma_stmt_lowered_grows,
    lemma_stmt_spans_grow,
    lemma_stmts_lowered_grow,
    stmt_children_spans,
    stmt_spans,
    lemma_switch_items_lowered_grow,
    signature_lowered,
    stmt_lowered,
    switch_item_lowered,
    binary_lowered,
    expr_lowered,
    lemma_binary_chain_grows,
    lemma_binary_chain_lowered,
    lemma_expr_lowered_grows,
    lemma_exprs_lowered_grow,
    lemma_member_chain_grows,
    lemma_member_chain_lowered,
    lemma_member_op_lowered_grows,
    lemma_ternary_chain_grows,
    lemma_ternary_chain_lowered,
    lemma_unary_chain_grows,
    lemma_unary_chain_lowered,
    member_chain,
    member_lowered,
    member_op_lowered,
    ternary_chain,
    ternary_lowered,
    unary_chain,
    unary_lowered,
};
use crate::peg_parser::{Parsed, ParsedRange};

verus! {

/// The location that a range of a source file names.
pub open spec fn spec_location(source_file: SourceFilePtr, range: ParsedRange) -> SourceLocation {
    SourceLocation { source_file, span: Span { start: range.start, end: range.end } }
}

/// The model statement has the same kind as the parsed one.
pub open spec fn same_statement_kind(a: ast::Statement, s: StatementData) -> bool {
    match a {
        ast::Statement::EmptyStatement => s is EmptyStatement,
        ast::Statement::ExpressionStatement(_) => s is ExpressionStatement,
        ast::Statement::IfStatement(_) => s is IfStatement,
        ast::Statement::WhileStatement(_) => s is WhileStatement,
        ast::Statement::ReturnStatement(_) => s is ReturnStatement,
        ast::Statement::BreakStatement(_) => s is BreakStatement,
        ast::Statement::ContinueStatement(_) => s is ContinueStatement,
        ast::Statement::BlockStatement(_) => s is BlockStatement,
        ast::Statement::ForStatement(_) => s is ForStatement,
        ast::Statement::SwitchStatement(_) => s is SwitchStatement,
        ast::Statement::VarDeclStatement(_) => s is VarDeclStatement,
        ast::Statement::FunctionDeclStatement(_) => s is FunctionDeclStatement,
        ast::Statement::LabeledStatement(_) => s is LabeledStatement,
        ast::Statement::TryStatement(_) => s is TryStatement,
    }
}

/// The model expression has the kind that the parsed one lowers to.  Binary, unary,
/// ternary and member expressions without operators lower to their operand.
pub open spec fn same_expression_kind(a: ast::Expression, e: ExpressionData) -> bool {
    match a {
        ast::Expression::CommaExpression(_) => e is CommaExpression,
        ast::Expression::TernaryExpression(t) => t.terms@.len() > 0 ==> e is TernaryExpression,
        ast::Expression::BinaryExpression(b) => b.rest@.len() > 0 ==> e is BinaryExpression,
        ast::Expression::UnaryExpression(u) => u.ops@.len() > 0 ==> e is UnaryExpression,
        ast::Expression::BooleanLiteral(_) => e is BooleanLiteral,
        ast::Expression::NullLiteral => e is NullLiteral,
        ast::Expression::StringLiteral(_) => e is StringLiteral,
        ast::Expression::IntLiteral(_) => e is IntLiteral,
        ast::Expression::MemberExpression(m) => m.rest@.len() > 0 ==> match m.rest@.last().value {
            ast::MemberOp::DotAccess(_) => e is DotAccessExpression,
            ast::MemberOp::FunctionCall(_) => e is FunctionCallExpression,
            ast::MemberOp::IndexAccess(_) => e is IndexAccessExpression,
            ast::MemberOp::NonNullAssert => e is NonNullAssertExpression,
        },
        ast::Expression::IdentifierExpression(_) => e is IdentifierExpression,
    }
}

/// The model file item has the same kind as the parsed one.
pub open spec fn same_file_item_kind(a: ast::FileItem, fi: FileItemData) -> bool {
    match a {
        ast::FileItem::Statement(s) => fi matches FileItemData::Statement(d) && same_statement_kind(s, d),
        ast::FileItem::TypeDecl(_) => fi is TypeDecl,
        ast::FileItem::ImportDecl(_) => fi is ImportDecl,
    }
}

pub open spec fn spec_let_or_const(src: ast::LetOrConst) -> LetOrConst {
    match src {
        ast::LetOrConst::Let => LetOrConst::Let,
        ast::LetOrConst::Const => LetOrConst::Const,
    }
}

pub open spec fn spec_int_literal_suffix(src: ast::IntLiteralSuffix) -> IntLiteralSuffix {
    match src {
        ast::IntLiteralSuffix::U8 => IntLiteralSuffix::U8,
        ast::IntLiteralSuffix::U16 => IntLiteralSuffix::U16,
        ast::IntLiteralSuffix::U32 => IntLiteralSuffix::U32,
        ast::IntLiteralSuffix::U64 => IntLiteralSuffix::U64,
        ast::IntLiteralSuffix::I8 => IntLiteralSuffix::I8,
        ast::IntLiteralSuffix::I16 => IntLiteralSuffix::I16,
        ast::IntLiteralSuffix::I32 => IntLiteralSuffix::I32,
        ast::IntLiteralSuffix::I64 => IntLiteralSuffix::I64,
    }
}

pub open spec fn spec_unary_op(src: ast::UnaryOp) -> UnaryOp {
    match src {
        ast::UnaryOp::Plus => UnaryOp::Plus,
        ast::UnaryOp::Minus => UnaryOp::Minus,
        ast::UnaryOp::LogicalNot => UnaryOp::LogicalNot,
        ast::UnaryOp::BitwiseNot => UnaryOp::BitwiseNot,
    }
}

pub open spec fn spec_binary_op(src: ast::BinaryOp) -> BinaryOp {
    match src {
        ast::BinaryOp::Plus => BinaryOp::Plus,
        ast::BinaryOp::Minus => BinaryOp::Minus,
        ast::BinaryOp::Times => BinaryOp::Times,
        ast::BinaryOp::Divide => BinaryOp::Divide,
        ast::BinaryOp::Mod => BinaryOp::Mod,
        ast::BinaryOp::ShiftLeft => BinaryOp::ShiftLeft,
        ast::BinaryOp::LogicalShiftRight => BinaryOp::LogicalShiftRight,
        ast::BinaryOp::ArithmeticShiftRight => BinaryOp::ArithmeticShiftRight,
        ast::BinaryOp::LessThan => BinaryOp::LessThan,
        ast::BinaryOp::LessThanOrEquals => BinaryOp::LessThanOrEquals,
        ast::BinaryOp::GreaterThan => BinaryOp::GreaterThan,
        ast::BinaryOp::GreaterThanOrEquals => BinaryOp::GreaterThanOrEquals,
        ast::BinaryOp::Equals => BinaryOp::Equals,
        ast::BinaryOp::NotEquals => BinaryOp::NotEquals,
        ast::BinaryOp::BitwiseAnd => BinaryOp::BitwiseAnd,
        ast::BinaryOp::BitwiseXor => BinaryOp::BitwiseXor,
        ast::BinaryOp::BitwiseOr => BinaryOp::BitwiseOr,
        ast::BinaryOp::LogicalAnd => BinaryOp::LogicalAnd,
        ast::BinaryOp::LogicalOr => BinaryOp::LogicalOr,
        ast::BinaryOp::Assign => BinaryOp::Assign,
        ast::BinaryOp::PlusAssign => BinaryOp::PlusAssign,
        ast::BinaryOp::MinusAssign => BinaryOp::MinusAssign,
        ast::BinaryOp::TimesAssign => BinaryOp::TimesAssign,
        ast::BinaryOp::DivideAssign => BinaryOp::DivideAssign,
        ast::BinaryOp::ModAssign => BinaryOp::ModAssign,
        ast::BinaryOp::ShiftLeftAssign => BinaryOp::ShiftLeftAssign,
        ast::BinaryOp::LogicalShiftRightAssign => BinaryOp::LogicalShiftRightAssign,
        ast::BinaryOp::ArithmeticShiftRightAssign => BinaryOp::ArithmeticShiftRightAssign,
        ast::BinaryOp::BitwiseAndAssign => BinaryOp::BitwiseAndAssign,
        ast::BinaryOp::BitwiseXorAssign => BinaryOp::BitwiseXorAssign,
        ast::BinaryOp::BitwiseOrAssign => BinaryOp::BitwiseOrAssign,
        ast::BinaryOp::LogicalAndAssign => BinaryOp::LogicalAndAssign,
        ast::BinaryOp::LogicalOrAssign => BinaryOp::LogicalOrAssign,
    }
}

/// The optional label, as the model stores it.
pub open spec fn spec_label(label: Option<Parsed<String>>) -> Option<Seq<char>> {
    match label {
        Some(l) => Some(l.value@),
        None => None,
    }
}

pub open spec fn opt_string_view(s: Option<String>) -> Option<Seq<char>> {
    match s {
        Some(s) => Some(s@),
        None => None,
    }
}

/// Adds a parsed file to the model, under a new source file of the given name, and returns
/// the pointer to the file's item.
pub fn add_file_to_model(source_file: &String, src: &Parsed<ast::File>, model: &mut Model) -> (res:
    ItemPtr<FileData>)
    requires
        old(model).kinds_ok(),
    ensures
        final(model).source_files.spec_name(SourceFilePtr { id: old(model).source_files.id_counter })
            == Some(source_file@),
        ptr_in(final(model).files, res),
        final(model).span_table.spec_get(res.spec_key()) == Some(
            spec_location(SourceFilePtr { id: old(model).source_files.id_counter }, src.range),
        ),
        final(model).files.items@[res.id as int].items@.len() == src.value.items@.len(),
        forall|i: int|
            0 <= i < src.value.items@.len() ==> {
                let fi = #[trigger] final(model).files.items@[res.id as int].items@[i];
                &&& final(model).file_item_valid(fi)
                &&& same_file_item_kind(src.value.items@[i].value, fi)
            },
        file_lowered(*final(model), src.value, res),
        forall|i: int|
            0 <= i < src.value.items@.len() ==> file_item_spans(
                *final(model),
                SourceFilePtr { id: old(model).source_files.id_counter },
                src.value.items@[i].value,
                src.value.items@[i].range,
                #[trigger] final(model).files.items@[res.id as int].items@[i],
            ),
        old(model).items_grow_to(*final(model)),
        final(model).source_files.id_counter == old(model).source_files.id_counter,
        final(model).source_files.source_files@ == old(model).source_files.source_files@.push(
            (
                SourceFilePtr { id: old(model).source_files.id_counter },
                SourceFile { name: *source_file },
            ),
        ),
{
    let source_file = model.source_files.add(source_file.clone());
    let mut mb = ModelBuilder::new(model, source_file);
    let res = mb.build_file(&src.value, &src.range);
    proof {
        assert(has_resolved(mb));
    }
    res
}

/// Adds the items of a parsed file to a model, recording each item's source location.
pub struct ModelBuilder<'a> {
    pub model: &'a mut Model,
    pub source_file: SourceFilePtr,
}

impl<'a> ModelBuilder<'a> {
    pub fn new(model: &'a mut Model, source_file: SourceFilePtr) -> (res: Self)
        ensures
            *res.model == *old(model),
            *final(model) == *final(res.model),
            res.source_file == source_file,
    {
        Self { model, source_file }
    }

    /// The location of a range in this builder's source file.
    fn location(&self, range: &ParsedRange) -> (res: SourceLocation)
        ensures
            res == spec_location(self.source_file, *range),
    {
        SourceLocation {
            source_file: self.source_file,
            span: Span { start: range.start, end: range.end },
        }
    }

    #[verifier::loop_isolation(false)]
    pub fn build_file(&mut self, src: &ast::File, range: &ParsedRange) -> (res: ItemPtr<FileData>)
        requires
            old(self).model.kinds_ok(),
        ensures
            final(self).source_file == old(self).source_file,
            *final(final(self).model) == *final(old(self).model),
            old(self).model.grows_to(*final(self).model),
            ptr_in(final(self).model.files, res),
            res.id + 1 == final(self).model.files.items@.len(),
            final(self).model.span_table.spec_get(res.spec_key()) == Some(
                spec_location(old(self).source_file, *range),
            ),
            final(self).model.files.items@[res.id as int].items@.len() == src.items@.len(),
            forall|i: int|
                0 <= i < src.items@.len() ==> {
                    let fi = #[trigger] final(self).model.files.items@[res.id as int].items@[i];
                    &&& final(self).model.file_item_valid(fi)
                    &&& same_file_item_kind(src.items@[i].value, fi)
                },
            file_lowered(*final(self).model, *src, res),
            forall|i: int|
                0 <= i < src.items@.len() ==> file_item_spans(
                    *final(self).model,
                    old(self).source_file,
                    src.items@[i].value,
                    src.items@[i].range,
                    #[trigger] final(self).model.files.items@[res.id as int].items@[i],
                ),
    {
        let mut items: Vec<FileItemData> = Vec::new();
        let mut i: usize = 0;
        while i < src.items.len()
            invariant
                self.source_file == old(self).source_file,
                *final(self.model) == *final(old(self).model),
                old(self).model.grows_to(*self.model),
                self.model.kinds_ok(),
                items@.len() == i,
                i <= src.items@.len(),
                forall|k: int|
                    0 <= k < i ==> {
                        &&& self.model.file_item_valid(#[trigger] items@[k])
                        &&& same_file_item_kind(src.items@[k].value, items@[k])
                    },
                forall|k: int|
                    0 <= k < i ==> file_item_lowered(
                        *self.model,
                        src.items@[k].value,
                        #[trigger] items@[k],
                    ),
                forall|k: int|
                    0 <= k < i ==> file_item_spans(
                        *self.model,
                        self.source_file,
                        src.items@[k].value,
                        src.items@[k].range,
                        #[trigger] items@[k],
                    ),
            decreases src.items@.len() - i,
        {
            let ghost before = *self.model;
            let it = &src.items[i];
            let item = self.build_file_item(&it.value, &it.range);
            proof {
                lemma_grows_trans(*old(self).model, before, *self.model);
                lemma_valid_grows(before, *self.model);
                lemma_file_items_lowered_grow(before, *self.model, src.items@, items@, items@.len() as int);
                assert forall|k: int| 0 <= k < i implies file_item_spans(
                    *self.model,
                    self.source_file,
                    src.items@[k].value,
                    src.items@[k].range,
                    #[trigger] items@[k],
                ) by {
                    lemma_file_item_spans_grow(before, *self.model, self.source_file, src.items@[k].value, src.items@[k].range, items@[k]);
                }
            }
            items.push(item);
            i = i + 1;
        }
        let ghost m1 = *self.model;
        let data = FileData { items };
        let ptr = self.model.files.add(data);
        let loc = self.location(range);
        let ghost m2 = *self.model;
        self.model.span_table.insert(ptr.key(), loc);
        proof {
            lemma_file_items_lowered_grow(m1, *self.model, src.items@, data.items@, data.items@.len() as int);
            assert(m1.grows_to(*self.model));
            assert forall|k: int| 0 <= k < data.items@.len() implies file_item_spans(
                *self.model,
                self.source_file,
                src.items@[k].value,
                src.items@[k].range,
                #[trigger] data.items@[k],
            ) by {
                lemma_file_item_spans_grow(m1, *self.model, self.source_file, src.items@[k].value, src.items@[k].range, data.items@[k]);
            }
        }
        ptr
    }

    pub fn build_file_item(&mut self, src: &ast::FileItem, range: &ParsedRange) -> (res:
        FileItemData)
        requires
            old(self).model.kinds_ok(),
        ensures
            final(self).source_file == old(self).source_file,
            *final(final(self).model) == *final(old(self).model),
            old(self).model.grows_to(*final(self).model),
            final(self).model.file_item_valid(res),
            same_file_item_kind(*src, res),
            final(self).model.span_table.spec_get(res.spec_key()) == Some(
                spec_location(old(self).source_file, *range),
            ),
            file_item_lowered(*final(self).model, *src, res),
            file_item_spans(*final(self).model, old(self).source_file, *src, *range, res),
    {
        match src {
            ast::FileItem::Statement(a) => FileItemData::Statement(self.build_statement(a, range)),
            ast::FileItem::TypeDecl(a) => FileItemData::TypeDecl(self.build_type_decl(a, range)),
            ast::FileItem::ImportDecl(a) => FileItemData::ImportDecl(
                self.build_import_decl(a, range),
            ),
        }
    }

    pub fn build_type_decl(&mut self, src: &ast::TypeDecl, range: &ParsedRange) -> (res: ItemPtr<
        TypeDeclData,
    >)
        requires
            old(self).model.kinds_ok(),
        ensures
            final(self).source_file == old(self).source_file,
            *final(final(self).model) == *final(old(self).model),
            old(self).model.grows_to(*final(self).model),
            ptr_in(final(self).model.type_decls, res),
            res.id + 1 == final(self).model.type_decls.items@.len(),
            final(self).model.span_table.spec_get(res.spec_key()) == Some(
                spec_location(old(self).source_file, *range),
            ),
    {
        let ptr = self.model.type_decls.add(TypeDeclData {  });
        let loc = self.location(range);
        self.model.span_table.insert(ptr.key(), loc);
        ptr
    }

    pub fn build_import_decl(&mut self, src: &ast::ImportDecl, range: &ParsedRange) -> (res: ItemPtr<
        ImportDeclData,
    >)
        requires
            old(self).model.kinds_ok(),
        ensures
            final(self).source_file == old(self).source_file,
            *final(final(self).model) == *final(old(self).model),
            old(self).model.grows_to(*final(self).model),
            ptr_in(final(self).model.import_decls, res),
            res.id + 1 == final(self).model.import_decls.items@.len(),
            final(self).model.span_table.spec_get(res.spec_key()) == Some(
                spec_location(old(self).source_file, *range),
            ),
            final(self).model.import_decls.items@[res.id as int].name@ == src.name.value@,
            final(self).model.import_decls.items@[res.id as int].source@ == src.source.value@,
    {
        let data = ImportDeclData { name: src.name.value.clone(), source: src.source.value.clone() };
        let ptr = self.model.import_decls.add(data);
        let loc = self.location(range);
        self.model.span_table.insert(ptr.key(), loc);
        ptr
    }

    pub fn build_statement(&mut self, src: &ast::Statement, range: &ParsedRange) -> (res:
        StatementData)
        requires
            old(self).model.kinds_ok(),
        ensures
            final(self).model.stmt_last(res),
            final(self).source_file == old(self).source_file,
            *final(final(self).model) == *final(old(self).model),
            old(self).model.grows_to(*final(self).model),
            final(self).model.stmt_valid(res),
            same_statement_kind(*src, res),
            final(self).model.span_table.spec_get(res.spec_key()) == Some(
                spec_location(old(self).source_file, *range),
            ),
            stmt_lowered(*final(self).model, *src, res),
            stmt_spans(*final(self).model, old(self).source_file, *src, *range, res),
        decreases src, 2nat,
    {
        match src {
            ast::Statement::EmptyStatement => StatementData::EmptyStatement(
                self.build_empty_statement(range),
            ),
            ast::Statement::ExpressionStatement(a) => StatementData::ExpressionStatement(
                self.build_expression_statement(a, range),
            ),
            ast::Statement::IfStatement(a) => StatementData::IfStatement(
                self.build_if_statement(a, range),
            ),
            ast::Statement::WhileStatement(a) => StatementData::WhileStatement(
                self.build_while_statement(a, range),
            ),
            ast::Statement::ReturnStatement(a) => StatementData::ReturnStatement(
                self.build_return_statement(a, range),
            ),
            ast::Statement::BreakStatement(a) => StatementData::BreakStatement(
                self.build_break_statement(a, range),
            ),
            ast::Statement::ContinueStatement(a) => StatementData::ContinueStatement(
                self.build_continue_statement(a, range),
            ),
            ast::Statement::BlockStatement(a) => StatementData::BlockStatement(
                self.build_block_statement(a, range),
            ),
            ast::Statement::ForStatement(a) => StatementData::ForStatement(
                self.build_for_statement(a, range),
            ),
            ast::Statement::SwitchStatement(a) => StatementData::SwitchStatement(
                self.build_switch_statement(a, range),
            ),
            ast::Statement::VarDeclStatement(a) => StatementData::VarDeclStatement(
                self.build_var_decl_statement(a, range),
            ),
            ast::Statement::FunctionDeclStatement(a) => StatementData::FunctionDeclStatement(
                self.build_function_decl_statement(a, range),
            ),
            ast::Statement::LabeledStatement(a) => StatementData::LabeledStatement(
                self.build_labeled_statement(a, range),
            ),
            ast::Statement::TryStatement(a) => StatementData::TryStatement(
                self.build_try_statement(a, range),
            ),
        }
    }

    pub fn build_empty_statement(&mut self, range: &ParsedRange) -> (res: ItemPtr<
        EmptyStatementData,
    >)
        requires
            old(self).model.kinds_ok(),
        ensures
            final(self).source_file == old(self).source_file,
            *final(final(self).model) == *final(old(self).model),
            old(self).model.grows_to(*final(self).model),
            ptr_in(final(self).model.empty_statements, res),
            res.id + 1 == final(self).model.empty_statements.items@.len(),
            final(self).model.span_table.spec_get(res.spec_key()) == Some(
                spec_location(old(self).source_file, *range),
            ),
    {
        let ptr = self.model.empty_statements.add(EmptyStatementData {  });
        let loc = self.location(range);
        self.model.span_table.insert(ptr.key(), loc);
        ptr
    }

    pub fn build_expression_statement(
        &mut self,
        src: &ast::ExpressionStatement,
        range: &ParsedRange,
    ) -> (res: ItemPtr<ExpressionStatementData>)
        requires
            old(self).model.kinds_ok(),
        ensures
            final(self).source_file == old(self).source_file,
            *final(final(self).model) == *final(old(self).model),
            old(self).model.grows_to(*final(self).model),
            ptr_in(final(self).model.expression_statements, res),
            res.id + 1 == final(self).model.expression_statements.items@.len(),
            final(self).model.span_table.spec_get(res.spec_key()) == Some(
                spec_location(old(self).source_file, *range),
            ),
            final(self).model.expr_valid(
                final(self).model.expression_statements.items@[res.id as int].exp,
            ),
            stmt_lowered(
                *final(self).model,
                ast::Statement::ExpressionStatement(*src),
                StatementData::ExpressionStatement(res),
            ),
        decreases src, 2nat,
    {
        let exp = self.build_expression(&src.exp.value, &src.exp.range);
        let ghost m1 = *self.model;
        let ptr = self.model.expression_statements.add(ExpressionStatementData { exp });
        let loc = self.location(range);
        self.model.span_table.insert(ptr.key(), loc);
        proof {
            lemma_expr_lowered_grows(m1, *self.model, src.exp.value, exp);
        }
        ptr
    }

    pub fn build_if_statement(&mut self, src: &ast::IfStatement, range: &ParsedRange) -> (res: ItemPtr<IfStatementData>)
        requires
            old(self).model.kinds_ok(),
        ensures
            final(self).source_file == old(self).source_file,
            *final(final(self).model) == *final(old(self).model),
            old(self).model.grows_to(*final(self).model),
            ptr_in(final(self).model.if_statements, res),
            res.id + 1 == final(self).model.if_statements.items@.len(),
            final(self).model.span_table.spec_get(res.spec_key()) == Some(
                spec_location(old(self).source_file, *range),
            ),
            final(self).model.expr_valid(final(self).model.if_statements.items@[res.id as int].test),
            final(self).model.stmt_valid(final(self).model.if_statements.items@[res.id as int].if_true),
            final(self).model.opt_stmt_valid(final(self).model.if_statements.items@[res.id as int].if_false),
            final(self).model.if_statements.items@[res.id as int].if_false is Some == src.if_false is Some,
            stmt_lowered(
                *final(self).model,
                ast::Statement::IfStatement(*src),
                StatementData::IfStatement(res),
            ),
            stmt_children_spans(
                *final(self).model,
                old(self).source_file,
                ast::Statement::IfStatement(*src),
                StatementData::IfStatement(res),
            ),
        decreases src, 2nat,
    {
        let test = self.build_expression(&src.test.value, &src.test.range);
        let ghost m1 = *self.model;
        let if_true = self.build_statement(&src.if_true.value, &src.if_true.range);
        let ghost m2 = *self.model;
        let if_false = match &src.if_false {
            Some(v) => Some(self.build_statement(&v.value, &v.range)),
            None => None,
        };
        let ghost m3 = *self.model;
        proof {
            lemma_valid_grows(m1, *self.model);
            lemma_valid_grows(m2, *self.model);
            if src.if_false is None {
                lemma_grows_refl(m2);
            }
            lemma_grows_trans(m1, m2, m3);
        }
        let data = IfStatementData { test, if_true, if_false };
        let ptr = self.model.if_statements.add(data);
        let loc = self.location(range);
        self.model.span_table.insert(ptr.key(), loc);
        proof {
            assert(m3.grows_to(*self.model));
            lemma_grows_trans(m1, m3, *self.model);
            lemma_grows_trans(m2, m3, *self.model);
            lemma_expr_lowered_grows(m1, *self.model, src.test.value, test);
            lemma_stmt_lowered_grows(m2, *self.model, src.if_true.value, if_true);
            lemma_stmt_spans_grow(m2, *self.model, self.source_file, src.if_true.value, src.if_true.range, if_true);
            if src.if_false is Some {
                lemma_stmt_lowered_grows(m3, *self.model, src.if_false->0.value, if_false->0);
                lemma_stmt_spans_grow(m3, *self.model, self.source_file, src.if_false->0.value, src.if_false->0.range, if_false->0);
            }
        }
        ptr
    }

    pub fn build_while_statement(&mut self, src: &ast::WhileStatement, range: &ParsedRange) -> (res: ItemPtr<WhileStatementData>)
        requires
            old(self).model.kinds_ok(),
        ensures
            final(self).source_file == old(self).source_file,
            *final(final(self).model) == *final(old(self).model),
            old(self).model.grows_to(*final(self).model),
            ptr_in(final(self).model.while_statements, res),
            res.id + 1 == final(self).model.while_statements.items@.len(),
            final(self).model.span_table.spec_get(res.spec_key()) == Some(
                spec_location(old(self).source_file, *range),
            ),
            final(self).model.expr_valid(final(self).model.while_statements.items@[res.id as int].test),
            final(self).model.stmt_valid(final(self).model.while_statements.items@[res.id as int].stmt),
            stmt_lowered(
                *final(self).model,
                ast::Statement::WhileStatement(*src),
                StatementData::WhileStatement(res),
            ),
            stmt_children_spans(
                *final(self).model,
                old(self).source_file,
                ast::Statement::WhileStatement(*src),
                StatementData::WhileStatement(res),
            ),
        decreases src, 2nat,
    {
        let test = self.build_expression(&src.test.value, &src.test.range);
        let ghost m1 = *self.model;
        let stmt = self.build_statement(&src.stmt.value, &src.stmt.range);
        let ghost m2 = *self.model;
        proof {
            lemma_valid_grows(m1, *self.model);
        }
        let data = WhileStatementData { test, stmt };
        let ptr = self.model.while_statements.add(data);
        let loc = self.location(range);
        self.model.span_table.insert(ptr.key(), loc);
        proof {
            assert(m2.grows_to(*self.model));
            lemma_grows_trans(m1, m2, *self.model);
            lemma_expr_lowered_grows(m1, *self.model, src.test.value, test);
            lemma_stmt_lowered_grows(m2, *self.model, src.stmt.value, stmt);
            lemma_stmt_spans_grow(m2, *self.model, self.source_file, src.stmt.value, src.stmt.range, stmt);
        }
        ptr
    }

    pub fn build_return_statement(&mut self, src: &ast::ReturnStatement, range: &ParsedRange) -> (res: ItemPtr<ReturnStatementData>)
        requires
            old(self).model.kinds_ok(),
        ensures
            final(self).source_file == old(self).source_file,
            *final(final(self).model) == *final(old(self).model),
            old(self).model.grows_to(*final(self).model),
            ptr_in(final(self).model.return_statements, res),
            res.id + 1 == final(self).model.return_statements.items@.len(),
            final(self).model.span_table.spec_get(res.spec_key()) == Some(
                spec_location(old(self).source_file, *range),
            ),
            final(self).model.opt_expr_valid(final(self).model.return_statements.items@[res.id as int].exp),
            final(self).model.return_statements.items@[res.id as int].exp is Some == src.exp is Some,
            stmt_lowered(
                *final(self).model,
                ast::Statement::ReturnStatement(*src),
                StatementData::ReturnStatement(res),
            ),
        decreases src, 2nat,
    {
        let exp = match &src.exp {
            Some(v) => Some(self.build_expression(&v.value, &v.range)),
            None => None,
        };
        let ghost m1 = *self.model;
        let data = ReturnStatementData { exp };
        let ptr = self.model.return_statements.add(data);
        let loc = self.location(range);
        self.model.span_table.insert(ptr.key(), loc);
        proof {
            lemma_opt_expr_lowered_grows(m1, *self.model, src.exp, exp);
        }
        ptr
    }

    pub fn build_break_statement(&mut self, src: &ast::BreakStatement, range: &ParsedRange) -> (res: ItemPtr<BreakStatementData>)
        requires
            old(self).model.kinds_ok(),
        ensures
            final(self).source_file == old(self).source_file,
            *final(final(self).model) == *final(old(self).model),
            old(self).model.grows_to(*final(self).model),
            ptr_in(final(self).model.break_statements, res),
            res.id + 1 == final(self).model.break_statements.items@.len(),
            final(self).model.span_table.spec_get(res.spec_key()) == Some(
                spec_location(old(self).source_file, *range),
            ),
            opt_string_view(final(self).model.break_statements.items@[res.id as int].label) == spec_label(src.label),
    {
        let label = match &src.label {
            Some(v) => Some(v.value.clone()),
            None => None,
        };
        let data = BreakStatementData { label };
        let ptr = self.model.break_statements.add(data);
        let loc = self.location(range);
        self.model.span_table.insert(ptr.key(), loc);
        ptr
    }

    pub fn build_continue_statement(&mut self, src: &ast::ContinueStatement, range: &ParsedRange) -> (res: ItemPtr<ContinueStatementData>)
        requires
            old(self).model.kinds_ok(),
        ensures
            final(self).source_file == old(self).source_file,
            *final(final(self).model) == *final(old(self).model),
            old(self).model.grows_to(*final(self).model),
            ptr_in(final(self).model.continue_statements, res),
            res.id + 1 == final(self).model.continue_statements.items@.len(),
            final(self).model.span_table.spec_get(res.spec_key()) == Some(
                spec_location(old(self).source_file, *range),
            ),
            opt_string_view(final(self).model.continue_statements.items@[res.id as int].label) == spec_label(src.label),
    {
        let label = match &src.label {
            Some(v) => Some(v.value.clone()),
            None => None,
        };
        let data = ContinueStatementData { label };
        let ptr = self.model.continue_statements.add(data);
        let loc = self.location(range);
        self.model.span_table.insert(ptr.key(), loc);
        ptr
    }

    #[verifier::loop_isolation(false)]
    pub fn build_block_statement(&mut self, src: &ast::BlockStatement, range: &ParsedRange) -> (res: ItemPtr<BlockStatementData>)
        requires
            old(self).model.kinds_ok(),
        ensures
            final(self).source_file == old(self).source_file,
            *final(final(self).model) == *final(old(self).model),
            old(self).model.grows_to(*final(self).model),
            ptr_in(final(self).model.block_statements, res),
            res.id + 1 == final(self).model.block_statements.items@.len(),
            final(self).model.span_table.spec_get(res.spec_key()) == Some(
                spec_location(old(self).source_file, *range),
            ),
            final(self).model.block_statements.items@[res.id as int].stmts@.len() == src.stmts.value@.len(),
            forall|i: int| 0 <= i < final(self).model.block_statements.items@[res.id as int].stmts@.len() ==> final(self).model.stmt_valid(#[trigger] final(self).model.block_statements.items@[res.id as int].stmts@[i]),
            stmt_lowered(
                *final(self).model,
                ast::Statement::BlockStatement(*src),
                StatementData::BlockStatement(res),
            ),
            stmt_children_spans(
                *final(self).model,
                old(self).source_file,
                ast::Statement::BlockStatement(*src),
                StatementData::BlockStatement(res),
            ),
        decreases src, 2nat,
    {
        let mut stmts: Vec<StatementData> = Vec::new();
        let mut i: usize = 0;
        while i < src.stmts.value.len()
            invariant
                self.source_file == old(self).source_file,
                *final(self.model) == *final(old(self).model),
                old(self).model.grows_to(*self.model),
                self.model.kinds_ok(),
                stmts@.len() == i,
                i <= src.stmts.value@.len(),
                forall|j: int| 0 <= j < stmts@.len() ==> self.model.stmt_valid(#[trigger] stmts@[j]),
                forall|j: int|
                    0 <= j < stmts@.len() ==> stmt_lowered(
                        *self.model,
                        src.stmts.value@[j].value,
                        #[trigger] stmts@[j],
                    ),
                forall|j: int|
                    0 <= j < stmts@.len() ==> stmt_spans(
                        *self.model,
                        self.source_file,
                        src.stmts.value@[j].value,
                        src.stmts.value@[j].range,
                        #[trigger] stmts@[j],
                    ),
            decreases src.stmts.value@.len() - i,
        {
            let ghost before = *self.model;
            let v = &src.stmts.value[i];
            let s = self.build_statement(&v.value, &v.range);
            proof {
                lemma_valid_grows(before, *self.model);
                lemma_stmts_lowered_grow(before, *self.model, src.stmts.value@, stmts@, stmts@.len() as int);
                assert forall|j: int| 0 <= j < stmts@.len() implies stmt_spans(
                    *self.model,
                    self.source_file,
                    src.stmts.value@[j].value,
                    src.stmts.value@[j].range,
                    #[trigger] stmts@[j],
                ) by {
                    lemma_stmt_spans_grow(before, *self.model, self.source_file, src.stmts.value@[j].value, src.stmts.value@[j].range, stmts@[j]);
                }
            }
            stmts.push(s);
            i = i + 1;
        }
        let ghost m1 = *self.model;
        let data = BlockStatementData { stmts };
        let ptr = self.model.block_statements.add(data);
        let loc = self.location(range);
        self.model.span_table.insert(ptr.key(), loc);
        proof {
            lemma_stmts_lowered_grow(m1, *self.model, src.stmts.value@, data.stmts@, data.stmts@.len() as int);
            assert forall|j: int| 0 <= j < data.stmts@.len() implies stmt_spans(
                *self.model,
                self.source_file,
                src.stmts.value@[j].value,
                src.stmts.value@[j].range,
                #[trigger] data.stmts@[j],
            ) by {
                lemma_stmt_spans_grow(m1, *self.model, self.source_file, src.stmts.value@[j].value, src.stmts.value@[j].range, data.stmts@[j]);
            }
        }
        ptr
    }

    #[verifier::rlimit(100)]
    #[verifier::spinoff_prover]
    pub fn build_for_statement(&mut self, src: &ast::ForStatement, range: &ParsedRange) -> (res: ItemPtr<ForStatementData>)
        requires
            old(self).model.kinds_ok(),
        ensures
            final(self).source_file == old(self).source_file,
            *final(final(self).model) == *final(old(self).model),
            old(self).model.grows_to(*final(self).model),
            ptr_in(final(self).model.for_statements, res),
            res.id + 1 == final(self).model.for_statements.items@.len(),
            final(self).model.span_table.spec_get(res.spec_key()) == Some(
                spec_location(old(self).source_file, *range),
            ),
            final(self).model.opt_expr_valid(final(self).model.for_statements.items@[res.id as int].test),
            final(self).model.opt_expr_valid(final(self).model.for_statements.items@[res.id as int].advance),
            final(self).model.stmt_valid(final(self).model.for_statements.items@[res.id as int].stmt),
            final(self).model.for_statements.items@[res.id as int].init is Some == src.init is Some,
            final(self).model.for_statements.items@[res.id as int].test is Some == src.test is Some,
            final(self).model.for_statements.items@[res.id as int].advance is Some == src.advance is Some,
            stmt_lowered(
                *final(self).model,
                ast::Statement::ForStatement(*src),
                StatementData::ForStatement(res),
            ),
            stmt_children_spans(
                *final(self).model,
                old(self).source_file,
                ast::Statement::ForStatement(*src),
                StatementData::ForStatement(res),
            ),
        decreases src, 2nat,
    {
        let ghost m0 = *self.model;
        let init = match &src.init {
            Some(v) => Some(self.build_for_init(&v.value, &v.range)),
            None => None,
        };
        let ghost ma = *self.model;
        let test = match &src.test {
            Some(v) => Some(self.build_expression(&v.value, &v.range)),
            None => None,
        };
        let ghost m1 = *self.model;
        proof {
            lemma_grows_trans(m0, ma, m1);
        }
        let advance = match &src.advance {
            Some(v) => Some(self.build_expression(&v.value, &v.range)),
            None => None,
        };
        let ghost m2 = *self.model;
        proof {
            lemma_grows_trans(m0, m1, m2);
            lemma_valid_grows(m1, m2);
        }
        let stmt = self.build_statement(&src.stmt.value, &src.stmt.range);
        let ghost m3 = *self.model;
        proof {
            lemma_grows_trans(m0, m2, m3);
            lemma_valid_grows(m2, m3);
        }
        let data = ForStatementData { init, test, advance, stmt };
        let ptr = self.model.for_statements.add(data);
        let loc = self.location(range);
        self.model.span_table.insert(ptr.key(), loc);
        proof {
            assert(m3.grows_to(*self.model));
            lemma_grows_trans(m2, m3, *self.model);
            lemma_grows_trans(m1, m2, *self.model);
            lemma_grows_trans(ma, m1, *self.model);
            if src.init is Some {
                lemma_for_init_lowered_grows(ma, *self.model, src.init->0.value, init->0);
            }
            lemma_opt_expr_lowered_grows(m1, *self.model, src.test, test);
            lemma_opt_expr_lowered_grows(m2, *self.model, src.advance, advance);
            lemma_stmt_lowered_grows(m3, *self.model, src.stmt.value, stmt);
            lemma_stmt_spans_grow(m3, *self.model, self.source_file, src.stmt.value, src.stmt.range, stmt);
        }
        ptr
    }

    pub fn build_for_init(&mut self, src: &ast::ForInit, _range: &ParsedRange) -> (res: ForInitData)
        requires
            old(self).model.kinds_ok(),
        ensures
            final(self).source_file == old(self).source_file,
            *final(final(self).model) == *final(old(self).model),
            old(self).model.grows_to(*final(self).model),
            match res {
                ForInitData::Expression(e) => final(self).model.expr_valid(e),
                ForInitData::VarDecl(s) => final(self).model.stmt_valid(s),
            },
            (res is Expression) == (*src is Expression),
            for_init_lowered(*final(self).model, *src, res),
        decreases src, 2nat,
    {
        match src {
            ast::ForInit::Expression(v) => ForInitData::Expression(
                self.build_expression(&v.value, &v.range),
            ),
            ast::ForInit::VarDecl(v) => ForInitData::VarDecl(self.build_statement(&v.value, &v.range)),
        }
    }

    #[verifier::loop_isolation(false)]
    pub fn build_switch_statement(&mut self, src: &ast::SwitchStatement, range: &ParsedRange) -> (res: ItemPtr<SwitchStatementData>)
        requires
            old(self).model.kinds_ok(),
        ensures
            final(self).source_file == old(self).source_file,
            *final(final(self).model) == *final(old(self).model),
            old(self).model.grows_to(*final(self).model),
            ptr_in(final(self).model.switch_statements, res),
            res.id + 1 == final(self).model.switch_statements.items@.len(),
            final(self).model.span_table.spec_get(res.spec_key()) == Some(
                spec_location(old(self).source_file, *range),
            ),
            final(self).model.expr_valid(final(self).model.switch_statements.items@[res.id as int].exp),
            final(self).model.switch_statements.items@[res.id as int].items@.len() == src.items.value@.len(),
            stmt_lowered(
                *final(self).model,
                ast::Statement::SwitchStatement(*src),
                StatementData::SwitchStatement(res),
            ),
        decreases src, 2nat,
    {
        let exp = self.build_expression(&src.exp.value, &src.exp.range);
        let ghost m1 = *self.model;
        let mut items: Vec<SwitchItemData> = Vec::new();
        let mut i: usize = 0;
        while i < src.items.value.len()
            invariant
                self.source_file == old(self).source_file,
                *final(self.model) == *final(old(self).model),
                old(self).model.grows_to(*self.model),
                self.model.kinds_ok(),
                m1.grows_to(*self.model),
                items@.len() == i,
                i <= src.items.value@.len(),
                forall|j: int|
                    0 <= j < items@.len() ==> switch_item_lowered(
                        *self.model,
                        src.items.value@[j].value,
                        #[trigger] items@[j],
                    ),
            decreases src.items.value@.len() - i,
        {
            let ghost before = *self.model;
            let v = &src.items.value[i];
            let item = self.build_switch_item(&v.value, &v.range);
            proof {
                lemma_grows_trans(m1, before, *self.model);
                lemma_switch_items_lowered_grow(before, *self.model, src.items.value@, items@, items@.len() as int);
            }
            items.push(item);
            i = i + 1;
        }
        proof {
            lemma_valid_grows(m1, *self.model);
        }
        let ghost m2 = *self.model;
        let data = SwitchStatementData { exp, items };
        let ptr = self.model.switch_statements.add(data);
        let loc = self.location(range);
        self.model.span_table.insert(ptr.key(), loc);
        proof {
            assert(m2.grows_to(*self.model));
            lemma_grows_trans(m1, m2, *self.model);
            lemma_expr_lowered_grows(m1, *self.model, src.exp.value, exp);
            lemma_switch_items_lowered_grow(m2, *self.model, src.items.value@, data.items@, data.items@.len() as int);
        }
        ptr
    }

    pub fn build_switch_item(&mut self, src: &ast::SwitchItem, range: &ParsedRange) -> (res:
        SwitchItemData)
        requires
            old(self).model.kinds_ok(),
        ensures
            final(self).source_file == old(self).source_file,
            *final(final(self).model) == *final(old(self).model),
            old(self).model.grows_to(*final(self).model),
            match res {
                SwitchItemData::Statement(p) => ptr_in(final(self).model.switch_body_statements, p),
                SwitchItemData::Case(p) => ptr_in(final(self).model.switch_cases, p),
                SwitchItemData::Default(p) => ptr_in(final(self).model.switch_defaults, p),
            },
            switch_item_lowered(*final(self).model, *src, res),
        decreases src, 2nat,
    {
        match src {
            ast::SwitchItem::Statement(v) => SwitchItemData::Statement(
                self.build_switch_body_statement(&v.value, &v.range),
            ),
            ast::SwitchItem::Case(v) => SwitchItemData::Case(self.build_switch_case(&v.value, &v.range)),
            ast::SwitchItem::Default => SwitchItemData::Default(self.build_switch_default(range)),
        }
    }

    pub fn build_switch_body_statement(&mut self, src: &ast::Statement, range: &ParsedRange) -> (res: ItemPtr<SwitchBodyStatementData>)
        requires
            old(self).model.kinds_ok(),
        ensures
            final(self).source_file == old(self).source_file,
            *final(final(self).model) == *final(old(self).model),
            old(self).model.grows_to(*final(self).model),
            ptr_in(final(self).model.switch_body_statements, res),
            res.id + 1 == final(self).model.switch_body_statements.items@.len(),
            final(self).model.span_table.spec_get(res.spec_key()) == Some(
                spec_location(old(self).source_file, *range),
            ),
            final(self).model.stmt_valid(final(self).model.switch_body_statements.items@[res.id as int].stmt),
            stmt_lowered(
                *final(self).model,
                *src,
                final(self).model.switch_body_statements.items@[res.id as int].stmt,
            ),
        decreases src, 3nat,
    {
        let stmt = self.build_statement(src, range);
        let ghost m1 = *self.model;
        let data = SwitchBodyStatementData { stmt };
        let ptr = self.model.switch_body_statements.add(data);
        let loc = self.location(range);
        self.model.span_table.insert(ptr.key(), loc);
        proof {
            lemma_stmt_lowered_grows(m1, *self.model, *src, stmt);
        }
        ptr
    }

    pub fn build_switch_case(&mut self, src: &ast::Expression, range: &ParsedRange) -> (res: ItemPtr<SwitchCaseData>)
        requires
            old(self).model.kinds_ok(),
        ensures
            final(self).source_file == old(self).source_file,
            *final(final(self).model) == *final(old(self).model),
            old(self).model.grows_to(*final(self).model),
            ptr_in(final(self).model.switch_cases, res),
            res.id + 1 == final(self).model.switch_cases.items@.len(),
            final(self).model.span_table.spec_get(res.spec_key()) == Some(
                spec_location(old(self).source_file, *range),
            ),
            final(self).model.expr_valid(final(self).model.switch_cases.items@[res.id as int].exp),
            expr_lowered(
                *final(self).model,
                *src,
                final(self).model.switch_cases.items@[res.id as int].exp,
            ),
        decreases src, 3nat,
    {
        let exp = self.build_expression(src, range);
        let ghost m1 = *self.model;
        let data = SwitchCaseData { exp };
        let ptr = self.model.switch_cases.add(data);
        let loc = self.location(range);
        self.model.span_table.insert(ptr.key(), loc);
        proof {
            lemma_expr_lowered_grows(m1, *self.model, *src, exp);
        }
        ptr
    }

    pub fn build_switch_default(&mut self, range: &ParsedRange) -> (res: ItemPtr<SwitchDefaultData>)
        requires
            old(self).model.kinds_ok(),
        ensures
            final(self).source_file == old(self).source_file,
            *final(final(self).model) == *final(old(self).model),
            old(self).model.grows_to(*final(self).model),
            ptr_in(final(self).model.switch_defaults, res),
            res.id + 1 == final(self).model.switch_defaults.items@.len(),
            final(self).model.span_table.spec_get(res.spec_key()) == Some(
                spec_location(old(self).source_file, *range),
            ),
    {
        let data = SwitchDefaultData {  };
        let ptr = self.model.switch_defaults.add(data);
        let loc = self.location(range);
        self.model.span_table.insert(ptr.key(), loc);
        ptr
    }

    pub fn build_var_decl_statement(&mut self, src: &ast::VarDeclStatement, range: &ParsedRange) -> (res: ItemPtr<VarDeclStatementData>)
        requires
            old(self).model.kinds_ok(),
        ensures
            final(self).source_file == old(self).source_file,
            *final(final(self).model) == *final(old(self).model),
            old(self).model.grows_to(*final(self).model),
            ptr_in(final(self).model.var_decl_statements, res),
            res.id + 1 == final(self).model.var_decl_statements.items@.len(),
            final(self).model.span_table.spec_get(res.spec_key()) == Some(
                spec_location(old(self).source_file, *range),
            ),
            final(self).model.var_decl_statements.items@[res.id as int].let_or_const == spec_let_or_const(src.let_or_const.value),
            final(self).model.var_decl_statements.items@[res.id as int].name@ == src.name.value@,
            final(self).model.opt_expr_valid(final(self).model.var_decl_statements.items@[res.id as int].init),
            final(self).model.var_decl_statements.items@[res.id as int].init is Some == src.init is Some,
            stmt_lowered(
                *final(self).model,
                ast::Statement::VarDeclStatement(*src),
                StatementData::VarDeclStatement(res),
            ),
        decreases src, 2nat,
    {
        let let_or_const = self.build_let_or_const(&src.let_or_const.value);
        let name = src.name.value.clone();
        let init = match &src.init {
            Some(v) => Some(self.build_expression(&v.value, &v.range)),
            None => None,
        };
        let ghost m1 = *self.model;
        let data = VarDeclStatementData { let_or_const, name, init };
        let ptr = self.model.var_decl_statements.add(data);
        let loc = self.location(range);
        self.model.span_table.insert(ptr.key(), loc);
        proof {
            lemma_opt_expr_lowered_grows(m1, *self.model, src.init, init);
        }
        ptr
    }

    pub fn build_let_or_const(&mut self, src: &ast::LetOrConst) -> (res: LetOrConst)
        requires
            old(self).model.kinds_ok(),
        ensures
            *final(self) == *old(self),
            res == spec_let_or_const(*src),
    {
        match src {
            ast::LetOrConst::Let => LetOrConst::Let,
            ast::LetOrConst::Const => LetOrConst::Const,
        }
    }

    pub fn build_function_decl_statement(&mut self, src: &ast::FunctionDeclStatement, range: &ParsedRange) -> (res: ItemPtr<FunctionDeclStatementData>)
        requires
            old(self).model.kinds_ok(),
        ensures
            final(self).source_file == old(self).source_file,
            *final(final(self).model) == *final(old(self).model),
            old(self).model.grows_to(*final(self).model),
            ptr_in(final(self).model.function_decl_statements, res),
            res.id + 1 == final(self).model.function_decl_statements.items@.len(),
            final(self).model.span_table.spec_get(res.spec_key()) == Some(
                spec_location(old(self).source_file, *range),
            ),
            final(self).model.function_decl_statements.items@[res.id as int].name@ == src.name.value@,
            ptr_in(final(self).model.function_signatures, final(self).model.function_decl_statements.items@[res.id as int].signature),
            final(self).model.function_signatures.items@[final(self).model.function_decl_statements.items@[res.id as int].signature.id as int].args@.len() == src.args.value@.len(),
            final(self).model.stmt_valid(final(self).model.function_decl_statements.items@[res.id as int].body),
            stmt_lowered(
                *final(self).model,
                ast::Statement::FunctionDeclStatement(*src),
                StatementData::FunctionDeclStatement(res),
            ),
            stmt_children_spans(
                *final(self).model,
                old(self).source_file,
                ast::Statement::FunctionDeclStatement(*src),
                StatementData::FunctionDeclStatement(res),
            ),
        decreases src, 2nat,
    {
        let name = src.name.value.clone();
        let signature = self.build_function_signature(&src.args.value, &src.args.range);
        let ghost m1 = *self.model;
        let body = self.build_statement(&src.body.value, &src.body.range);
        let ghost m2 = *self.model;
        let data = FunctionDeclStatementData { name, signature, body };
        let ptr = self.model.function_decl_statements.add(data);
        let loc = self.location(range);
        self.model.span_table.insert(ptr.key(), loc);
        proof {
            lemma_grows_trans(m1, m2, *self.model);
            lemma_signature_lowered_grows(m1, *self.model, src.args.value@, signature);
            lemma_stmt_lowered_grows(m2, *self.model, src.body.value, body);
            lemma_stmt_spans_grow(m2, *self.model, self.source_file, src.body.value, src.body.range, body);
        }
        ptr
    }

    #[verifier::loop_isolation(false)]
    pub fn build_function_signature(&mut self, src: &Vec<Parsed<ast::FunctionDeclArg>>, range: &ParsedRange) -> (res: ItemPtr<FunctionSignatureData>)
        requires
            old(self).model.kinds_ok(),
        ensures
            final(self).source_file == old(self).source_file,
            *final(final(self).model) == *final(old(self).model),
            old(self).model.grows_to(*final(self).model),
            ptr_in(final(self).model.function_signatures, res),
            res.id + 1 == final(self).model.function_signatures.items@.len(),
            final(self).model.span_table.spec_get(res.spec_key()) == Some(
                spec_location(old(self).source_file, *range),
            ),
            final(self).model.function_signatures.items@[res.id as int].args@.len() == src@.len(),
            forall|i: int| 0 <= i < final(self).model.function_signatures.items@[res.id as int].args@.len() ==> ptr_in(final(self).model.function_decl_args, #[trigger] final(self).model.function_signatures.items@[res.id as int].args@[i]),
            forall|i: int| 0 <= i < final(self).model.function_signatures.items@[res.id as int].args@.len() ==> final(self).model.function_decl_args.items@[final(self).model.function_signatures.items@[res.id as int].args@[i].id as int].name@ == #[trigger] src@[i].value.name.value@,
            signature_lowered(*final(self).model, src@, res),
    {
        let mut args: Vec<ItemPtr<FunctionDeclArgData>> = Vec::new();
        let mut i: usize = 0;
        while i < src.len()
            invariant
                self.source_file == old(self).source_file,
                *final(self.model) == *final(old(self).model),
                old(self).model.grows_to(*self.model),
                self.model.kinds_ok(),
                args@.len() == i,
                i <= src@.len(),
                forall|j: int| 0 <= j < args@.len() ==> ptr_in(self.model.function_decl_args, #[trigger] args@[j]),
                forall|j: int| 0 <= j < args@.len() ==> self.model.function_decl_args.items@[args@[j].id as int].name@ == #[trigger] src@[j].value.name.value@,
            decreases src@.len() - i,
        {
            let v = &src[i];
            let a = self.build_function_decl_arg(&v.value, &v.range);
            args.push(a);
            i = i + 1;
        }
        let data = FunctionSignatureData { args };
        let ptr = self.model.function_signatures.add(data);
        let loc = self.location(range);
        self.model.span_table.insert(ptr.key(), loc);
        ptr
    }

    pub fn build_function_decl_arg(&mut self, src: &ast::FunctionDeclArg, range: &ParsedRange) -> (res: ItemPtr<FunctionDeclArgData>)
        requires
            old(self).model.kinds_ok(),
        ensures
            final(self).source_file == old(self).source_file,
            *final(final(self).model) == *final(old(self).model),
            old(self).model.grows_to(*final(self).model),
            ptr_in(final(self).model.function_decl_args, res),
            res.id + 1 == final(self).model.function_decl_args.items@.len(),
            final(self).model.span_table.spec_get(res.spec_key()) == Some(
                spec_location(old(self).source_file, *range),
            ),
            final(self).model.function_decl_args.items@[res.id as int].name@ == src.name.value@,
    {
        let data = FunctionDeclArgData { name: src.name.value.clone() };
        let ptr = self.model.function_decl_args.add(data);
        let loc = self.location(range);
        self.model.span_table.insert(ptr.key(), loc);
        ptr
    }

    pub fn build_labeled_statement(&mut self, src: &ast::LabeledStatement, range: &ParsedRange) -> (res: ItemPtr<LabeledStatementData>)
        requires
            old(self).model.kinds_ok(),
        ensures
            final(self).source_file == old(self).source_file,
            *final(final(self).model) == *final(old(self).model),
            old(self).model.grows_to(*final(self).model),
            ptr_in(final(self).model.labeled_statements, res),
            res.id + 1 == final(self).model.labeled_statements.items@.len(),
            final(self).model.span_table.spec_get(res.spec_key()) == Some(
                spec_location(old(self).source_file, *range),
            ),
            final(self).model.labeled_statements.items@[res.id as int].name@ == src.name.value@,
            final(self).model.stmt_valid(final(self).model.labeled_statements.items@[res.id as int].stmt),
            stmt_lowered(
                *final(self).model,
                ast::Statement::LabeledStatement(*src),
                StatementData::LabeledStatement(res),
            ),
        decreases src, 2nat,
    {
        let name = src.name.value.clone();
        let stmt = self.build_statement(&src.stmt.value, &src.stmt.range);
        let ghost m1 = *self.model;
        let data = LabeledStatementData { name, stmt };
        let ptr = self.model.labeled_statements.add(data);
        let loc = self.location(range);
        self.model.span_table.insert(ptr.key(), loc);
        proof {
            lemma_stmt_lowered_grows(m1, *self.model, src.stmt.value, stmt);
        }
        ptr
    }

    #[verifier::rlimit(100)]
    #[verifier::spinoff_prover]
    pub fn build_try_statement(&mut self, src: &ast::TryStatement, range: &ParsedRange) -> (res: ItemPtr<TryStatementData>)
        requires
            old(self).model.kinds_ok(),
        ensures
            final(self).source_file == old(self).source_file,
            *final(final(self).model) == *final(old(self).model),
            old(self).model.grows_to(*final(self).model),
            ptr_in(final(self).model.try_statements, res),
            res.id + 1 == final(self).model.try_statements.items@.len(),
            final(self).model.span_table.spec_get(res.spec_key()) == Some(
                spec_location(old(self).source_file, *range),
            ),
            final(self).model.stmt_valid(final(self).model.try_statements.items@[res.id as int].stmt),
            final(self).model.opt_stmt_valid(final(self).model.try_statements.items@[res.id as int].finally_clause),
            final(self).model.try_statements.items@[res.id as int].catch_clause is Some == src.catch_clause is Some,
            final(self).model.try_statements.items@[res.id as int].finally_clause is Some == src.finally_clause is Some,
            stmt_lowered(
                *final(self).model,
                ast::Statement::TryStatement(*src),
                StatementData::TryStatement(res),
            ),
        decreases src, 2nat,
    {
        let stmt = self.build_statement(&src.stmt.value, &src.stmt.range);
        let ghost m1 = *self.model;
        let catch_clause = match &src.catch_clause {
            Some(v) => Some(self.build_catch_clause(&v.value, &v.range)),
            None => None,
        };
        let ghost m2 = *self.model;
        let finally_clause = match &src.finally_clause {
            Some(v) => Some(self.build_statement(&v.value, &v.range)),
            None => None,
        };
        let ghost m3 = *self.model;
        proof {
            lemma_valid_grows(m1, *self.model);
            lemma_valid_grows(m2, *self.model);
            if src.catch_clause is None {
                lemma_grows_refl(m1);
            }
            if src.finally_clause is None {
                lemma_grows_refl(m2);
            }
        }
        let data = TryStatementData { stmt, catch_clause, finally_clause };
        let ptr = self.model.try_statements.add(data);
        let loc = self.location(range);
        self.model.span_table.insert(ptr.key(), loc);
        proof {
            assert(m3.grows_to(*self.model));
            lemma_grows_trans(m2, m3, *self.model);
            lemma_grows_trans(m1, m2, *self.model);
            lemma_stmt_lowered_grows(m1, *self.model, src.stmt.value, stmt);
            if src.catch_clause is Some {
                lemma_catch_lowered_grows(m2, *self.model, src.catch_clause->0.value, catch_clause->0);
            }
            if src.finally_clause is Some {
                lemma_stmt_lowered_grows(
                    m3,
                    *self.model,
                    src.finally_clause->0.value,
                    finally_clause->0,
                );
            }
        }
        ptr
    }

    pub fn build_catch_clause(&mut self, src: &ast::CatchClause, range: &ParsedRange) -> (res: ItemPtr<CatchClauseData>)
        requires
            old(self).model.kinds_ok(),
        ensures
            final(self).source_file == old(self).source_file,
            *final(final(self).model) == *final(old(self).model),
            old(self).model.grows_to(*final(self).model),
            ptr_in(final(self).model.catch_clauses, res),
            res.id + 1 == final(self).model.catch_clauses.items@.len(),
            final(self).model.span_table.spec_get(res.spec_key()) == Some(
                spec_location(old(self).source_file, *range),
            ),
            opt_string_view(final(self).model.catch_clauses.items@[res.id as int].name) == spec_label(src.name),
            final(self).model.stmt_valid(final(self).model.catch_clauses.items@[res.id as int].stmt),
            catch_lowered(*final(self).model, *src, res),
        decreases src, 2nat,
    {
        let name = match &src.name {
            Some(v) => Some(v.value.clone()),
            None => None,
        };
        let stmt = self.build_statement(&src.stmt.value, &src.stmt.range);
        let ghost m1 = *self.model;
        let data = CatchClauseData { name, stmt };
        let ptr = self.model.catch_clauses.add(data);
        let loc = self.location(range);
        self.model.span_table.insert(ptr.key(), loc);
        proof {
            lemma_stmt_lowered_grows(m1, *self.model, src.stmt.value, stmt);
        }
        ptr
    }

    pub fn build_expression(&mut self, src: &ast::Expression, range: &ParsedRange) -> (res:
        ExpressionData)
        requires
            old(self).model.kinds_ok(),
        ensures
            final(self).source_file == old(self).source_file,
            *final(final(self).model) == *final(old(self).model),
            old(self).model.grows_to(*final(self).model),
            final(self).model.expr_valid(res),
            same_expression_kind(*src, res),
            expr_lowered(*final(self).model, *src, res),
        decreases src, 4nat,
    {
        match src {
            ast::Expression::CommaExpression(a) => ExpressionData::CommaExpression(
                self.build_comma_expression(a, range),
            ),
            ast::Expression::TernaryExpression(a) => {
                if a.terms.len() == 0 {
                    self.build_expression(&a.if_false.value, &a.if_false.range)
                } else {
                    ExpressionData::TernaryExpression(self.build_ternary_expression(a, range))
                }
            },
            ast::Expression::BinaryExpression(a) => {
                if a.rest.len() == 0 {
                    self.build_expression(&a.first.value, &a.first.range)
                } else {
                    ExpressionData::BinaryExpression(self.build_binary_expression(a, range))
                }
            },
            ast::Expression::UnaryExpression(a) => {
                if a.ops.len() == 0 {
                    self.build_expression(&a.exp.value, &a.exp.range)
                } else {
                    ExpressionData::UnaryExpression(self.build_unary_expression(a, range))
                }
            },
            ast::Expression::BooleanLiteral(a) => ExpressionData::BooleanLiteral(
                self.build_boolean_literal(a, range),
            ),
            ast::Expression::NullLiteral => ExpressionData::NullLiteral(
                self.build_null_literal(range),
            ),
            ast::Expression::StringLiteral(a) => ExpressionData::StringLiteral(
                self.build_string_literal(a, range),
            ),
            ast::Expression::IntLiteral(a) => ExpressionData::IntLiteral(
                self.build_int_literal(a, range),
            ),
            ast::Expression::MemberExpression(a) => {
                if a.rest.len() == 0 {
                    self.build_expression(&a.first.value, &a.first.range)
                } else {
                    self.build_member_expression(a, range)
                }
            },
            ast::Expression::IdentifierExpression(a) => ExpressionData::IdentifierExpression(
                self.build_identifier_expression(a, range),
            ),
        }
    }

    #[verifier::loop_isolation(false)]
    pub fn build_comma_expression(&mut self, src: &ast::CommaExpression, range: &ParsedRange) -> (res: ItemPtr<CommaExpressionData>)
        requires
            old(self).model.kinds_ok(),
        ensures
            final(self).source_file == old(self).source_file,
            *final(final(self).model) == *final(old(self).model),
            old(self).model.grows_to(*final(self).model),
            ptr_in(final(self).model.comma_expressions, res),
            res.id + 1 == final(self).model.comma_expressions.items@.len(),
            final(self).model.span_table.spec_get(res.spec_key()) == Some(
                spec_location(old(self).source_file, *range),
            ),
            final(self).model.comma_expressions.items@[res.id as int].exps@.len() == src.exps@.len(),
            forall|i: int| 0 <= i < final(self).model.comma_expressions.items@[res.id as int].exps@.len() ==> final(self).model.expr_valid(#[trigger] final(self).model.comma_expressions.items@[res.id as int].exps@[i]),
            expr_lowered(
                *final(self).model,
                ast::Expression::CommaExpression(*src),
                ExpressionData::CommaExpression(res),
            ),
        decreases src, 2nat,
    {
        let mut exps: Vec<ExpressionData> = Vec::new();
        let mut i: usize = 0;
        while i < src.exps.len()
            invariant
                self.source_file == old(self).source_file,
                *final(self.model) == *final(old(self).model),
                old(self).model.grows_to(*self.model),
                self.model.kinds_ok(),
                exps@.len() == i,
                i <= src.exps@.len(),
                forall|j: int| 0 <= j < exps@.len() ==> self.model.expr_valid(#[trigger] exps@[j]),
                forall|j: int|
                    0 <= j < exps@.len() ==> expr_lowered(
                        *self.model,
                        src.exps@[j].value,
                        #[trigger] exps@[j],
                    ),
            decreases src.exps@.len() - i,
        {
            let ghost before = *self.model;
            let v = &src.exps[i];
            let e = self.build_expression(&v.value, &v.range);
            proof {
                lemma_valid_grows(before, *self.model);
                lemma_exprs_lowered_grow(before, *self.model, src.exps@, exps@, exps@.len() as int);
            }
            exps.push(e);
            i = i + 1;
        }
        let ghost m1 = *self.model;
        let data = CommaExpressionData { exps };
        let ptr = self.model.comma_expressions.add(data);
        let loc = self.location(range);
        self.model.span_table.insert(ptr.key(), loc);
        proof {
            lemma_exprs_lowered_grow(m1, *self.model, src.exps@, data.exps@, data.exps@.len() as int);
        }
        ptr
    }

    /// A ternary expression with at least one term: `t0 ? a0 : t1 ? a1 : ... : if_false`,
    /// nested to the right.
    pub fn build_ternary_expression(&mut self, src: &ast::TernaryExpression, _range: &ParsedRange) -> (res:
        ItemPtr<TernaryExpressionData>)
        requires
            old(self).model.kinds_ok(),
            src.terms@.len() > 0,
        ensures
            final(self).source_file == old(self).source_file,
            *final(final(self).model) == *final(old(self).model),
            old(self).model.grows_to(*final(self).model),
            ptr_in(final(self).model.ternary_expressions, res),
            res.id + 1 == final(self).model.ternary_expressions.items@.len(),
            ternary_lowered(*final(self).model, *src, 0, ExpressionData::TernaryExpression(res)),
        decreases src, 3nat,
    {
        let if_false = self.build_expression(&src.if_false.value, &src.if_false.range);
        let ghost m1 = *self.model;
        let res = self.build_one_ternary_expression(&src.terms, 0, &if_false);
        proof {
            lemma_expr_lowered_grows(m1, *self.model, src.if_false.value, if_false);
            lemma_ternary_chain_lowered(
                *self.model,
                *src,
                0,
                if_false,
                ExpressionData::TernaryExpression(res),
            );
        }
        res
    }

    /// The ternary expression of the terms from `ix` on, ending in `if_false`.
    #[verifier::rlimit(100)]
    #[verifier::spinoff_prover]
    pub fn build_one_ternary_expression(
        &mut self,
        terms: &Vec<Parsed<ast::TernaryExpressionTerm>>,
        ix: usize,
        if_false: &ExpressionData,
    ) -> (res: ItemPtr<TernaryExpressionData>)
        requires
            old(self).model.kinds_ok(),
            ix < terms@.len(),
            old(self).model.expr_valid(*if_false),
        ensures
            final(self).source_file == old(self).source_file,
            *final(final(self).model) == *final(old(self).model),
            old(self).model.grows_to(*final(self).model),
            ptr_in(final(self).model.ternary_expressions, res),
            res.id + 1 == final(self).model.ternary_expressions.items@.len(),
            final(self).model.span_table.spec_get(res.spec_key()) == Some(
                spec_location(old(self).source_file, terms@[ix as int].value.test.range),
            ),
            final(self).model.expr_valid(final(self).model.ternary_expressions.items@[res.id as int].test),
            final(self).model.expr_valid(final(self).model.ternary_expressions.items@[res.id as int].if_true),
            final(self).model.expr_valid(final(self).model.ternary_expressions.items@[res.id as int].if_false),
            ix == terms@.len() - 1 ==> final(self).model.ternary_expressions.items@[res.id as int].if_false == *if_false,
            ix < terms@.len() - 1 ==> final(self).model.ternary_expressions.items@[res.id as int].if_false is TernaryExpression,
            ternary_chain(
                *final(self).model,
                terms@,
                ix as int,
                *if_false,
                ExpressionData::TernaryExpression(res),
            ),
        decreases terms, terms@.len() - ix,
    {
        let term = &terms[ix].value;
        let test = self.build_expression(&term.test.value, &term.test.range);
        let ghost m1 = *self.model;
        let if_true = self.build_expression(&term.if_true.value, &term.if_true.range);
        let ghost m2 = *self.model;
        proof {
            lemma_valid_grows(*old(self).model, m2);
        }
        let data = if ix == terms.len() - 1 {
            TernaryExpressionData { test, if_true, if_false: *if_false }
        } else {
            let e = self.build_one_ternary_expression(terms, ix + 1, if_false);
            TernaryExpressionData { test, if_true, if_false: ExpressionData::TernaryExpression(e) }
        };
        let ghost m3 = *self.model;
        proof {
            lemma_valid_grows(m1, *self.model);
            lemma_valid_grows(m2, *self.model);
            lemma_valid_grows(*old(self).model, *self.model);
            if ix == terms.len() - 1 {
                lemma_grows_refl(m2);
            }
        }
        let ptr = self.model.ternary_expressions.add(data);
        let loc = self.location(&term.test.range);
        self.model.span_table.insert(ptr.key(), loc);
        proof {
            lemma_grows_trans(m2, m3, *self.model);
            lemma_grows_trans(m1, m2, *self.model);
            lemma_expr_lowered_grows(m1, *self.model, term.test.value, test);
            lemma_expr_lowered_grows(m2, *self.model, term.if_true.value, if_true);
            if ix < terms.len() - 1 {
                lemma_ternary_chain_grows(m3, *self.model, terms@, ix + 1, *if_false, data.if_false);
            }
        }
        ptr
    }

    /// A binary expression with at least one operator, folded to the left.
    pub fn build_binary_expression(&mut self, src: &ast::BinaryExpression, _range: &ParsedRange) -> (res:
        ItemPtr<BinaryExpressionData>)
        requires
            old(self).model.kinds_ok(),
            src.rest@.len() > 0,
        ensures
            final(self).source_file == old(self).source_file,
            *final(final(self).model) == *final(old(self).model),
            old(self).model.grows_to(*final(self).model),
            ptr_in(final(self).model.binary_expressions, res),
            res.id + 1 == final(self).model.binary_expressions.items@.len(),
            final(self).model.binary_expressions.items@[res.id as int].op == spec_binary_op(
                src.rest@.last().value.op.value,
            ),
            binary_lowered(
                *final(self).model,
                *src,
                src.rest@.len() - 1,
                ExpressionData::BinaryExpression(res),
            ),
        decreases src, 3nat,
    {
        let first = self.build_expression(&src.first.value, &src.first.range);
        let ghost m1 = *self.model;
        let res = self.build_one_binary_expression(&src.rest, src.rest.len() - 1, &first);
        proof {
            lemma_expr_lowered_grows(m1, *self.model, src.first.value, first);
            lemma_binary_chain_lowered(
                *self.model,
                *src,
                src.rest@.len() - 1,
                first,
                ExpressionData::BinaryExpression(res),
            );
        }
        res
    }

    /// The binary expression of `first` and the terms up to `ix`.
    fn build_one_binary_expression(
        &mut self,
        terms: &Vec<Parsed<ast::BinaryExpressionTerm>>,
        ix: usize,
        first: &ExpressionData,
    ) -> (res: ItemPtr<BinaryExpressionData>)
        requires
            old(self).model.kinds_ok(),
            ix < terms@.len(),
            old(self).model.expr_valid(*first),
        ensures
            final(self).source_file == old(self).source_file,
            *final(final(self).model) == *final(old(self).model),
            old(self).model.grows_to(*final(self).model),
            ptr_in(final(self).model.binary_expressions, res),
            res.id + 1 == final(self).model.binary_expressions.items@.len(),
            final(self).model.span_table.spec_get(res.spec_key()) == Some(
                spec_location(old(self).source_file, terms@[ix as int].value.op.range),
            ),
            final(self).model.binary_expressions.items@[res.id as int].op == spec_binary_op(
                terms@[ix as int].value.op.value,
            ),
            final(self).model.expr_valid(final(self).model.binary_expressions.items@[res.id as int].left),
            final(self).model.expr_valid(final(self).model.binary_expressions.items@[res.id as int].right),
            ix == 0 ==> final(self).model.binary_expressions.items@[res.id as int].left == *first,
            ix > 0 ==> final(self).model.binary_expressions.items@[res.id as int].left is BinaryExpression,
            binary_chain(
                *final(self).model,
                terms@,
                ix as int,
                *first,
                ExpressionData::BinaryExpression(res),
            ),
        decreases terms, ix,
    {
        let term = &terms[ix].value;
        let op = &term.op;
        let model_op = self.build_binary_op(&op.value);
        let right = self.build_expression(&term.exp.value, &term.exp.range);
        let ghost m1 = *self.model;
        proof {
            lemma_valid_grows(*old(self).model, m1);
        }
        let data = if ix == 0 {
            BinaryExpressionData { left: *first, op: model_op, right }
        } else {
            let e = self.build_one_binary_expression(terms, ix - 1, first);
            BinaryExpressionData { left: ExpressionData::BinaryExpression(e), op: model_op, right }
        };
        let ghost m2 = *self.model;
        proof {
            lemma_valid_grows(m1, *self.model);
            if ix == 0 {
                lemma_grows_refl(m1);
            }
        }
        let ptr = self.model.binary_expressions.add(data);
        let loc = self.location(&op.range);
        self.model.span_table.insert(ptr.key(), loc);
        proof {
            lemma_grows_trans(m1, m2, *self.model);
            lemma_expr_lowered_grows(m1, *self.model, term.exp.value, right);
            if ix > 0 {
                lemma_binary_chain_grows(m2, *self.model, terms@, ix - 1, *first, data.left);
            }
        }
        ptr
    }

    pub fn build_binary_op(&mut self, src: &ast::BinaryOp) -> (res: BinaryOp)
        ensures
            *final(self) == *old(self),
            res == spec_binary_op(*src),
    {
        match src {
            ast::BinaryOp::Plus => BinaryOp::Plus,
            ast::BinaryOp::Minus => BinaryOp::Minus,
            ast::BinaryOp::Times => BinaryOp::Times,
            ast::BinaryOp::Divide => BinaryOp::Divide,
            ast::BinaryOp::Mod => BinaryOp::Mod,
            ast::BinaryOp::ShiftLeft => BinaryOp::ShiftLeft,
            ast::BinaryOp::LogicalShiftRight => BinaryOp::LogicalShiftRight,
            ast::BinaryOp::ArithmeticShiftRight => BinaryOp::ArithmeticShiftRight,
            ast::BinaryOp::LessThan => BinaryOp::LessThan,
            ast::BinaryOp::LessThanOrEquals => BinaryOp::LessThanOrEquals,
            ast::BinaryOp::GreaterThan => BinaryOp::GreaterThan,
            ast::BinaryOp::GreaterThanOrEquals => BinaryOp::GreaterThanOrEquals,
            ast::BinaryOp::Equals => BinaryOp::Equals,
            ast::BinaryOp::NotEquals => BinaryOp::NotEquals,
            ast::BinaryOp::BitwiseAnd => BinaryOp::BitwiseAnd,
            ast::BinaryOp::BitwiseXor => BinaryOp::BitwiseXor,
            ast::BinaryOp::BitwiseOr => BinaryOp::BitwiseOr,
            ast::BinaryOp::LogicalAnd => BinaryOp::LogicalAnd,
            ast::BinaryOp::LogicalOr => BinaryOp::LogicalOr,
            ast::BinaryOp::Assign => BinaryOp::Assign,
            ast::BinaryOp::PlusAssign => BinaryOp::PlusAssign,
            ast::BinaryOp::MinusAssign => BinaryOp::MinusAssign,
            ast::BinaryOp::TimesAssign => BinaryOp::TimesAssign,
            ast::BinaryOp::DivideAssign => BinaryOp::DivideAssign,
            ast::BinaryOp::ModAssign => BinaryOp::ModAssign,
            ast::BinaryOp::ShiftLeftAssign => BinaryOp::ShiftLeftAssign,
            ast::BinaryOp::LogicalShiftRightAssign => BinaryOp::LogicalShiftRightAssign,
            ast::BinaryOp::ArithmeticShiftRightAssign => BinaryOp::ArithmeticShiftRightAssign,
            ast::BinaryOp::BitwiseAndAssign => BinaryOp::BitwiseAndAssign,
            ast::BinaryOp::BitwiseXorAssign => BinaryOp::BitwiseXorAssign,
            ast::BinaryOp::BitwiseOrAssign => BinaryOp::BitwiseOrAssign,
            ast::BinaryOp::LogicalAndAssign => BinaryOp::LogicalAndAssign,
            ast::BinaryOp::LogicalOrAssign => BinaryOp::LogicalOrAssign,
        }
    }

    /// A unary expression with at least one operator: `op0 op1 ... exp`, nested to the right.
    pub fn build_unary_expression(&mut self, src: &ast::UnaryExpression, _range: &ParsedRange) -> (res:
        ItemPtr<UnaryExpressionData>)
        requires
            old(self).model.kinds_ok(),
            src.ops@.len() > 0,
        ensures
            final(self).source_file == old(self).source_file,
            *final(final(self).model) == *final(old(self).model),
            old(self).model.grows_to(*final(self).model),
            ptr_in(final(self).model.unary_expressions, res),
            res.id + 1 == final(self).model.unary_expressions.items@.len(),
            final(self).model.unary_expressions.items@[res.id as int].op == spec_unary_op(
                src.ops@[0].value,
            ),
            unary_lowered(*final(self).model, *src, 0, ExpressionData::UnaryExpression(res)),
        decreases src, 3nat,
    {
        let exp = self.build_expression(&src.exp.value, &src.exp.range);
        let ghost m1 = *self.model;
        let res = self.build_one_unary_expression(&src.ops, 0, &exp);
        proof {
            lemma_expr_lowered_grows(m1, *self.model, src.exp.value, exp);
            lemma_unary_chain_lowered(*self.model, *src, 0, exp, ExpressionData::UnaryExpression(res));
        }
        res
    }

    /// The unary expression of the operators from `ix` on, applied to `exp`.
    fn build_one_unary_expression(
        &mut self,
        ops: &Vec<Parsed<ast::UnaryOp>>,
        ix: usize,
        exp: &ExpressionData,
    ) -> (res: ItemPtr<UnaryExpressionData>)
        requires
            old(self).model.kinds_ok(),
            ix < ops@.len(),
            old(self).model.expr_valid(*exp),
        ensures
            final(self).source_file == old(self).source_file,
            *final(final(self).model) == *final(old(self).model),
            old(self).model.grows_to(*final(self).model),
            ptr_in(final(self).model.unary_expressions, res),
            res.id + 1 == final(self).model.unary_expressions.items@.len(),
            final(self).model.span_table.spec_get(res.spec_key()) == Some(
                spec_location(old(self).source_file, ops@[ix as int].range),
            ),
            final(self).model.unary_expressions.items@[res.id as int].op == spec_unary_op(
                ops@[ix as int].value,
            ),
            final(self).model.expr_valid(final(self).model.unary_expressions.items@[res.id as int].exp),
            ix == ops@.len() - 1 ==> final(self).model.unary_expressions.items@[res.id as int].exp == *exp,
            ix < ops@.len() - 1 ==> final(self).model.unary_expressions.items@[res.id as int].exp is UnaryExpression,
            final(self).model.unary_expressions.items@.len() == old(self).model.unary_expressions.items@.len()
                + (ops@.len() - ix),
            unary_chain(
                *final(self).model,
                ops@,
                ix as int,
                *exp,
                ExpressionData::UnaryExpression(res),
            ),
        decreases ops@.len() - ix,
    {
        let op = &ops[ix];
        let model_op = self.build_unary_op(&op.value);
        let data = if ix == ops.len() - 1 {
            UnaryExpressionData { op: model_op, exp: *exp }
        } else {
            let e = self.build_one_unary_expression(ops, ix + 1, exp);
            UnaryExpressionData { op: model_op, exp: ExpressionData::UnaryExpression(e) }
        };
        let ghost m2 = *self.model;
        proof {
            lemma_valid_grows(*old(self).model, *self.model);
        }
        let ptr = self.model.unary_expressions.add(data);
        let loc = self.location(&op.range);
        self.model.span_table.insert(ptr.key(), loc);
        proof {
            if ix < ops.len() - 1 {
                lemma_unary_chain_grows(m2, *self.model, ops@, ix + 1, *exp, data.exp);
            }
        }
        ptr
    }

    pub fn build_unary_op(&mut self, src: &ast::UnaryOp) -> (res: UnaryOp)
        ensures
            *final(self) == *old(self),
            res == spec_unary_op(*src),
    {
        match src {
            ast::UnaryOp::Plus => UnaryOp::Plus,
            ast::UnaryOp::Minus => UnaryOp::Minus,
            ast::UnaryOp::LogicalNot => UnaryOp::LogicalNot,
            ast::UnaryOp::BitwiseNot => UnaryOp::BitwiseNot,
        }
    }

    pub fn build_boolean_literal(&mut self, src: &bool, range: &ParsedRange) -> (res: ItemPtr<BooleanLiteralData>)
        requires
            old(self).model.kinds_ok(),
        ensures
            final(self).source_file == old(self).source_file,
            *final(final(self).model) == *final(old(self).model),
            old(self).model.grows_to(*final(self).model),
            ptr_in(final(self).model.boolean_literals, res),
            res.id + 1 == final(self).model.boolean_literals.items@.len(),
            final(self).model.span_table.spec_get(res.spec_key()) == Some(
                spec_location(old(self).source_file, *range),
            ),
            final(self).model.boolean_literals.items@[res.id as int].value == *src,
    {
        let data = BooleanLiteralData { value: *src };
        let ptr = self.model.boolean_literals.add(data);
        let loc = self.location(range);
        self.model.span_table.insert(ptr.key(), loc);
        ptr
    }

    pub fn build_null_literal(&mut self, range: &ParsedRange) -> (res: ItemPtr<NullLiteralData>)
        requires
            old(self).model.kinds_ok(),
        ensures
            final(self).source_file == old(self).source_file,
            *final(final(self).model) == *final(old(self).model),
            old(self).model.grows_to(*final(self).model),
            ptr_in(final(self).model.null_literals, res),
            res.id + 1 == final(self).model.null_literals.items@.len(),
            final(self).model.span_table.spec_get(res.spec_key()) == Some(
                spec_location(old(self).source_file, *range),
            ),
    {
        let data = NullLiteralData {  };
        let ptr = self.model.null_literals.add(data);
        let loc = self.location(range);
        self.model.span_table.insert(ptr.key(), loc);
        ptr
    }

    pub fn build_string_literal(&mut self, src: &String, range: &ParsedRange) -> (res: ItemPtr<StringLiteralData>)
        requires
            old(self).model.kinds_ok(),
        ensures
            final(self).source_file == old(self).source_file,
            *final(final(self).model) == *final(old(self).model),
            old(self).model.grows_to(*final(self).model),
            ptr_in(final(self).model.string_literals, res),
            res.id + 1 == final(self).model.string_literals.items@.len(),
            final(self).model.span_table.spec_get(res.spec_key()) == Some(
                spec_location(old(self).source_file, *range),
            ),
            final(self).model.string_literals.items@[res.id as int].value@ == src@,
    {
        let data = StringLiteralData { value: src.clone() };
        let ptr = self.model.string_literals.add(data);
        let loc = self.location(range);
        self.model.span_table.insert(ptr.key(), loc);
        ptr
    }

    pub fn build_int_literal(&mut self, src: &ast::IntLiteral, range: &ParsedRange) -> (res: ItemPtr<IntLiteralData>)
        requires
            old(self).model.kinds_ok(),
        ensures
            final(self).source_file == old(self).source_file,
            *final(final(self).model) == *final(old(self).model),
            old(self).model.grows_to(*final(self).model),
            ptr_in(final(self).model.int_literals, res),
            res.id + 1 == final(self).model.int_literals.items@.len(),
            final(self).model.span_table.spec_get(res.spec_key()) == Some(
                spec_location(old(self).source_file, *range),
            ),
            final(self).model.int_literals.items@[res.id as int].value == src.value,
            final(self).model.int_literals.items@[res.id as int].suffix == match src.suffix {
                Some(s) => Some(spec_int_literal_suffix(s.value)),
                None => None,
            },
    {
        let suffix = match &src.suffix {
            Some(v) => Some(self.build_int_literal_suffix(&v.value)),
            None => None,
        };
        let data = IntLiteralData { value: src.value, suffix };
        let ptr = self.model.int_literals.add(data);
        let loc = self.location(range);
        self.model.span_table.insert(ptr.key(), loc);
        ptr
    }

    pub fn build_int_literal_suffix(&mut self, src: &ast::IntLiteralSuffix) -> (res: IntLiteralSuffix)
        requires
            old(self).model.kinds_ok(),
        ensures
            *final(self) == *old(self),
            res == spec_int_literal_suffix(*src),
    {
        match src {
            ast::IntLiteralSuffix::U8 => IntLiteralSuffix::U8,
            ast::IntLiteralSuffix::U16 => IntLiteralSuffix::U16,
            ast::IntLiteralSuffix::U32 => IntLiteralSuffix::U32,
            ast::IntLiteralSuffix::U64 => IntLiteralSuffix::U64,
            ast::IntLiteralSuffix::I8 => IntLiteralSuffix::I8,
            ast::IntLiteralSuffix::I16 => IntLiteralSuffix::I16,
            ast::IntLiteralSuffix::I32 => IntLiteralSuffix::I32,
            ast::IntLiteralSuffix::I64 => IntLiteralSuffix::I64,
        }
    }

    /// A member expression with at least one operation: the operations applied in order to
    /// the first expression, each to the result of the ones before.
    pub fn build_member_expression(&mut self, src: &ast::MemberExpression, _range: &ParsedRange) -> (res:
        ExpressionData)
        requires
            old(self).model.kinds_ok(),
            src.rest@.len() > 0,
        ensures
            final(self).source_file == old(self).source_file,
            *final(final(self).model) == *final(old(self).model),
            old(self).model.grows_to(*final(self).model),
            final(self).model.expr_valid(res),
            match src.rest@.last().value {
                ast::MemberOp::DotAccess(_) => res is DotAccessExpression,
                ast::MemberOp::FunctionCall(_) => res is FunctionCallExpression,
                ast::MemberOp::IndexAccess(_) => res is IndexAccessExpression,
                ast::MemberOp::NonNullAssert => res is NonNullAssertExpression,
            },
            member_lowered(*final(self).model, *src, src.rest@.len() - 1, res),
        decreases src, 3nat,
    {
        let first = self.build_expression(&src.first.value, &src.first.range);
        let ghost m1 = *self.model;
        let res = self.build_one_member_expression(&src.rest, src.rest.len() - 1, &first);
        proof {
            lemma_expr_lowered_grows(m1, *self.model, src.first.value, first);
            lemma_member_chain_lowered(*self.model, *src, src.rest@.len() - 1, first, res);
        }
        res
    }

    /// The operations up to `ix`, applied to `exp`.
    pub fn build_one_member_expression(
        &mut self,
        rest: &Vec<Parsed<ast::MemberOp>>,
        ix: usize,
        exp: &ExpressionData,
    ) -> (res: ExpressionData)
        requires
            old(self).model.kinds_ok(),
            ix < rest@.len(),
            old(self).model.expr_valid(*exp),
        ensures
            final(self).source_file == old(self).source_file,
            *final(final(self).model) == *final(old(self).model),
            old(self).model.grows_to(*final(self).model),
            final(self).model.expr_valid(res),
            match rest@[ix as int].value {
                ast::MemberOp::DotAccess(_) => res is DotAccessExpression,
                ast::MemberOp::FunctionCall(_) => res is FunctionCallExpression,
                ast::MemberOp::IndexAccess(_) => res is IndexAccessExpression,
                ast::MemberOp::NonNullAssert => res is NonNullAssertExpression,
            },
            member_chain(*final(self).model, rest@, ix as int, *exp, res),
        decreases rest, ix,
    {
        let op = &rest[ix];
        if ix == 0 {
            self.build_member_expression_op(op, exp)
        } else {
            let e = self.build_one_member_expression(rest, ix - 1, exp);
            let ghost m1 = *self.model;
            let res = self.build_member_expression_op(op, &e);
            proof {
                lemma_member_chain_grows(m1, *self.model, rest@, ix - 1, *exp, e);
            }
            res
        }
    }

    /// One member operation applied to `exp`.
    pub fn build_member_expression_op(&mut self, op: &Parsed<ast::MemberOp>, exp: &ExpressionData) -> (res:
        ExpressionData)
        requires
            old(self).model.kinds_ok(),
            old(self).model.expr_valid(*exp),
        ensures
            final(self).source_file == old(self).source_file,
            *final(final(self).model) == *final(old(self).model),
            old(self).model.grows_to(*final(self).model),
            final(self).model.expr_valid(res),
            match op.value {
                ast::MemberOp::DotAccess(_) => res is DotAccessExpression,
                ast::MemberOp::FunctionCall(_) => res is FunctionCallExpression,
                ast::MemberOp::IndexAccess(_) => res is IndexAccessExpression,
                ast::MemberOp::NonNullAssert => res is NonNullAssertExpression,
            },
            member_op_lowered(*final(self).model, op.value, *exp, res),
        decreases op, 3nat,
    {
        match &op.value {
            ast::MemberOp::DotAccess(v) => ExpressionData::DotAccessExpression(
                self.build_dot_access_expression(v, &op.range, exp),
            ),
            ast::MemberOp::IndexAccess(v) => ExpressionData::IndexAccessExpression(
                self.build_index_access_expression(v, &op.range, exp),
            ),
            ast::MemberOp::FunctionCall(v) => ExpressionData::FunctionCallExpression(
                self.build_function_call_expression(v, &op.range, exp),
            ),
            ast::MemberOp::NonNullAssert => ExpressionData::NonNullAssertExpression(
                self.build_non_null_assert_expression(&op.range, exp),
            ),
        }
    }

    pub fn build_dot_access_expression(&mut self, src: &ast::DotAccess, range: &ParsedRange, exp: &ExpressionData) -> (res: ItemPtr<DotAccessExpressionData>)
        requires
            old(self).model.kinds_ok(),
            old(self).model.expr_valid(*exp),
        ensures
            final(self).source_file == old(self).source_file,
            *final(final(self).model) == *final(old(self).model),
            old(self).model.grows_to(*final(self).model),
            ptr_in(final(self).model.dot_access_expressions, res),
            res.id + 1 == final(self).model.dot_access_expressions.items@.len(),
            final(self).model.span_table.spec_get(res.spec_key()) == Some(
                spec_location(old(self).source_file, *range),
            ),
            final(self).model.dot_access_expressions.items@[res.id as int].exp == *exp,
            final(self).model.dot_access_expressions.items@[res.id as int].name@ == src.name.value@,
            final(self).model.expr_valid(final(self).model.dot_access_expressions.items@[res.id as int].exp),
    {
        let data = DotAccessExpressionData { exp: *exp, name: src.name.value.clone() };
        let ptr = self.model.dot_access_expressions.add(data);
        let loc = self.location(range);
        self.model.span_table.insert(ptr.key(), loc);
        ptr
    }

    pub fn build_index_access_expression(&mut self, src: &ast::IndexAccess, range: &ParsedRange, exp: &ExpressionData) -> (res: ItemPtr<IndexAccessExpressionData>)
        requires
            old(self).model.kinds_ok(),
            old(self).model.expr_valid(*exp),
        ensures
            final(self).source_file == old(self).source_file,
            *final(final(self).model) == *final(old(self).model),
            old(self).model.grows_to(*final(self).model),
            ptr_in(final(self).model.index_access_expressions, res),
            res.id + 1 == final(self).model.index_access_expressions.items@.len(),
            final(self).model.span_table.spec_get(res.spec_key()) == Some(
                spec_location(old(self).source_file, *range),
            ),
            final(self).model.index_access_expressions.items@[res.id as int].exp == *exp,
            final(self).model.expr_valid(final(self).model.index_access_expressions.items@[res.id as int].exp),
            final(self).model.expr_valid(final(self).model.index_access_expressions.items@[res.id as int].access_exp),
            expr_lowered(
                *final(self).model,
                src.exp.value,
                final(self).model.index_access_expressions.items@[res.id as int].access_exp,
            ),
        decreases src, 3nat,
    {
        let access_exp = self.build_expression(&src.exp.value, &src.exp.range);
        let ghost m1 = *self.model;
        let data = IndexAccessExpressionData { exp: *exp, access_exp };
        let ptr = self.model.index_access_expressions.add(data);
        let loc = self.location(range);
        self.model.span_table.insert(ptr.key(), loc);
        proof {
            lemma_expr_lowered_grows(m1, *self.model, src.exp.value, access_exp);
        }
        ptr
    }

    #[verifier::loop_isolation(false)]
    pub fn build_function_call_expression(&mut self, src: &ast::FunctionCall, range: &ParsedRange, exp: &ExpressionData) -> (res: ItemPtr<FunctionCallExpressionData>)
        requires
            old(self).model.kinds_ok(),
            old(self).model.expr_valid(*exp),
        ensures
            final(self).source_file == old(self).source_file,
            *final(final(self).model) == *final(old(self).model),
            old(self).model.grows_to(*final(self).model),
            ptr_in(final(self).model.function_call_expressions, res),
            res.id + 1 == final(self).model.function_call_expressions.items@.len(),
            final(self).model.span_table.spec_get(res.spec_key()) == Some(
                spec_location(old(self).source_file, *range),
            ),
            final(self).model.function_call_expressions.items@[res.id as int].exp == *exp,
            final(self).model.expr_valid(final(self).model.function_call_expressions.items@[res.id as int].exp),
            final(self).model.function_call_expressions.items@[res.id as int].args@.len() == src.args.value@.len(),
            forall|i: int| 0 <= i < final(self).model.function_call_expressions.items@[res.id as int].args@.len() ==> final(self).model.expr_valid(#[trigger] final(self).model.function_call_expressions.items@[res.id as int].args@[i]),
            forall|i: int|
                0 <= i < src.args.value@.len() ==> expr_lowered(
                    *final(self).model,
                    src.args.value@[i].value,
                    #[trigger] final(self).model.function_call_expressions.items@[res.id as int].args@[i],
                ),
        decreases src, 3nat,
    {
        let mut args: Vec<ExpressionData> = Vec::new();
        let mut i: usize = 0;
        while i < src.args.value.len()
            invariant
                self.source_file == old(self).source_file,
                *final(self.model) == *final(old(self).model),
                old(self).model.grows_to(*self.model),
                self.model.kinds_ok(),
                args@.len() == i,
                i <= src.args.value@.len(),
                forall|j: int| 0 <= j < args@.len() ==> self.model.expr_valid(#[trigger] args@[j]),
                forall|j: int|
                    0 <= j < args@.len() ==> expr_lowered(
                        *self.model,
                        src.args.value@[j].value,
                        #[trigger] args@[j],
                    ),
            decreases src.args.value@.len() - i,
        {
            let ghost before = *self.model;
            let v = &src.args.value[i];
            let e = self.build_expression(&v.value, &v.range);
            proof {
                lemma_valid_grows(before, *self.model);
                lemma_exprs_lowered_grow(before, *self.model, src.args.value@, args@, args@.len() as int);
            }
            args.push(e);
            i = i + 1;
        }
        proof {
            lemma_valid_grows(*old(self).model, *self.model);
        }
        let ghost m1 = *self.model;
        let data = FunctionCallExpressionData { exp: *exp, args };
        let ptr = self.model.function_call_expressions.add(data);
        let loc = self.location(range);
        self.model.span_table.insert(ptr.key(), loc);
        proof {
            lemma_exprs_lowered_grow(m1, *self.model, src.args.value@, data.args@, data.args@.len() as int);
        }
        ptr
    }

    pub fn build_non_null_assert_expression(&mut self, range: &ParsedRange, exp: &ExpressionData) -> (res: ItemPtr<NonNullAssertExpressionData>)
        requires
            old(self).model.kinds_ok(),
            old(self).model.expr_valid(*exp),
        ensures
            final(self).source_file == old(self).source_file,
            *final(final(self).model) == *final(old(self).model),
            old(self).model.grows_to(*final(self).model),
            ptr_in(final(self).model.non_null_assert_expressions, res),
            res.id + 1 == final(self).model.non_null_assert_expressions.items@.len(),
            final(self).model.span_table.spec_get(res.spec_key()) == Some(
                spec_location(old(self).source_file, *range),
            ),
            final(self).model.non_null_assert_expressions.items@[res.id as int].exp == *exp,
            final(self).model.expr_valid(final(self).model.non_null_assert_expressions.items@[res.id as int].exp),
    {
        let data = NonNullAssertExpressionData { exp: *exp };
        let ptr = self.model.non_null_assert_expressions.add(data);
        let loc = self.location(range);
        self.model.span_table.insert(ptr.key(), loc);
        ptr
    }

    pub fn build_identifier_expression(&mut self, src: &ast::IdentifierExpression, range: &ParsedRange) -> (res: ItemPtr<IdentifierExpressionData>)
        requires
            old(self).model.kinds_ok(),
        ensures
            final(self).source_file == old(self).source_file,
            *final(final(self).model) == *final(old(self).model),
            old(self).model.grows_to(*final(self).model),
            ptr_in(final(self).model.identifier_expressions, res),
            res.id + 1 == final(self).model.identifier_expressions.items@.len(),
            final(self).model.span_table.spec_get(res.spec_key()) == Some(
                spec_location(old(self).source_file, *range),
            ),
            final(self).model.identifier_expressions.items@[res.id as int].name@ == src.name@,
    {
        let data = IdentifierExpressionData { name: src.name.clone() };
        let ptr = self.model.identifier_expressions.add(data);
        let loc = self.location(range);
        self.model.span_table.insert(ptr.key(), loc);
        ptr
    }

}

} // verus!
