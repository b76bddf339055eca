use vstd::prelude::*;

use core::marker::PhantomData;

verus! {

//==================================================
// Section 1: Generic model machinery
//==================================================

pub enum ModelError {
    TypeMismatch(&'static str),
}

pub type ModelResult<T> = Result<T, ModelError>;

pub struct Model {
    pub source_files: SourceFiles,
    pub span_table: SpanTable,
    // Dense arrays of each item type
    pub files: ModelItems<FileData>,
    pub type_decls: ModelItems<TypeDeclData>,
    pub import_decls: ModelItems<ImportDeclData>,
    pub empty_statements: ModelItems<EmptyStatementData>,
    pub expression_statements: ModelItems<ExpressionStatementData>,
    pub if_statements: ModelItems<IfStatementData>,
    pub while_statements: ModelItems<WhileStatementData>,
    pub return_statements: ModelItems<ReturnStatementData>,
    pub break_statements: ModelItems<BreakStatementData>,
    pub continue_statements: ModelItems<ContinueStatementData>,
    pub block_statements: ModelItems<BlockStatementData>,
    pub for_statements: ModelItems<ForStatementData>,
    pub switch_statements: ModelItems<SwitchStatementData>,
    pub switch_body_statements: ModelItems<SwitchBodyStatementData>,
    pub switch_cases: ModelItems<SwitchCaseData>,
    pub switch_defaults: ModelItems<SwitchDefaultData>,
    pub var_decl_statements: ModelItems<VarDeclStatementData>,
    pub function_decl_statements: ModelItems<FunctionDeclStatementData>,
    pub function_signatures: ModelItems<FunctionSignatureData>,
    pub function_decl_args: ModelItems<FunctionDeclArgData>,
    pub labeled_statements: ModelItems<LabeledStatementData>,
    pub try_statements: ModelItems<TryStatementData>,
    pub catch_clauses: ModelItems<CatchClauseData>,
    pub comma_expressions: ModelItems<CommaExpressionData>,
    pub ternary_expressions: ModelItems<TernaryExpressionData>,
    pub binary_expressions: ModelItems<BinaryExpressionData>,
    pub unary_expressions: ModelItems<UnaryExpressionData>,
    pub boolean_literals: ModelItems<BooleanLiteralData>,
    pub null_literals: ModelItems<NullLiteralData>,
    pub string_literals: ModelItems<StringLiteralData>,
    pub int_literals: ModelItems<IntLiteralData>,
    pub dot_access_expressions: ModelItems<DotAccessExpressionData>,
    pub index_access_expressions: ModelItems<IndexAccessExpressionData>,
    pub function_call_expressions: ModelItems<FunctionCallExpressionData>,
    pub non_null_assert_expressions: ModelItems<NonNullAssertExpressionData>,
    pub identifier_expressions: ModelItems<IdentifierExpressionData>,
}

impl Model {
    /// Whether the model holds no items, each collection tagged with its kind.
    pub open spec fn is_fresh(&self) -> bool {
        &&& self.source_files.is_fresh()
        &&& self.span_table.entries@.len() == 0
        &&& self.files.items@.len() == 0 && self.files.kind == ItemKind::File
        &&& self.type_decls.items@.len() == 0 && self.type_decls.kind == ItemKind::TypeDecl
        &&& self.import_decls.items@.len() == 0 && self.import_decls.kind == ItemKind::ImportDecl
        &&& self.empty_statements.items@.len() == 0 && self.empty_statements.kind == ItemKind::EmptyStatement
        &&& self.expression_statements.items@.len() == 0 && self.expression_statements.kind == ItemKind::ExpressionStatement
        &&& self.if_statements.items@.len() == 0 && self.if_statements.kind == ItemKind::IfStatement
        &&& self.while_statements.items@.len() == 0 && self.while_statements.kind == ItemKind::WhileStatement
        &&& self.return_statements.items@.len() == 0 && self.return_statements.kind == ItemKind::ReturnStatement
        &&& self.break_statements.items@.len() == 0 && self.break_statements.kind == ItemKind::BreakStatement
        &&& self.continue_statements.items@.len() == 0 && self.continue_statements.kind == ItemKind::ContinueStatement
        &&& self.block_statements.items@.len() == 0 && self.block_statements.kind == ItemKind::BlockStatement
        &&& self.for_statements.items@.len() == 0 && self.for_statements.kind == ItemKind::ForStatement
        &&& self.switch_statements.items@.len() == 0 && self.switch_statements.kind == ItemKind::SwitchStatement
        &&& self.switch_body_statements.items@.len() == 0 && self.switch_body_statements.kind == ItemKind::SwitchBodyStatement
        &&& self.switch_cases.items@.len() == 0 && self.switch_cases.kind == ItemKind::SwitchCase
        &&& self.switch_defaults.items@.len() == 0 && self.switch_defaults.kind == ItemKind::SwitchDefault
        &&& self.var_decl_statements.items@.len() == 0 && self.var_decl_statements.kind == ItemKind::VarDeclStatement
        &&& self.function_decl_statements.items@.len() == 0 && self.function_decl_statements.kind == ItemKind::FunctionDeclStatement
        &&& self.function_signatures.items@.len() == 0 && self.function_signatures.kind == ItemKind::FunctionSignature
        &&& self.function_decl_args.items@.len() == 0 && self.function_decl_args.kind == ItemKind::FunctionDeclArg
        &&& self.labeled_statements.items@.len() == 0 && self.labeled_statements.kind == ItemKind::LabeledStatement
        &&& self.try_statements.items@.len() == 0 && self.try_statements.kind == ItemKind::TryStatement
        &&& self.catch_clauses.items@.len() == 0 && self.catch_clauses.kind == ItemKind::CatchClause
        &&& self.comma_expressions.items@.len() == 0 && self.comma_expressions.kind == ItemKind::CommaExpression
        &&& self.ternary_expressions.items@.len() == 0 && self.ternary_expressions.kind == ItemKind::TernaryExpression
        &&& self.binary_expressions.items@.len() == 0 && self.binary_expressions.kind == ItemKind::BinaryExpression
        &&& self.unary_expressions.items@.len() == 0 && self.unary_expressions.kind == ItemKind::UnaryExpression
        &&& self.boolean_literals.items@.len() == 0 && self.boolean_literals.kind == ItemKind::BooleanLiteral
        &&& self.null_literals.items@.len() == 0 && self.null_literals.kind == ItemKind::NullLiteral
        &&& self.string_literals.items@.len() == 0 && self.string_literals.kind == ItemKind::StringLiteral
        &&& self.int_literals.items@.len() == 0 && self.int_literals.kind == ItemKind::IntLiteral
        &&& self.dot_access_expressions.items@.len() == 0 && self.dot_access_expressions.kind == ItemKind::DotAccessExpression
        &&& self.index_access_expressions.items@.len() == 0 && self.index_access_expressions.kind == ItemKind::IndexAccessExpression
        &&& self.function_call_expressions.items@.len() == 0 && self.function_call_expressions.kind == ItemKind::FunctionCallExpression
        &&& self.non_null_assert_expressions.items@.len() == 0 && self.non_null_assert_expressions.kind == ItemKind::NonNullAssertExpression
        &&& self.identifier_expressions.items@.len() == 0 && self.identifier_expressions.kind == ItemKind::IdentifierExpression
    }

    pub fn new() -> (res: Self)
        ensures
            res.is_fresh(),
    {
        Self {
            source_files: SourceFiles::new(),
            span_table: SpanTable::new(),
            files: ModelItems::new(ItemKind::File),
            type_decls: ModelItems::new(ItemKind::TypeDecl),
            import_decls: ModelItems::new(ItemKind::ImportDecl),
            empty_statements: ModelItems::new(ItemKind::EmptyStatement),
            expression_statements: ModelItems::new(ItemKind::ExpressionStatement),
            if_statements: ModelItems::new(ItemKind::IfStatement),
            while_statements: ModelItems::new(ItemKind::WhileStatement),
            return_statements: ModelItems::new(ItemKind::ReturnStatement),
            break_statements: ModelItems::new(ItemKind::BreakStatement),
            continue_statements: ModelItems::new(ItemKind::ContinueStatement),
            block_statements: ModelItems::new(ItemKind::BlockStatement),
            for_statements: ModelItems::new(ItemKind::ForStatement),
            switch_statements: ModelItems::new(ItemKind::SwitchStatement),
            switch_body_statements: ModelItems::new(ItemKind::SwitchBodyStatement),
            switch_cases: ModelItems::new(ItemKind::SwitchCase),
            switch_defaults: ModelItems::new(ItemKind::SwitchDefault),
            var_decl_statements: ModelItems::new(ItemKind::VarDeclStatement),
            function_decl_statements: ModelItems::new(ItemKind::FunctionDeclStatement),
            function_signatures: ModelItems::new(ItemKind::FunctionSignature),
            function_decl_args: ModelItems::new(ItemKind::FunctionDeclArg),
            labeled_statements: ModelItems::new(ItemKind::LabeledStatement),
            try_statements: ModelItems::new(ItemKind::TryStatement),
            catch_clauses: ModelItems::new(ItemKind::CatchClause),
            comma_expressions: ModelItems::new(ItemKind::CommaExpression),
            ternary_expressions: ModelItems::new(ItemKind::TernaryExpression),
            binary_expressions: ModelItems::new(ItemKind::BinaryExpression),
            unary_expressions: ModelItems::new(ItemKind::UnaryExpression),
            boolean_literals: ModelItems::new(ItemKind::BooleanLiteral),
            null_literals: ModelItems::new(ItemKind::NullLiteral),
            string_literals: ModelItems::new(ItemKind::StringLiteral),
            int_literals: ModelItems::new(ItemKind::IntLiteral),
            dot_access_expressions: ModelItems::new(ItemKind::DotAccessExpression),
            index_access_expressions: ModelItems::new(ItemKind::IndexAccessExpression),
            function_call_expressions: ModelItems::new(ItemKind::FunctionCallExpression),
            non_null_assert_expressions: ModelItems::new(ItemKind::NonNullAssertExpression),
            identifier_expressions: ModelItems::new(ItemKind::IdentifierExpression),
        }
    }
}

pub struct ModelItems<T> {
    pub items: Vec<T>,
    pub kind: ItemKind,
}

impl<T> ModelItems<T> {
    pub fn new(kind: ItemKind) -> (res: Self)
        ensures
            res.items@.len() == 0,
            res.kind == kind,
    {
        Self { items: Vec::new(), kind }
    }

    /// Appends an item; the pointer names its position, tagged with the collection's kind.
    pub fn add(&mut self, item: T) -> (res: ItemPtr<T>)
        ensures
            final(self).items@ == old(self).items@.push(item),
            final(self).kind == old(self).kind,
            res.kind == old(self).kind,
            res.id == old(self).items@.len(),
    {
        let id = self.items.len();
        self.items.push(item);
        ItemPtr { kind: self.kind, id, _marker: PhantomData }
    }

    pub fn get(&self, id: usize) -> (res: &T)
        requires
            id < self.items@.len(),
        ensures
            *res == self.items@[id as int],
    {
        &self.items[id]
    }
}

//--------------------------------------------------
// SourceFiles and SourceLocations

pub struct SourceFile {
    pub name: String,
}

#[derive(Debug, Eq, Hash, PartialEq, Clone, Copy, Structural)]
pub struct SourceFilePtr {
    pub id: usize,
}

impl SourceFilePtr {
    pub fn id(&self) -> (res: usize)
        ensures
            res == self.id,
    {
        self.id
    }
}

/// The most recent entry for a key, searching from the end.
pub open spec fn lookup_last<K, V>(entries: Seq<(K, V)>, key: K) -> Option<V>
    decreases entries.len(),
{
    if entries.len() == 0 {
        None
    } else if entries.last().0 == key {
        Some(entries.last().1)
    } else {
        lookup_last(entries.drop_last(), key)
    }
}

/// The source files, by pointer.  A later entry for a pointer replaces an earlier one.
pub struct SourceFiles {
    pub source_files: Vec<(SourceFilePtr, SourceFile)>,
    pub id_counter: usize,
}

impl SourceFiles {
    pub open spec fn is_fresh(&self) -> bool {
        self.source_files@.len() == 0 && self.id_counter == 1
    }

    /// The name recorded for a pointer.
    pub open spec fn spec_name(&self, ptr: SourceFilePtr) -> Option<Seq<char>> {
        match lookup_last(self.source_files@, ptr) {
            Some(f) => Some(f.name@),
            None => None,
        }
    }

    pub fn new() -> (res: Self)
        ensures
            res.is_fresh(),
    {
        Self { source_files: Vec::new(), id_counter: 1 }
    }

    /// Records a source file under the pointer that the counter names.  The counter is not
    /// advanced, so the file replaces any earlier one.
    pub fn add(&mut self, name: String) -> (res: SourceFilePtr)
        ensures
            res.id == old(self).id_counter,
            final(self).id_counter == old(self).id_counter,
            final(self).source_files@ == old(self).source_files@.push(
                (res, SourceFile { name }),
            ),
            forall|p: SourceFilePtr|
                #[trigger] final(self).spec_name(p) == if p == res {
                    Some(name@)
                } else {
                    old(self).spec_name(p)
                },
    {
        let ret = SourceFilePtr { id: self.id_counter };
        let ghost old_files = self.source_files@;
        self.source_files.push((ret, SourceFile { name }));
        assert(self.source_files@.drop_last() =~= old_files);
        ret
    }
}

#[derive(Clone, Copy, PartialEq, Eq, Structural)]
pub struct SourceLocation {
    pub source_file: SourceFilePtr,
    pub span: Span,
}

#[derive(Clone, Copy, PartialEq, Eq, Structural)]
pub struct Span {
    // The position of the first character
    pub start: usize,
    // The position *after* the last character
    pub end: usize,
}

/// The source location of each item, by key.  A later entry for a key replaces an earlier
/// one.
pub struct SpanTable {
    pub entries: Vec<(ItemKey, SourceLocation)>,
}

impl SpanTable {
    /// The location recorded for a key.
    pub open spec fn spec_get(&self, key: ItemKey) -> Option<SourceLocation> {
        lookup_last(self.entries@, key)
    }

    pub fn new() -> (res: Self)
        ensures
            res.entries@.len() == 0,
            forall|k: ItemKey| #[trigger] res.spec_get(k) is None,
    {
        Self { entries: Vec::new() }
    }

    /// Records the location of an item, replacing any earlier one.
    pub fn insert(&mut self, key: ItemKey, loc: SourceLocation)
        ensures
            final(self).entries@ == old(self).entries@.push((key, loc)),
            forall|k: ItemKey|
                #[trigger] final(self).spec_get(k) == if k == key {
                    Some(loc)
                } else {
                    old(self).spec_get(k)
                },
    {
        let ghost old_entries = self.entries@;
        self.entries.push((key, loc));
        assert(self.entries@.drop_last() =~= old_entries);
    }

    /// The location recorded for a key, if any.
    pub fn get(&self, key: ItemKey) -> (res: Option<&SourceLocation>)
        ensures
            match res {
                Some(r) => self.spec_get(key) == Some(*r),
                None => self.spec_get(key) is None,
            },
    {
        let mut i = self.entries.len();
        assert(self.entries@.take(i as int) =~= self.entries@);
        while i > 0
            invariant
                i <= self.entries@.len(),
                self.spec_get(key) == lookup_last(self.entries@.take(i as int), key),
            decreases i,
        {
            assert(self.entries@.take(i as int).drop_last() =~= self.entries@.take(i - 1));
            if self.entries[i - 1].0 == key {
                return Some(&self.entries[i - 1].1);
            }
            i = i - 1;
        }
        None
    }
}

//--------------------------------------------------
// Item pointers

#[derive(Debug, Eq, Hash, PartialEq, Clone, Copy, Structural)]
pub enum ItemKind {
    File,
    FileItem,
    TypeDecl,
    ImportDecl,
    Statement,
    EmptyStatement,
    ExpressionStatement,
    IfStatement,
    WhileStatement,
    ReturnStatement,
    BreakStatement,
    ContinueStatement,
    BlockStatement,
    ForStatement,
    SwitchStatement,
    SwitchBodyStatement,
    SwitchCase,
    SwitchDefault,
    VarDeclStatement,
    FunctionDeclStatement,
    FunctionSignature,
    FunctionDeclArg,
    LabeledStatement,
    TryStatement,
    CatchClause,
    Expression,
    CommaExpression,
    TernaryExpression,
    BinaryExpression,
    UnaryExpression,
    BooleanLiteral,
    NullLiteral,
    StringLiteral,
    IntLiteral,
    DotAccessExpression,
    IndexAccessExpression,
    FunctionCallExpression,
    NonNullAssertExpression,
    IdentifierExpression,
}

/// A typed index into one of the model's collections.
#[derive(Debug)]
pub struct ItemPtr<T> {
    pub kind: ItemKind,
    pub id: usize,
    pub _marker: PhantomData<T>,
}

// Implement Clone and Copy manually (derive is too conservative about requiring T to also be
// Clone and Copy)
impl<T> Clone for ItemPtr<T> {
    fn clone(&self) -> (res: Self)
        ensures
            res == *self,
    {
        *self
    }
}

impl<T> Copy for ItemPtr<T> {

}

impl<T> ItemPtr<T> {
    pub open spec fn spec_key(&self) -> ItemKey {
        ItemKey { kind: self.kind, id: self.id }
    }

    pub fn key(&self) -> (res: ItemKey)
        ensures
            res == self.spec_key(),
    {
        ItemKey { kind: self.kind, id: self.id }
    }
}

// Type-erased version of a ptr, for use as a key in tables
#[derive(Debug, Eq, Hash, PartialEq, Clone, Copy, Structural)]
pub struct ItemKey {
    pub kind: ItemKind,
    pub id: usize,
}

//--------------------------------------------------
// Item handles
//
// A handle is just (model, ptr). The stored data lives in `*Data` structs; the clean domain
// name (e.g. `BlockStatement`) is a type alias for the handle, so callers work with
// `BlockStatement<'a>` and never touch `BlockStatementData` directly.

pub struct Item<'a, T> {
    pub model: &'a Model,
    pub ptr: ItemPtr<T>,
}

// Handles are just (model, ptr) so they're cheap to copy around.
impl<'a, T> Clone for Item<'a, T> {
    fn clone(&self) -> (res: Self)
        ensures
            res == *self,
    {
        *self
    }
}

impl<'a, T> Copy for Item<'a, T> {

}

/// Maps a `*Data` struct to the dense array that stores it on the `Model`. This is the one
/// bit of glue that lets a handle find its own data.
pub trait ModelItem: Sized {
    spec fn spec_collection(model: Model) -> ModelItems<Self>;

    fn collection(model: &Model) -> (res: &ModelItems<Self>)
        ensures
            *res == Self::spec_collection(*model),
    ;
}

impl Model {
    /// Wrap a ptr into a handle that can answer questions about the item.
    pub fn item<T: ModelItem>(&self, ptr: ItemPtr<T>) -> (res: Item<'_, T>)
        ensures
            res == (Item { model: self, ptr }),
    {
        Item { model: self, ptr }
    }
}

impl<'a, T: ModelItem> Item<'a, T> {
    /// The pointer names an item of its collection.
    pub open spec fn valid(&self) -> bool {
        self.ptr.id < T::spec_collection(*self.model).items@.len()
    }

    pub open spec fn spec_data(&self) -> T {
        T::spec_collection(*self.model).items@[self.ptr.id as int]
    }

    /// The underlying stored data. Borrow is tied to the model (`'a`), not to `self`, so
    /// accessors can hand back `&'a` data and owned child handles.
    pub fn data(&self) -> (res: &'a T)
        requires
            self.valid(),
        ensures
            *res == self.spec_data(),
    {
        T::collection(self.model).get(self.ptr.id)
    }

    pub fn model(&self) -> (res: &'a Model)
        ensures
            res == self.model,
    {
        self.model
    }

    pub fn ptr(&self) -> (res: ItemPtr<T>)
        ensures
            res == self.ptr,
    {
        self.ptr
    }

    pub open spec fn spec_span(&self) -> Option<SourceLocation> {
        self.model.span_table.spec_get(self.ptr.spec_key())
    }

    /// The source location recorded for the item, if any.
    pub fn span(&self) -> (res: Option<&'a SourceLocation>)
        ensures
            match res {
                Some(r) => self.spec_span() == Some(*r),
                None => self.spec_span() is None,
            },
    {
        self.model.span_table.get(self.ptr.key())
    }
}

//==================================================
// Section 2: Stored data (`*Data`)
//==================================================

#[derive(Debug)]
pub struct FileData {
    pub items: Vec<FileItemData>,
}

#[derive(Debug, Copy, Clone)]
pub enum FileItemData {
    ImportDecl(ItemPtr<ImportDeclData>),
    TypeDecl(ItemPtr<TypeDeclData>),
    Statement(StatementData),
}

#[derive(Debug)]
pub struct TypeDeclData {}

#[derive(Debug)]
pub struct ImportDeclData {
    pub name: String,
    pub source: String,
}

#[derive(Debug, Copy, Clone)]
pub enum StatementData {
    EmptyStatement(ItemPtr<EmptyStatementData>),
    ExpressionStatement(ItemPtr<ExpressionStatementData>),
    IfStatement(ItemPtr<IfStatementData>),
    WhileStatement(ItemPtr<WhileStatementData>),
    ReturnStatement(ItemPtr<ReturnStatementData>),
    BreakStatement(ItemPtr<BreakStatementData>),
    ContinueStatement(ItemPtr<ContinueStatementData>),
    BlockStatement(ItemPtr<BlockStatementData>),
    ForStatement(ItemPtr<ForStatementData>),
    SwitchStatement(ItemPtr<SwitchStatementData>),
    VarDeclStatement(ItemPtr<VarDeclStatementData>),
    FunctionDeclStatement(ItemPtr<FunctionDeclStatementData>),
    LabeledStatement(ItemPtr<LabeledStatementData>),
    TryStatement(ItemPtr<TryStatementData>),
}

#[derive(Debug)]
pub struct EmptyStatementData {}

#[derive(Debug)]
pub struct ExpressionStatementData {
    pub exp: ExpressionData,
}

#[derive(Debug)]
pub struct IfStatementData {
    pub test: ExpressionData,
    pub if_true: StatementData,
    pub if_false: Option<StatementData>,
}

#[derive(Debug)]
pub struct WhileStatementData {
    pub test: ExpressionData,
    pub stmt: StatementData,
}

#[derive(Debug)]
pub struct ReturnStatementData {
    pub exp: Option<ExpressionData>,
}

#[derive(Debug)]
pub struct BreakStatementData {
    pub label: Option<String>,
}

#[derive(Debug)]
pub struct ContinueStatementData {
    pub label: Option<String>,
}

#[derive(Debug)]
pub struct BlockStatementData {
    pub stmts: Vec<StatementData>,
}

#[derive(Debug)]
pub struct ForStatementData {
    pub init: Option<ForInitData>,
    pub test: Option<ExpressionData>,
    pub advance: Option<ExpressionData>,
    pub stmt: StatementData,
}

#[derive(Debug, Copy, Clone)]
pub enum ForInitData {
    Expression(ExpressionData),
    VarDecl(StatementData),
}

#[derive(Debug)]
pub struct SwitchStatementData {
    pub exp: ExpressionData,
    pub items: Vec<SwitchItemData>,
}

#[derive(Debug, Copy, Clone)]
pub enum SwitchItemData {
    Statement(ItemPtr<SwitchBodyStatementData>),
    Case(ItemPtr<SwitchCaseData>),
    Default(ItemPtr<SwitchDefaultData>),
}

#[derive(Debug)]
pub struct SwitchBodyStatementData {
    pub stmt: StatementData,
}

#[derive(Debug)]
pub struct SwitchCaseData {
    pub exp: ExpressionData,
}

#[derive(Debug)]
pub struct SwitchDefaultData {}

#[derive(Debug)]
pub struct VarDeclStatementData {
    pub let_or_const: LetOrConst,
    pub name: String,
    pub init: Option<ExpressionData>,
}

#[derive(Debug, Copy, Clone, PartialEq, Eq, Structural)]
pub enum LetOrConst {
    Let,
    Const,
}

#[derive(Debug)]
pub struct FunctionDeclStatementData {
    pub name: String,
    pub signature: ItemPtr<FunctionSignatureData>,
    pub body: StatementData,
}

#[derive(Debug)]
pub struct FunctionSignatureData {
    pub args: Vec<ItemPtr<FunctionDeclArgData>>,
}

#[derive(Debug)]
pub struct FunctionDeclArgData {
    pub name: String,
}

#[derive(Debug)]
pub struct LabeledStatementData {
    pub name: String,
    pub stmt: StatementData,
}

#[derive(Debug)]
pub struct TryStatementData {
    pub stmt: StatementData,
    pub catch_clause: Option<ItemPtr<CatchClauseData>>,
    pub finally_clause: Option<StatementData>,
}

#[derive(Debug)]
pub struct CatchClauseData {
    pub name: Option<String>,
    pub stmt: StatementData,
}

#[derive(Debug, Copy, Clone)]
pub enum ExpressionData {
    CommaExpression(ItemPtr<CommaExpressionData>),
    TernaryExpression(ItemPtr<TernaryExpressionData>),
    BinaryExpression(ItemPtr<BinaryExpressionData>),
    UnaryExpression(ItemPtr<UnaryExpressionData>),
    BooleanLiteral(ItemPtr<BooleanLiteralData>),
    NullLiteral(ItemPtr<NullLiteralData>),
    StringLiteral(ItemPtr<StringLiteralData>),
    IntLiteral(ItemPtr<IntLiteralData>),
    DotAccessExpression(ItemPtr<DotAccessExpressionData>),
    IndexAccessExpression(ItemPtr<IndexAccessExpressionData>),
    FunctionCallExpression(ItemPtr<FunctionCallExpressionData>),
    NonNullAssertExpression(ItemPtr<NonNullAssertExpressionData>),
    IdentifierExpression(ItemPtr<IdentifierExpressionData>),
}

#[derive(Debug)]
pub struct CommaExpressionData {
    pub exps: Vec<ExpressionData>,
}

#[derive(Debug)]
pub struct TernaryExpressionData {
    pub test: ExpressionData,
    pub if_true: ExpressionData,
    pub if_false: ExpressionData,
}

#[derive(Debug)]
pub struct BinaryExpressionData {
    pub left: ExpressionData,
    pub op: BinaryOp,
    pub right: ExpressionData,
}

#[derive(Debug, Clone, Copy, PartialEq, Eq, Structural)]
pub enum BinaryOp {
    Plus,
    Minus,
    Times,
    Divide,
    Mod,
    ShiftLeft,
    LogicalShiftRight,
    ArithmeticShiftRight,
    LessThan,
    LessThanOrEquals,
    GreaterThan,
    GreaterThanOrEquals,
    Equals,
    NotEquals,
    BitwiseAnd,
    BitwiseXor,
    BitwiseOr,
    LogicalAnd,
    LogicalOr,
    Assign,
    PlusAssign,
    MinusAssign,
    TimesAssign,
    DivideAssign,
    ModAssign,
    ShiftLeftAssign,
    LogicalShiftRightAssign,
    ArithmeticShiftRightAssign,
    BitwiseAndAssign,
    BitwiseXorAssign,
    BitwiseOrAssign,
    LogicalAndAssign,
    LogicalOrAssign,
}

#[derive(Debug)]
pub struct UnaryExpressionData {
    pub op: UnaryOp,
    pub exp: ExpressionData,
}

#[derive(Debug, Clone, Copy, PartialEq, Eq, Structural)]
pub enum UnaryOp {
    Plus,
    Minus,
    LogicalNot,
    BitwiseNot,
}

#[derive(Debug)]
pub struct BooleanLiteralData {
    pub value: bool,
}

#[derive(Debug)]
pub struct NullLiteralData {}

#[derive(Debug)]
pub struct StringLiteralData {
    pub value: String,
}

#[derive(Debug)]
pub struct IntLiteralData {
    pub value: u64,
    pub suffix: Option<IntLiteralSuffix>,
}

#[derive(Debug, Clone, Copy, PartialEq, Eq, Structural)]
pub enum IntLiteralSuffix {
    U8,
    U16,
    U32,
    U64,
    I8,
    I16,
    I32,
    I64,
}

#[derive(Debug)]
pub struct DotAccessExpressionData {
    pub exp: ExpressionData,
    pub name: String,
}

#[derive(Debug)]
pub struct IndexAccessExpressionData {
    pub exp: ExpressionData,
    pub access_exp: ExpressionData,
}

#[derive(Debug)]
pub struct FunctionCallExpressionData {
    pub exp: ExpressionData,
    pub args: Vec<ExpressionData>,
}

#[derive(Debug)]
pub struct NonNullAssertExpressionData {
    pub exp: ExpressionData,
}

#[derive(Debug)]
pub struct IdentifierExpressionData {
    pub name: String,
}

//==================================================
// Section 3: Domain model objects
//==================================================

// Domain type aliases + `ModelItem` glue, one per item type.
pub type File<'a> = Item<'a, FileData>;

impl ModelItem for FileData {
    open spec fn spec_collection(model: Model) -> ModelItems<Self> {
        model.files
    }

    fn collection(model: &Model) -> (res: &ModelItems<Self>) {
        &model.files
    }
}

pub type TypeDecl<'a> = Item<'a, TypeDeclData>;

impl ModelItem for TypeDeclData {
    open spec fn spec_collection(model: Model) -> ModelItems<Self> {
        model.type_decls
    }

    fn collection(model: &Model) -> (res: &ModelItems<Self>) {
        &model.type_decls
    }
}

pub type ImportDecl<'a> = Item<'a, ImportDeclData>;

impl ModelItem for ImportDeclData {
    open spec fn spec_collection(model: Model) -> ModelItems<Self> {
        model.import_decls
    }

    fn collection(model: &Model) -> (res: &ModelItems<Self>) {
        &model.import_decls
    }
}

pub type EmptyStatement<'a> = Item<'a, EmptyStatementData>;

impl ModelItem for EmptyStatementData {
    open spec fn spec_collection(model: Model) -> ModelItems<Self> {
        model.empty_statements
    }

    fn collection(model: &Model) -> (res: &ModelItems<Self>) {
        &model.empty_statements
    }
}

pub type ExpressionStatement<'a> = Item<'a, ExpressionStatementData>;

impl ModelItem for ExpressionStatementData {
    open spec fn spec_collection(model: Model) -> ModelItems<Self> {
        model.expression_statements
    }

    fn collection(model: &Model) -> (res: &ModelItems<Self>) {
        &model.expression_statements
    }
}

pub type IfStatement<'a> = Item<'a, IfStatementData>;

impl ModelItem for IfStatementData {
    open spec fn spec_collection(model: Model) -> ModelItems<Self> {
        model.if_statements
    }

    fn collection(model: &Model) -> (res: &ModelItems<Self>) {
        &model.if_statements
    }
}

pub type WhileStatement<'a> = Item<'a, WhileStatementData>;

impl ModelItem for WhileStatementData {
    open spec fn spec_collection(model: Model) -> ModelItems<Self> {
        model.while_statements
    }

    fn collection(model: &Model) -> (res: &ModelItems<Self>) {
        &model.while_statements
    }
}

pub type ReturnStatement<'a> = Item<'a, ReturnStatementData>;

impl ModelItem for ReturnStatementData {
    open spec fn spec_collection(model: Model) -> ModelItems<Self> {
        model.return_statements
    }

    fn collection(model: &Model) -> (res: &ModelItems<Self>) {
        &model.return_statements
    }
}

pub type BreakStatement<'a> = Item<'a, BreakStatementData>;

impl ModelItem for BreakStatementData {
    open spec fn spec_collection(model: Model) -> ModelItems<Self> {
        model.break_statements
    }

    fn collection(model: &Model) -> (res: &ModelItems<Self>) {
        &model.break_statements
    }
}

pub type ContinueStatement<'a> = Item<'a, ContinueStatementData>;

impl ModelItem for ContinueStatementData {
    open spec fn spec_collection(model: Model) -> ModelItems<Self> {
        model.continue_statements
    }

    fn collection(model: &Model) -> (res: &ModelItems<Self>) {
        &model.continue_statements
    }
}

pub type BlockStatement<'a> = Item<'a, BlockStatementData>;

impl ModelItem for BlockStatementData {
    open spec fn spec_collection(model: Model) -> ModelItems<Self> {
        model.block_statements
    }

    fn collection(model: &Model) -> (res: &ModelItems<Self>) {
        &model.block_statements
    }
}

pub type ForStatement<'a> = Item<'a, ForStatementData>;

impl ModelItem for ForStatementData {
    open spec fn spec_collection(model: Model) -> ModelItems<Self> {
        model.for_statements
    }

    fn collection(model: &Model) -> (res: &ModelItems<Self>) {
        &model.for_statements
    }
}

pub type SwitchStatement<'a> = Item<'a, SwitchStatementData>;

impl ModelItem for SwitchStatementData {
    open spec fn spec_collection(model: Model) -> ModelItems<Self> {
        model.switch_statements
    }

    fn collection(model: &Model) -> (res: &ModelItems<Self>) {
        &model.switch_statements
    }
}

pub type SwitchBodyStatement<'a> = Item<'a, SwitchBodyStatementData>;

impl ModelItem for SwitchBodyStatementData {
    open spec fn spec_collection(model: Model) -> ModelItems<Self> {
        model.switch_body_statements
    }

    fn collection(model: &Model) -> (res: &ModelItems<Self>) {
        &model.switch_body_statements
    }
}

pub type SwitchCase<'a> = Item<'a, SwitchCaseData>;

impl ModelItem for SwitchCaseData {
    open spec fn spec_collection(model: Model) -> ModelItems<Self> {
        model.switch_cases
    }

    fn collection(model: &Model) -> (res: &ModelItems<Self>) {
        &model.switch_cases
    }
}

pub type SwitchDefault<'a> = Item<'a, SwitchDefaultData>;

impl ModelItem for SwitchDefaultData {
    open spec fn spec_collection(model: Model) -> ModelItems<Self> {
        model.switch_defaults
    }

    fn collection(model: &Model) -> (res: &ModelItems<Self>) {
        &model.switch_defaults
    }
}

pub type VarDeclStatement<'a> = Item<'a, VarDeclStatementData>;

impl ModelItem for VarDeclStatementData {
    open spec fn spec_collection(model: Model) -> ModelItems<Self> {
        model.var_decl_statements
    }

    fn collection(model: &Model) -> (res: &ModelItems<Self>) {
        &model.var_decl_statements
    }
}

pub type FunctionDeclStatement<'a> = Item<'a, FunctionDeclStatementData>;

impl ModelItem for FunctionDeclStatementData {
    open spec fn spec_collection(model: Model) -> ModelItems<Self> {
        model.function_decl_statements
    }

    fn collection(model: &Model) -> (res: &ModelItems<Self>) {
        &model.function_decl_statements
    }
}

pub type FunctionSignature<'a> = Item<'a, FunctionSignatureData>;

impl ModelItem for FunctionSignatureData {
    open spec fn spec_collection(model: Model) -> ModelItems<Self> {
        model.function_signatures
    }

    fn collection(model: &Model) -> (res: &ModelItems<Self>) {
        &model.function_signatures
    }
}

pub type FunctionDeclArg<'a> = Item<'a, FunctionDeclArgData>;

impl ModelItem for FunctionDeclArgData {
    open spec fn spec_collection(model: Model) -> ModelItems<Self> {
        model.function_decl_args
    }

    fn collection(model: &Model) -> (res: &ModelItems<Self>) {
        &model.function_decl_args
    }
}

pub type LabeledStatement<'a> = Item<'a, LabeledStatementData>;

impl ModelItem for LabeledStatementData {
    open spec fn spec_collection(model: Model) -> ModelItems<Self> {
        model.labeled_statements
    }

    fn collection(model: &Model) -> (res: &ModelItems<Self>) {
        &model.labeled_statements
    }
}

pub type TryStatement<'a> = Item<'a, TryStatementData>;

impl ModelItem for TryStatementData {
    open spec fn spec_collection(model: Model) -> ModelItems<Self> {
        model.try_statements
    }

    fn collection(model: &Model) -> (res: &ModelItems<Self>) {
        &model.try_statements
    }
}

pub type CatchClause<'a> = Item<'a, CatchClauseData>;

impl ModelItem for CatchClauseData {
    open spec fn spec_collection(model: Model) -> ModelItems<Self> {
        model.catch_clauses
    }

    fn collection(model: &Model) -> (res: &ModelItems<Self>) {
        &model.catch_clauses
    }
}

pub type CommaExpression<'a> = Item<'a, CommaExpressionData>;

impl ModelItem for CommaExpressionData {
    open spec fn spec_collection(model: Model) -> ModelItems<Self> {
        model.comma_expressions
    }

    fn collection(model: &Model) -> (res: &ModelItems<Self>) {
        &model.comma_expressions
    }
}

pub type TernaryExpression<'a> = Item<'a, TernaryExpressionData>;

impl ModelItem for TernaryExpressionData {
    open spec fn spec_collection(model: Model) -> ModelItems<Self> {
        model.ternary_expressions
    }

    fn collection(model: &Model) -> (res: &ModelItems<Self>) {
        &model.ternary_expressions
    }
}

pub type BinaryExpression<'a> = Item<'a, BinaryExpressionData>;

impl ModelItem for BinaryExpressionData {
    open spec fn spec_collection(model: Model) -> ModelItems<Self> {
        model.binary_expressions
    }

    fn collection(model: &Model) -> (res: &ModelItems<Self>) {
        &model.binary_expressions
    }
}

pub type UnaryExpression<'a> = Item<'a, UnaryExpressionData>;

impl ModelItem for UnaryExpressionData {
    open spec fn spec_collection(model: Model) -> ModelItems<Self> {
        model.unary_expressions
    }

    fn collection(model: &Model) -> (res: &ModelItems<Self>) {
        &model.unary_expressions
    }
}

pub type BooleanLiteral<'a> = Item<'a, BooleanLiteralData>;

impl ModelItem for BooleanLiteralData {
    open spec fn spec_collection(model: Model) -> ModelItems<Self> {
        model.boolean_literals
    }

    fn collection(model: &Model) -> (res: &ModelItems<Self>) {
        &model.boolean_literals
    }
}

pub type NullLiteral<'a> = Item<'a, NullLiteralData>;

impl ModelItem for NullLiteralData {
    open spec fn spec_collection(model: Model) -> ModelItems<Self> {
        model.null_literals
    }

    fn collection(model: &Model) -> (res: &ModelItems<Self>) {
        &model.null_literals
    }
}

pub type StringLiteral<'a> = Item<'a, StringLiteralData>;

impl ModelItem for StringLiteralData {
    open spec fn spec_collection(model: Model) -> ModelItems<Self> {
        model.string_literals
    }

    fn collection(model: &Model) -> (res: &ModelItems<Self>) {
        &model.string_literals
    }
}

pub type IntLiteral<'a> = Item<'a, IntLiteralData>;

impl ModelItem for IntLiteralData {
    open spec fn spec_collection(model: Model) -> ModelItems<Self> {
        model.int_literals
    }

    fn collection(model: &Model) -> (res: &ModelItems<Self>) {
        &model.int_literals
    }
}

pub type DotAccessExpression<'a> = Item<'a, DotAccessExpressionData>;

impl ModelItem for DotAccessExpressionData {
    open spec fn spec_collection(model: Model) -> ModelItems<Self> {
        model.dot_access_expressions
    }

    fn collection(model: &Model) -> (res: &ModelItems<Self>) {
        &model.dot_access_expressions
    }
}

pub type IndexAccessExpression<'a> = Item<'a, IndexAccessExpressionData>;

impl ModelItem for IndexAccessExpressionData {
    open spec fn spec_collection(model: Model) -> ModelItems<Self> {
        model.index_access_expressions
    }

    fn collection(model: &Model) -> (res: &ModelItems<Self>) {
        &model.index_access_expressions
    }
}

pub type FunctionCallExpression<'a> = Item<'a, FunctionCallExpressionData>;

impl ModelItem for FunctionCallExpressionData {
    open spec fn spec_collection(model: Model) -> ModelItems<Self> {
        model.function_call_expressions
    }

    fn collection(model: &Model) -> (res: &ModelItems<Self>) {
        &model.function_call_expressions
    }
}

pub type NonNullAssertExpression<'a> = Item<'a, NonNullAssertExpressionData>;

impl ModelItem for NonNullAssertExpressionData {
    open spec fn spec_collection(model: Model) -> ModelItems<Self> {
        model.non_null_assert_expressions
    }

    fn collection(model: &Model) -> (res: &ModelItems<Self>) {
        &model.non_null_assert_expressions
    }
}

pub type IdentifierExpression<'a> = Item<'a, IdentifierExpressionData>;

impl ModelItem for IdentifierExpressionData {
    open spec fn spec_collection(model: Model) -> ModelItems<Self> {
        model.identifier_expressions
    }

    fn collection(model: &Model) -> (res: &ModelItems<Self>) {
        &model.identifier_expressions
    }
}

/// A statement handle: which kind of statement, and its item.
#[derive(Clone, Copy)]
pub enum Statement<'a> {
    Empty(EmptyStatement<'a>),
    Expression(ExpressionStatement<'a>),
    If(IfStatement<'a>),
    While(WhileStatement<'a>),
    Return(ReturnStatement<'a>),
    Break(BreakStatement<'a>),
    Continue(ContinueStatement<'a>),
    Block(BlockStatement<'a>),
    For(ForStatement<'a>),
    Switch(SwitchStatement<'a>),
    VarDecl(VarDeclStatement<'a>),
    FunctionDecl(FunctionDeclStatement<'a>),
    Labeled(LabeledStatement<'a>),
    Try(TryStatement<'a>),
}

impl<'a> Statement<'a> {
    pub open spec fn spec_new(model: &'a Model, value: StatementData) -> Self {
        match value {
            StatementData::EmptyStatement(p) => Statement::Empty(Item { model, ptr: p }),
            StatementData::ExpressionStatement(p) => Statement::Expression(Item { model, ptr: p }),
            StatementData::IfStatement(p) => Statement::If(Item { model, ptr: p }),
            StatementData::WhileStatement(p) => Statement::While(Item { model, ptr: p }),
            StatementData::ReturnStatement(p) => Statement::Return(Item { model, ptr: p }),
            StatementData::BreakStatement(p) => Statement::Break(Item { model, ptr: p }),
            StatementData::ContinueStatement(p) => Statement::Continue(Item { model, ptr: p }),
            StatementData::BlockStatement(p) => Statement::Block(Item { model, ptr: p }),
            StatementData::ForStatement(p) => Statement::For(Item { model, ptr: p }),
            StatementData::SwitchStatement(p) => Statement::Switch(Item { model, ptr: p }),
            StatementData::VarDeclStatement(p) => Statement::VarDecl(Item { model, ptr: p }),
            StatementData::FunctionDeclStatement(p) => Statement::FunctionDecl(Item { model, ptr: p }),
            StatementData::LabeledStatement(p) => Statement::Labeled(Item { model, ptr: p }),
            StatementData::TryStatement(p) => Statement::Try(Item { model, ptr: p }),
        }
    }

    pub fn new(model: &'a Model, value: StatementData) -> (res: Self)
        ensures
            res == Self::spec_new(model, value),
    {
        match value {
            StatementData::EmptyStatement(p) => Self::Empty(model.item(p)),
            StatementData::ExpressionStatement(p) => Self::Expression(model.item(p)),
            StatementData::IfStatement(p) => Self::If(model.item(p)),
            StatementData::WhileStatement(p) => Self::While(model.item(p)),
            StatementData::ReturnStatement(p) => Self::Return(model.item(p)),
            StatementData::BreakStatement(p) => Self::Break(model.item(p)),
            StatementData::ContinueStatement(p) => Self::Continue(model.item(p)),
            StatementData::BlockStatement(p) => Self::Block(model.item(p)),
            StatementData::ForStatement(p) => Self::For(model.item(p)),
            StatementData::SwitchStatement(p) => Self::Switch(model.item(p)),
            StatementData::VarDeclStatement(p) => Self::VarDecl(model.item(p)),
            StatementData::FunctionDeclStatement(p) => Self::FunctionDecl(model.item(p)),
            StatementData::LabeledStatement(p) => Self::Labeled(model.item(p)),
            StatementData::TryStatement(p) => Self::Try(model.item(p)),
        }
    }

    pub open spec fn spec_span(&self) -> Option<SourceLocation> {
        match self {
            Statement::Empty(x) => x.spec_span(),
            Statement::Expression(x) => x.spec_span(),
            Statement::If(x) => x.spec_span(),
            Statement::While(x) => x.spec_span(),
            Statement::Return(x) => x.spec_span(),
            Statement::Break(x) => x.spec_span(),
            Statement::Continue(x) => x.spec_span(),
            Statement::Block(x) => x.spec_span(),
            Statement::For(x) => x.spec_span(),
            Statement::Switch(x) => x.spec_span(),
            Statement::VarDecl(x) => x.spec_span(),
            Statement::FunctionDecl(x) => x.spec_span(),
            Statement::Labeled(x) => x.spec_span(),
            Statement::Try(x) => x.spec_span(),
        }
    }

    /// The source location of the wrapped item, if any.
    pub fn span(&self) -> (res: Option<&'a SourceLocation>)
        ensures
            match res {
                Some(r) => self.spec_span() == Some(*r),
                None => self.spec_span() is None,
            },
    {
        match self {
            Statement::Empty(x) => x.span(),
            Statement::Expression(x) => x.span(),
            Statement::If(x) => x.span(),
            Statement::While(x) => x.span(),
            Statement::Return(x) => x.span(),
            Statement::Break(x) => x.span(),
            Statement::Continue(x) => x.span(),
            Statement::Block(x) => x.span(),
            Statement::For(x) => x.span(),
            Statement::Switch(x) => x.span(),
            Statement::VarDecl(x) => x.span(),
            Statement::FunctionDecl(x) => x.span(),
            Statement::Labeled(x) => x.span(),
            Statement::Try(x) => x.span(),
        }
    }

    /// The wrapped item names an item of its collection.
    pub open spec fn valid(&self) -> bool {
        match self {
            Statement::Empty(x) => x.valid(),
            Statement::Expression(x) => x.valid(),
            Statement::If(x) => x.valid(),
            Statement::While(x) => x.valid(),
            Statement::Return(x) => x.valid(),
            Statement::Break(x) => x.valid(),
            Statement::Continue(x) => x.valid(),
            Statement::Block(x) => x.valid(),
            Statement::For(x) => x.valid(),
            Statement::Switch(x) => x.valid(),
            Statement::VarDecl(x) => x.valid(),
            Statement::FunctionDecl(x) => x.valid(),
            Statement::Labeled(x) => x.valid(),
            Statement::Try(x) => x.valid(),
        }
    }
}

/// An expression handle: which kind of expression, and its item.
#[derive(Clone, Copy)]
pub enum Expression<'a> {
    Comma(CommaExpression<'a>),
    Ternary(TernaryExpression<'a>),
    Binary(BinaryExpression<'a>),
    Unary(UnaryExpression<'a>),
    Boolean(BooleanLiteral<'a>),
    Null(NullLiteral<'a>),
    String(StringLiteral<'a>),
    Int(IntLiteral<'a>),
    DotAccess(DotAccessExpression<'a>),
    IndexAccess(IndexAccessExpression<'a>),
    FunctionCall(FunctionCallExpression<'a>),
    NonNullAssert(NonNullAssertExpression<'a>),
    Identifier(IdentifierExpression<'a>),
}

impl<'a> Expression<'a> {
    pub open spec fn spec_new(model: &'a Model, value: ExpressionData) -> Self {
        match value {
            ExpressionData::CommaExpression(p) => Expression::Comma(Item { model, ptr: p }),
            ExpressionData::TernaryExpression(p) => Expression::Ternary(Item { model, ptr: p }),
            ExpressionData::BinaryExpression(p) => Expression::Binary(Item { model, ptr: p }),
            ExpressionData::UnaryExpression(p) => Expression::Unary(Item { model, ptr: p }),
            ExpressionData::BooleanLiteral(p) => Expression::Boolean(Item { model, ptr: p }),
            ExpressionData::NullLiteral(p) => Expression::Null(Item { model, ptr: p }),
            ExpressionData::StringLiteral(p) => Expression::String(Item { model, ptr: p }),
            ExpressionData::IntLiteral(p) => Expression::Int(Item { model, ptr: p }),
            ExpressionData::DotAccessExpression(p) => Expression::DotAccess(Item { model, ptr: p }),
            ExpressionData::IndexAccessExpression(p) => Expression::IndexAccess(Item { model, ptr: p }),
            ExpressionData::FunctionCallExpression(p) => Expression::FunctionCall(Item { model, ptr: p }),
            ExpressionData::NonNullAssertExpression(p) => Expression::NonNullAssert(Item { model, ptr: p }),
            ExpressionData::IdentifierExpression(p) => Expression::Identifier(Item { model, ptr: p }),
        }
    }

    pub fn new(model: &'a Model, value: ExpressionData) -> (res: Self)
        ensures
            res == Self::spec_new(model, value),
    {
        match value {
            ExpressionData::CommaExpression(p) => Self::Comma(model.item(p)),
            ExpressionData::TernaryExpression(p) => Self::Ternary(model.item(p)),
            ExpressionData::BinaryExpression(p) => Self::Binary(model.item(p)),
            ExpressionData::UnaryExpression(p) => Self::Unary(model.item(p)),
            ExpressionData::BooleanLiteral(p) => Self::Boolean(model.item(p)),
            ExpressionData::NullLiteral(p) => Self::Null(model.item(p)),
            ExpressionData::StringLiteral(p) => Self::String(model.item(p)),
            ExpressionData::IntLiteral(p) => Self::Int(model.item(p)),
            ExpressionData::DotAccessExpression(p) => Self::DotAccess(model.item(p)),
            ExpressionData::IndexAccessExpression(p) => Self::IndexAccess(model.item(p)),
            ExpressionData::FunctionCallExpression(p) => Self::FunctionCall(model.item(p)),
            ExpressionData::NonNullAssertExpression(p) => Self::NonNullAssert(model.item(p)),
            ExpressionData::IdentifierExpression(p) => Self::Identifier(model.item(p)),
        }
    }

    pub open spec fn spec_span(&self) -> Option<SourceLocation> {
        match self {
            Expression::Comma(x) => x.spec_span(),
            Expression::Ternary(x) => x.spec_span(),
            Expression::Binary(x) => x.spec_span(),
            Expression::Unary(x) => x.spec_span(),
            Expression::Boolean(x) => x.spec_span(),
            Expression::Null(x) => x.spec_span(),
            Expression::String(x) => x.spec_span(),
            Expression::Int(x) => x.spec_span(),
            Expression::DotAccess(x) => x.spec_span(),
            Expression::IndexAccess(x) => x.spec_span(),
            Expression::FunctionCall(x) => x.spec_span(),
            Expression::NonNullAssert(x) => x.spec_span(),
            Expression::Identifier(x) => x.spec_span(),
        }
    }

    /// The source location of the wrapped item, if any.
    pub fn span(&self) -> (res: Option<&'a SourceLocation>)
        ensures
            match res {
                Some(r) => self.spec_span() == Some(*r),
                None => self.spec_span() is None,
            },
    {
        match self {
            Expression::Comma(x) => x.span(),
            Expression::Ternary(x) => x.span(),
            Expression::Binary(x) => x.span(),
            Expression::Unary(x) => x.span(),
            Expression::Boolean(x) => x.span(),
            Expression::Null(x) => x.span(),
            Expression::String(x) => x.span(),
            Expression::Int(x) => x.span(),
            Expression::DotAccess(x) => x.span(),
            Expression::IndexAccess(x) => x.span(),
            Expression::FunctionCall(x) => x.span(),
            Expression::NonNullAssert(x) => x.span(),
            Expression::Identifier(x) => x.span(),
        }
    }

    /// The wrapped item names an item of its collection.
    pub open spec fn valid(&self) -> bool {
        match self {
            Expression::Comma(x) => x.valid(),
            Expression::Ternary(x) => x.valid(),
            Expression::Binary(x) => x.valid(),
            Expression::Unary(x) => x.valid(),
            Expression::Boolean(x) => x.valid(),
            Expression::Null(x) => x.valid(),
            Expression::String(x) => x.valid(),
            Expression::Int(x) => x.valid(),
            Expression::DotAccess(x) => x.valid(),
            Expression::IndexAccess(x) => x.valid(),
            Expression::FunctionCall(x) => x.valid(),
            Expression::NonNullAssert(x) => x.valid(),
            Expression::Identifier(x) => x.valid(),
        }
    }
}


//--------------------------------------------------
// Growth and validity of models

/// `a` is a prefix of `b`.
pub open spec fn is_prefix<T>(a: Seq<T>, b: Seq<T>) -> bool {
    &&& a.len() <= b.len()
    &&& forall|i: int| 0 <= i < a.len() ==> #[trigger] b[i] == a[i]
}

/// A collection only grew: its old items stay where they were, and its kind is unchanged.
pub open spec fn items_grow<T>(old_items: ModelItems<T>, new_items: ModelItems<T>) -> bool {
    &&& is_prefix(old_items.items@, new_items.items@)
    &&& new_items.kind == old_items.kind
}

/// The pointer names an item of the collection, with the collection's kind.
pub open spec fn ptr_in<T>(items: ModelItems<T>, p: ItemPtr<T>) -> bool {
    &&& p.id < items.items@.len()
    &&& p.kind == items.kind
}

impl Model {
    /// Every collection only grew, the recorded spans only grew, and the source files are
    /// unchanged.
    pub open spec fn grows_to(&self, new: Model) -> bool {
        &&& new.source_files == self.source_files
        &&& self.items_grow_to(new)
    }

    /// Every collection only grew, and the recorded spans only grew, by entries for items that
    /// were not there before.
    pub open spec fn items_grow_to(&self, new: Model) -> bool {
        &&& is_prefix(self.span_table.entries@, new.span_table.entries@)
        &&& forall|j: int|
            self.span_table.entries@.len() <= j < new.span_table.entries@.len() ==> !self.key_in(
                #[trigger] new.span_table.entries@[j].0,
            )
        &&& items_grow(self.files, new.files)
        &&& items_grow(self.type_decls, new.type_decls)
        &&& items_grow(self.import_decls, new.import_decls)
        &&& items_grow(self.empty_statements, new.empty_statements)
        &&& items_grow(self.expression_statements, new.expression_statements)
        &&& items_grow(self.if_statements, new.if_statements)
        &&& items_grow(self.while_statements, new.while_statements)
        &&& items_grow(self.return_statements, new.return_statements)
        &&& items_grow(self.break_statements, new.break_statements)
        &&& items_grow(self.continue_statements, new.continue_statements)
        &&& items_grow(self.block_statements, new.block_statements)
        &&& items_grow(self.for_statements, new.for_statements)
        &&& items_grow(self.switch_statements, new.switch_statements)
        &&& items_grow(self.switch_body_statements, new.switch_body_statements)
        &&& items_grow(self.switch_cases, new.switch_cases)
        &&& items_grow(self.switch_defaults, new.switch_defaults)
        &&& items_grow(self.var_decl_statements, new.var_decl_statements)
        &&& items_grow(self.function_decl_statements, new.function_decl_statements)
        &&& items_grow(self.function_signatures, new.function_signatures)
        &&& items_grow(self.function_decl_args, new.function_decl_args)
        &&& items_grow(self.labeled_statements, new.labeled_statements)
        &&& items_grow(self.try_statements, new.try_statements)
        &&& items_grow(self.catch_clauses, new.catch_clauses)
        &&& items_grow(self.comma_expressions, new.comma_expressions)
        &&& items_grow(self.ternary_expressions, new.ternary_expressions)
        &&& items_grow(self.binary_expressions, new.binary_expressions)
        &&& items_grow(self.unary_expressions, new.unary_expressions)
        &&& items_grow(self.boolean_literals, new.boolean_literals)
        &&& items_grow(self.null_literals, new.null_literals)
        &&& items_grow(self.string_literals, new.string_literals)
        &&& items_grow(self.int_literals, new.int_literals)
        &&& items_grow(self.dot_access_expressions, new.dot_access_expressions)
        &&& items_grow(self.index_access_expressions, new.index_access_expressions)
        &&& items_grow(self.function_call_expressions, new.function_call_expressions)
        &&& items_grow(self.non_null_assert_expressions, new.non_null_assert_expressions)
        &&& items_grow(self.identifier_expressions, new.identifier_expressions)
    }

    /// The key names an item that the model holds.
    pub open spec fn key_in(&self, k: ItemKey) -> bool {
        match k.kind {
            ItemKind::File => k.id < self.files.items@.len(),
            ItemKind::TypeDecl => k.id < self.type_decls.items@.len(),
            ItemKind::ImportDecl => k.id < self.import_decls.items@.len(),
            ItemKind::EmptyStatement => k.id < self.empty_statements.items@.len(),
            ItemKind::ExpressionStatement => k.id < self.expression_statements.items@.len(),
            ItemKind::IfStatement => k.id < self.if_statements.items@.len(),
            ItemKind::WhileStatement => k.id < self.while_statements.items@.len(),
            ItemKind::ReturnStatement => k.id < self.return_statements.items@.len(),
            ItemKind::BreakStatement => k.id < self.break_statements.items@.len(),
            ItemKind::ContinueStatement => k.id < self.continue_statements.items@.len(),
            ItemKind::BlockStatement => k.id < self.block_statements.items@.len(),
            ItemKind::ForStatement => k.id < self.for_statements.items@.len(),
            ItemKind::SwitchStatement => k.id < self.switch_statements.items@.len(),
            ItemKind::SwitchBodyStatement => k.id < self.switch_body_statements.items@.len(),
            ItemKind::SwitchCase => k.id < self.switch_cases.items@.len(),
            ItemKind::SwitchDefault => k.id < self.switch_defaults.items@.len(),
            ItemKind::VarDeclStatement => k.id < self.var_decl_statements.items@.len(),
            ItemKind::FunctionDeclStatement => k.id < self.function_decl_statements.items@.len(),
            ItemKind::FunctionSignature => k.id < self.function_signatures.items@.len(),
            ItemKind::FunctionDeclArg => k.id < self.function_decl_args.items@.len(),
            ItemKind::LabeledStatement => k.id < self.labeled_statements.items@.len(),
            ItemKind::TryStatement => k.id < self.try_statements.items@.len(),
            ItemKind::CatchClause => k.id < self.catch_clauses.items@.len(),
            ItemKind::CommaExpression => k.id < self.comma_expressions.items@.len(),
            ItemKind::TernaryExpression => k.id < self.ternary_expressions.items@.len(),
            ItemKind::BinaryExpression => k.id < self.binary_expressions.items@.len(),
            ItemKind::UnaryExpression => k.id < self.unary_expressions.items@.len(),
            ItemKind::BooleanLiteral => k.id < self.boolean_literals.items@.len(),
            ItemKind::NullLiteral => k.id < self.null_literals.items@.len(),
            ItemKind::StringLiteral => k.id < self.string_literals.items@.len(),
            ItemKind::IntLiteral => k.id < self.int_literals.items@.len(),
            ItemKind::DotAccessExpression => k.id < self.dot_access_expressions.items@.len(),
            ItemKind::IndexAccessExpression => k.id < self.index_access_expressions.items@.len(),
            ItemKind::FunctionCallExpression => k.id < self.function_call_expressions.items@.len(),
            ItemKind::NonNullAssertExpression => k.id < self.non_null_assert_expressions.items@.len(),
            ItemKind::IdentifierExpression => k.id < self.identifier_expressions.items@.len(),
            ItemKind::FileItem | ItemKind::Statement | ItemKind::Expression => false,
        }
    }

    /// Each collection is tagged with its own kind.
    pub open spec fn kinds_ok(&self) -> bool {
        &&& self.files.kind == ItemKind::File
        &&& self.type_decls.kind == ItemKind::TypeDecl
        &&& self.import_decls.kind == ItemKind::ImportDecl
        &&& self.empty_statements.kind == ItemKind::EmptyStatement
        &&& self.expression_statements.kind == ItemKind::ExpressionStatement
        &&& self.if_statements.kind == ItemKind::IfStatement
        &&& self.while_statements.kind == ItemKind::WhileStatement
        &&& self.return_statements.kind == ItemKind::ReturnStatement
        &&& self.break_statements.kind == ItemKind::BreakStatement
        &&& self.continue_statements.kind == ItemKind::ContinueStatement
        &&& self.block_statements.kind == ItemKind::BlockStatement
        &&& self.for_statements.kind == ItemKind::ForStatement
        &&& self.switch_statements.kind == ItemKind::SwitchStatement
        &&& self.switch_body_statements.kind == ItemKind::SwitchBodyStatement
        &&& self.switch_cases.kind == ItemKind::SwitchCase
        &&& self.switch_defaults.kind == ItemKind::SwitchDefault
        &&& self.var_decl_statements.kind == ItemKind::VarDeclStatement
        &&& self.function_decl_statements.kind == ItemKind::FunctionDeclStatement
        &&& self.function_signatures.kind == ItemKind::FunctionSignature
        &&& self.function_decl_args.kind == ItemKind::FunctionDeclArg
        &&& self.labeled_statements.kind == ItemKind::LabeledStatement
        &&& self.try_statements.kind == ItemKind::TryStatement
        &&& self.catch_clauses.kind == ItemKind::CatchClause
        &&& self.comma_expressions.kind == ItemKind::CommaExpression
        &&& self.ternary_expressions.kind == ItemKind::TernaryExpression
        &&& self.binary_expressions.kind == ItemKind::BinaryExpression
        &&& self.unary_expressions.kind == ItemKind::UnaryExpression
        &&& self.boolean_literals.kind == ItemKind::BooleanLiteral
        &&& self.null_literals.kind == ItemKind::NullLiteral
        &&& self.string_literals.kind == ItemKind::StringLiteral
        &&& self.int_literals.kind == ItemKind::IntLiteral
        &&& self.dot_access_expressions.kind == ItemKind::DotAccessExpression
        &&& self.index_access_expressions.kind == ItemKind::IndexAccessExpression
        &&& self.function_call_expressions.kind == ItemKind::FunctionCallExpression
        &&& self.non_null_assert_expressions.kind == ItemKind::NonNullAssertExpression
        &&& self.identifier_expressions.kind == ItemKind::IdentifierExpression
    }

    pub open spec fn stmt_valid(&self, s: StatementData) -> bool {
        match s {
            StatementData::EmptyStatement(p) => ptr_in(self.empty_statements, p),
            StatementData::ExpressionStatement(p) => ptr_in(self.expression_statements, p),
            StatementData::IfStatement(p) => ptr_in(self.if_statements, p),
            StatementData::WhileStatement(p) => ptr_in(self.while_statements, p),
            StatementData::ReturnStatement(p) => ptr_in(self.return_statements, p),
            StatementData::BreakStatement(p) => ptr_in(self.break_statements, p),
            StatementData::ContinueStatement(p) => ptr_in(self.continue_statements, p),
            StatementData::BlockStatement(p) => ptr_in(self.block_statements, p),
            StatementData::ForStatement(p) => ptr_in(self.for_statements, p),
            StatementData::SwitchStatement(p) => ptr_in(self.switch_statements, p),
            StatementData::VarDeclStatement(p) => ptr_in(self.var_decl_statements, p),
            StatementData::FunctionDeclStatement(p) => ptr_in(self.function_decl_statements, p),
            StatementData::LabeledStatement(p) => ptr_in(self.labeled_statements, p),
            StatementData::TryStatement(p) => ptr_in(self.try_statements, p),
        }
    }

    /// The statement is the last item of its collection.
    pub open spec fn stmt_last(&self, s: StatementData) -> bool {
        match s {
            StatementData::EmptyStatement(p) => p.id + 1 == self.empty_statements.items@.len(),
            StatementData::ExpressionStatement(p) => p.id + 1 == self.expression_statements.items@.len(),
            StatementData::IfStatement(p) => p.id + 1 == self.if_statements.items@.len(),
            StatementData::WhileStatement(p) => p.id + 1 == self.while_statements.items@.len(),
            StatementData::ReturnStatement(p) => p.id + 1 == self.return_statements.items@.len(),
            StatementData::BreakStatement(p) => p.id + 1 == self.break_statements.items@.len(),
            StatementData::ContinueStatement(p) => p.id + 1 == self.continue_statements.items@.len(),
            StatementData::BlockStatement(p) => p.id + 1 == self.block_statements.items@.len(),
            StatementData::ForStatement(p) => p.id + 1 == self.for_statements.items@.len(),
            StatementData::SwitchStatement(p) => p.id + 1 == self.switch_statements.items@.len(),
            StatementData::VarDeclStatement(p) => p.id + 1 == self.var_decl_statements.items@.len(),
            StatementData::FunctionDeclStatement(p) => p.id + 1 == self.function_decl_statements.items@.len(),
            StatementData::LabeledStatement(p) => p.id + 1 == self.labeled_statements.items@.len(),
            StatementData::TryStatement(p) => p.id + 1 == self.try_statements.items@.len(),
        }
    }

    pub open spec fn expr_valid(&self, e: ExpressionData) -> bool {
        match e {
            ExpressionData::CommaExpression(p) => ptr_in(self.comma_expressions, p),
            ExpressionData::TernaryExpression(p) => ptr_in(self.ternary_expressions, p),
            ExpressionData::BinaryExpression(p) => ptr_in(self.binary_expressions, p),
            ExpressionData::UnaryExpression(p) => ptr_in(self.unary_expressions, p),
            ExpressionData::BooleanLiteral(p) => ptr_in(self.boolean_literals, p),
            ExpressionData::NullLiteral(p) => ptr_in(self.null_literals, p),
            ExpressionData::StringLiteral(p) => ptr_in(self.string_literals, p),
            ExpressionData::IntLiteral(p) => ptr_in(self.int_literals, p),
            ExpressionData::DotAccessExpression(p) => ptr_in(self.dot_access_expressions, p),
            ExpressionData::IndexAccessExpression(p) => ptr_in(self.index_access_expressions, p),
            ExpressionData::FunctionCallExpression(p) => ptr_in(self.function_call_expressions, p),
            ExpressionData::NonNullAssertExpression(p) => ptr_in(self.non_null_assert_expressions, p),
            ExpressionData::IdentifierExpression(p) => ptr_in(self.identifier_expressions, p),
        }
    }

    pub open spec fn opt_expr_valid(&self, e: Option<ExpressionData>) -> bool {
        match e {
            Some(e) => self.expr_valid(e),
            None => true,
        }
    }

    pub open spec fn opt_stmt_valid(&self, s: Option<StatementData>) -> bool {
        match s {
            Some(s) => self.stmt_valid(s),
            None => true,
        }
    }
}

impl StatementData {
    /// The key of the statement's item.
    pub open spec fn spec_key(self) -> ItemKey {
        match self {
            StatementData::EmptyStatement(p) => p.spec_key(),
            StatementData::ExpressionStatement(p) => p.spec_key(),
            StatementData::IfStatement(p) => p.spec_key(),
            StatementData::WhileStatement(p) => p.spec_key(),
            StatementData::ReturnStatement(p) => p.spec_key(),
            StatementData::BreakStatement(p) => p.spec_key(),
            StatementData::ContinueStatement(p) => p.spec_key(),
            StatementData::BlockStatement(p) => p.spec_key(),
            StatementData::ForStatement(p) => p.spec_key(),
            StatementData::SwitchStatement(p) => p.spec_key(),
            StatementData::VarDeclStatement(p) => p.spec_key(),
            StatementData::FunctionDeclStatement(p) => p.spec_key(),
            StatementData::LabeledStatement(p) => p.spec_key(),
            StatementData::TryStatement(p) => p.spec_key(),
        }
    }
}

impl FileItemData {
    /// The key of the file item's item.
    pub open spec fn spec_key(self) -> ItemKey {
        match self {
            FileItemData::ImportDecl(p) => p.spec_key(),
            FileItemData::TypeDecl(p) => p.spec_key(),
            FileItemData::Statement(s) => s.spec_key(),
        }
    }
}

impl Model {
    pub open spec fn file_item_valid(&self, fi: FileItemData) -> bool {
        match fi {
            FileItemData::ImportDecl(p) => ptr_in(self.import_decls, p),
            FileItemData::TypeDecl(p) => ptr_in(self.type_decls, p),
            FileItemData::Statement(s) => self.stmt_valid(s),
        }
    }
}

/// A valid statement of a model with well-kinded collections has its key in the model.
pub proof fn lemma_stmt_key_in(m: Model, st: StatementData)
    requires
        m.kinds_ok(),
        m.stmt_valid(st),
    ensures
        m.key_in(st.spec_key()),
{
}

/// A valid file item of a model with well-kinded collections has its key in the model, and
/// that key is not a file's.
pub proof fn lemma_file_item_key_in(m: Model, fi: FileItemData)
    requires
        m.kinds_ok(),
        m.file_item_valid(fi),
    ensures
        m.key_in(fi.spec_key()),
        fi.spec_key().kind != ItemKind::File,
{
}

/// Entries for other keys, appended after the last entry for a key, leave its lookup as it
/// was.
pub proof fn lemma_lookup_last_append<K, V>(a: Seq<(K, V)>, b: Seq<(K, V)>, key: K)
    requires
        forall|j: int| 0 <= j < b.len() ==> (#[trigger] b[j]).0 != key,
    ensures
        lookup_last(a + b, key) == lookup_last(a, key),
    decreases b.len(),
{
    if b.len() > 0 {
        assert((a + b).drop_last() =~= a + b.drop_last());
        lemma_lookup_last_append(a, b.drop_last(), key);
    } else {
        assert(a + b =~= a);
    }
}

/// Growing a model keeps the location recorded for every item that it held: new entries of
/// the span table only name new items.
pub proof fn lemma_growth_keeps_spans(m1: Model, m2: Model, k: ItemKey)
    requires
        m1.items_grow_to(m2),
        m1.key_in(k),
    ensures
        m2.span_table.spec_get(k) == m1.span_table.spec_get(k),
{
    let a = m1.span_table.entries@;
    let n = m2.span_table.entries@;
    let b = n.subrange(a.len() as int, n.len() as int);
    assert(n =~= a + b);
    assert forall|j: int| 0 <= j < b.len() implies (#[trigger] b[j]).0 != k by {
        assert(b[j] == n[a.len() + j]);
    }
    lemma_lookup_last_append(a, b, k);
}

/// Growing a model keeps every file that it held, with its items, and keeps the model's
/// collections tagged with their kinds.
pub proof fn lemma_growth_keeps_files(m1: Model, m2: Model, p: ItemPtr<FileData>)
    requires
        m1.items_grow_to(m2),
        p.id < m1.files.items@.len(),
    ensures
        p.id < m2.files.items@.len(),
        m2.files.items@[p.id as int] == m1.files.items@[p.id as int],
        m1.kinds_ok() ==> m2.kinds_ok(),
{
}

/// Validity of pointers survives growth.
pub proof fn lemma_valid_grows(m1: Model, m2: Model)
    requires
        m1.grows_to(m2),
    ensures
        forall|s: StatementData| m1.stmt_valid(s) ==> #[trigger] m2.stmt_valid(s),
        forall|e: ExpressionData| m1.expr_valid(e) ==> #[trigger] m2.expr_valid(e),
        forall|fi: FileItemData| m1.file_item_valid(fi) ==> #[trigger] m2.file_item_valid(fi),
{
}

/// Growth is transitive.
pub proof fn lemma_grows_trans(m1: Model, m2: Model, m3: Model)
    requires
        m1.grows_to(m2),
        m2.grows_to(m3),
    ensures
        m1.grows_to(m3),
{
}

/// Growth is reflexive.
pub proof fn lemma_grows_refl(m: Model)
    ensures
        m.grows_to(m),
{
}
/// An item of a file: an import, a type declaration or a statement.
#[derive(Clone, Copy)]
pub enum FileItem<'a> {
    ImportDecl(ImportDecl<'a>),
    TypeDecl(TypeDecl<'a>),
    Statement(Statement<'a>),
}

impl<'a> FileItem<'a> {
    pub open spec fn spec_new(model: &'a Model, value: FileItemData) -> Self {
        match value {
            FileItemData::ImportDecl(p) => FileItem::ImportDecl(Item { model, ptr: p }),
            FileItemData::TypeDecl(p) => FileItem::TypeDecl(Item { model, ptr: p }),
            FileItemData::Statement(p) => FileItem::Statement(Statement::spec_new(model, p)),
        }
    }

    pub fn new(model: &'a Model, value: FileItemData) -> (res: Self)
        ensures
            res == Self::spec_new(model, value),
    {
        match value {
            FileItemData::ImportDecl(p) => Self::ImportDecl(model.item(p)),
            FileItemData::TypeDecl(p) => Self::TypeDecl(model.item(p)),
            FileItemData::Statement(p) => Self::Statement(Statement::new(model, p)),
        }
    }
}

/// The initializer of a for statement.
#[derive(Clone, Copy)]
pub enum ForInit<'a> {
    Expression(Expression<'a>),
    VarDecl(Statement<'a>),
}

impl<'a> ForInit<'a> {
    pub open spec fn spec_new(model: &'a Model, value: ForInitData) -> Self {
        match value {
            ForInitData::Expression(p) => ForInit::Expression(Expression::spec_new(model, p)),
            ForInitData::VarDecl(p) => ForInit::VarDecl(Statement::spec_new(model, p)),
        }
    }

    pub fn new(model: &'a Model, value: ForInitData) -> (res: Self)
        ensures
            res == Self::spec_new(model, value),
    {
        match value {
            ForInitData::Expression(p) => Self::Expression(Expression::new(model, p)),
            ForInitData::VarDecl(p) => Self::VarDecl(Statement::new(model, p)),
        }
    }
}

/// An item of a switch body.
#[derive(Clone, Copy)]
pub enum SwitchItem<'a> {
    Statement(SwitchBodyStatement<'a>),
    Case(SwitchCase<'a>),
    Default(SwitchDefault<'a>),
}

impl<'a> SwitchItem<'a> {
    pub open spec fn spec_new(model: &'a Model, value: SwitchItemData) -> Self {
        match value {
            SwitchItemData::Statement(p) => SwitchItem::Statement(Item { model, ptr: p }),
            SwitchItemData::Case(p) => SwitchItem::Case(Item { model, ptr: p }),
            SwitchItemData::Default(p) => SwitchItem::Default(Item { model, ptr: p }),
        }
    }

    pub fn new(model: &'a Model, value: SwitchItemData) -> (res: Self)
        ensures
            res == Self::spec_new(model, value),
    {
        match value {
            SwitchItemData::Statement(p) => Self::Statement(model.item(p)),
            SwitchItemData::Case(p) => Self::Case(model.item(p)),
            SwitchItemData::Default(p) => Self::Default(model.item(p)),
        }
    }
}

//--------------------------------------------------
// Accessors — one impl per item type. Written on the domain alias.

impl<'a> File<'a> {
    pub fn items(&self) -> (res: Vec<FileItem<'a>>)
        requires
            self.valid(),
        ensures
            res@.len() == self.spec_data().items@.len(),
            forall|i: int|
                0 <= i < res@.len() ==> res@[i] == FileItem::spec_new(self.model, self.spec_data().items@[i]),
    {
        let model = self.model();
        let data = self.data();
        let mut res: Vec<FileItem<'a>> = Vec::new();
        let mut i: usize = 0;
        while i < data.items.len()
            invariant
                model == self.model,
                *data == self.spec_data(),
                i <= data.items@.len(),
                res@.len() == i,
                forall|j: int| 0 <= j < i ==> res@[j] == FileItem::spec_new(self.model, self.spec_data().items@[j]),
            decreases data.items@.len() - i,
        {
            res.push(FileItem::new(model, data.items[i]));
            i = i + 1;
        }
        res
    }
}

impl<'a> ImportDecl<'a> {
    pub fn name(&self) -> (res: &'a str)
        requires
            self.valid(),
        ensures
            res@ == self.spec_data().name@,
    {
        self.data().name.as_str()
    }
    pub fn source(&self) -> (res: &'a str)
        requires
            self.valid(),
        ensures
            res@ == self.spec_data().source@,
    {
        self.data().source.as_str()
    }
}

impl<'a> ExpressionStatement<'a> {
    pub fn exp(&self) -> (res: Expression<'a>)
        requires
            self.valid(),
        ensures
            res == Expression::spec_new(self.model, self.spec_data().exp),
    {
        Expression::new(self.model(), self.data().exp)
    }
}

impl<'a> IfStatement<'a> {
    pub fn test(&self) -> (res: Expression<'a>)
        requires
            self.valid(),
        ensures
            res == Expression::spec_new(self.model, self.spec_data().test),
    {
        Expression::new(self.model(), self.data().test)
    }
    pub fn if_true(&self) -> (res: Statement<'a>)
        requires
            self.valid(),
        ensures
            res == Statement::spec_new(self.model, self.spec_data().if_true),
    {
        Statement::new(self.model(), self.data().if_true)
    }
    pub fn if_false(&self) -> (res: Option<Statement<'a>>)
        requires
            self.valid(),
        ensures
            res == match self.spec_data().if_false {
                Some(v) => Some(Statement::spec_new(self.model, v)),
                None => None,
            },
    {
        let model = self.model();
        match self.data().if_false {
            Some(v) => Some(Statement::new(model, v)),
            None => None,
        }
    }
}

impl<'a> WhileStatement<'a> {
    pub fn test(&self) -> (res: Expression<'a>)
        requires
            self.valid(),
        ensures
            res == Expression::spec_new(self.model, self.spec_data().test),
    {
        Expression::new(self.model(), self.data().test)
    }
    pub fn stmt(&self) -> (res: Statement<'a>)
        requires
            self.valid(),
        ensures
            res == Statement::spec_new(self.model, self.spec_data().stmt),
    {
        Statement::new(self.model(), self.data().stmt)
    }
}

impl<'a> ReturnStatement<'a> {
    pub fn exp(&self) -> (res: Option<Expression<'a>>)
        requires
            self.valid(),
        ensures
            res == match self.spec_data().exp {
                Some(v) => Some(Expression::spec_new(self.model, v)),
                None => None,
            },
    {
        let model = self.model();
        match self.data().exp {
            Some(v) => Some(Expression::new(model, v)),
            None => None,
        }
    }
}

impl<'a> BreakStatement<'a> {
    pub fn label(&self) -> (res: Option<&'a str>)
        requires
            self.valid(),
        ensures
            res is Some == self.spec_data().label is Some,
            res is Some ==> res->0@ == self.spec_data().label->0@,
    {
        match &self.data().label {
            Some(s) => Some(s.as_str()),
            None => None,
        }
    }
}

impl<'a> ContinueStatement<'a> {
    pub fn label(&self) -> (res: Option<&'a str>)
        requires
            self.valid(),
        ensures
            res is Some == self.spec_data().label is Some,
            res is Some ==> res->0@ == self.spec_data().label->0@,
    {
        match &self.data().label {
            Some(s) => Some(s.as_str()),
            None => None,
        }
    }
}

impl<'a> BlockStatement<'a> {
    pub fn stmts(&self) -> (res: Vec<Statement<'a>>)
        requires
            self.valid(),
        ensures
            res@.len() == self.spec_data().stmts@.len(),
            forall|i: int|
                0 <= i < res@.len() ==> res@[i] == Statement::spec_new(self.model, self.spec_data().stmts@[i]),
    {
        let model = self.model();
        let data = self.data();
        let mut res: Vec<Statement<'a>> = Vec::new();
        let mut i: usize = 0;
        while i < data.stmts.len()
            invariant
                model == self.model,
                *data == self.spec_data(),
                i <= data.stmts@.len(),
                res@.len() == i,
                forall|j: int| 0 <= j < i ==> res@[j] == Statement::spec_new(self.model, self.spec_data().stmts@[j]),
            decreases data.stmts@.len() - i,
        {
            res.push(Statement::new(model, data.stmts[i]));
            i = i + 1;
        }
        res
    }
}

impl<'a> ForStatement<'a> {
    pub fn init(&self) -> (res: Option<ForInit<'a>>)
        requires
            self.valid(),
        ensures
            res == match self.spec_data().init {
                Some(v) => Some(ForInit::spec_new(self.model, v)),
                None => None,
            },
    {
        let model = self.model();
        match self.data().init {
            Some(v) => Some(ForInit::new(model, v)),
            None => None,
        }
    }
    pub fn test(&self) -> (res: Option<Expression<'a>>)
        requires
            self.valid(),
        ensures
            res == match self.spec_data().test {
                Some(v) => Some(Expression::spec_new(self.model, v)),
                None => None,
            },
    {
        let model = self.model();
        match self.data().test {
            Some(v) => Some(Expression::new(model, v)),
            None => None,
        }
    }
    pub fn advance(&self) -> (res: Option<Expression<'a>>)
        requires
            self.valid(),
        ensures
            res == match self.spec_data().advance {
                Some(v) => Some(Expression::spec_new(self.model, v)),
                None => None,
            },
    {
        let model = self.model();
        match self.data().advance {
            Some(v) => Some(Expression::new(model, v)),
            None => None,
        }
    }
    pub fn stmt(&self) -> (res: Statement<'a>)
        requires
            self.valid(),
        ensures
            res == Statement::spec_new(self.model, self.spec_data().stmt),
    {
        Statement::new(self.model(), self.data().stmt)
    }
}

impl<'a> SwitchStatement<'a> {
    pub fn exp(&self) -> (res: Expression<'a>)
        requires
            self.valid(),
        ensures
            res == Expression::spec_new(self.model, self.spec_data().exp),
    {
        Expression::new(self.model(), self.data().exp)
    }
    pub fn items(&self) -> (res: Vec<SwitchItem<'a>>)
        requires
            self.valid(),
        ensures
            res@.len() == self.spec_data().items@.len(),
            forall|i: int|
                0 <= i < res@.len() ==> res@[i] == SwitchItem::spec_new(self.model, self.spec_data().items@[i]),
    {
        let model = self.model();
        let data = self.data();
        let mut res: Vec<SwitchItem<'a>> = Vec::new();
        let mut i: usize = 0;
        while i < data.items.len()
            invariant
                model == self.model,
                *data == self.spec_data(),
                i <= data.items@.len(),
                res@.len() == i,
                forall|j: int| 0 <= j < i ==> res@[j] == SwitchItem::spec_new(self.model, self.spec_data().items@[j]),
            decreases data.items@.len() - i,
        {
            res.push(SwitchItem::new(model, data.items[i]));
            i = i + 1;
        }
        res
    }
}

impl<'a> SwitchBodyStatement<'a> {
    pub fn stmt(&self) -> (res: Statement<'a>)
        requires
            self.valid(),
        ensures
            res == Statement::spec_new(self.model, self.spec_data().stmt),
    {
        Statement::new(self.model(), self.data().stmt)
    }
}

impl<'a> SwitchCase<'a> {
    pub fn exp(&self) -> (res: Expression<'a>)
        requires
            self.valid(),
        ensures
            res == Expression::spec_new(self.model, self.spec_data().exp),
    {
        Expression::new(self.model(), self.data().exp)
    }
}

impl<'a> VarDeclStatement<'a> {
    pub fn let_or_const(&self) -> (res: LetOrConst)
        requires
            self.valid(),
        ensures
            res == self.spec_data().let_or_const,
    {
        self.data().let_or_const
    }
    pub fn name(&self) -> (res: &'a str)
        requires
            self.valid(),
        ensures
            res@ == self.spec_data().name@,
    {
        self.data().name.as_str()
    }
    pub fn init(&self) -> (res: Option<Expression<'a>>)
        requires
            self.valid(),
        ensures
            res == match self.spec_data().init {
                Some(v) => Some(Expression::spec_new(self.model, v)),
                None => None,
            },
    {
        let model = self.model();
        match self.data().init {
            Some(v) => Some(Expression::new(model, v)),
            None => None,
        }
    }
}

impl<'a> FunctionDeclStatement<'a> {
    pub fn name(&self) -> (res: &'a str)
        requires
            self.valid(),
        ensures
            res@ == self.spec_data().name@,
    {
        self.data().name.as_str()
    }
    pub fn signature(&self) -> (res: FunctionSignature<'a>)
        requires
            self.valid(),
        ensures
            res == (Item { model: self.model, ptr: self.spec_data().signature }),
    {
        self.model().item(self.data().signature)
    }
    pub fn body(&self) -> (res: Statement<'a>)
        requires
            self.valid(),
        ensures
            res == Statement::spec_new(self.model, self.spec_data().body),
    {
        Statement::new(self.model(), self.data().body)
    }
}

impl<'a> FunctionSignature<'a> {
    pub fn args(&self) -> (res: Vec<FunctionDeclArg<'a>>)
        requires
            self.valid(),
        ensures
            res@.len() == self.spec_data().args@.len(),
            forall|i: int|
                0 <= i < res@.len() ==> res@[i] == (Item { model: self.model, ptr: self.spec_data().args@[i] }),
    {
        let model = self.model();
        let data = self.data();
        let mut res: Vec<FunctionDeclArg<'a>> = Vec::new();
        let mut i: usize = 0;
        while i < data.args.len()
            invariant
                model == self.model,
                *data == self.spec_data(),
                i <= data.args@.len(),
                res@.len() == i,
                forall|j: int| 0 <= j < i ==> res@[j] == (Item { model: self.model, ptr: self.spec_data().args@[j] }),
            decreases data.args@.len() - i,
        {
            res.push(model.item(data.args[i]));
            i = i + 1;
        }
        res
    }
}

impl<'a> FunctionDeclArg<'a> {
    pub fn name(&self) -> (res: &'a str)
        requires
            self.valid(),
        ensures
            res@ == self.spec_data().name@,
    {
        self.data().name.as_str()
    }
}

impl<'a> LabeledStatement<'a> {
    pub fn name(&self) -> (res: &'a str)
        requires
            self.valid(),
        ensures
            res@ == self.spec_data().name@,
    {
        self.data().name.as_str()
    }
    pub fn stmt(&self) -> (res: Statement<'a>)
        requires
            self.valid(),
        ensures
            res == Statement::spec_new(self.model, self.spec_data().stmt),
    {
        Statement::new(self.model(), self.data().stmt)
    }
}

impl<'a> TryStatement<'a> {
    pub fn stmt(&self) -> (res: Statement<'a>)
        requires
            self.valid(),
        ensures
            res == Statement::spec_new(self.model, self.spec_data().stmt),
    {
        Statement::new(self.model(), self.data().stmt)
    }
    pub fn catch_clause(&self) -> (res: Option<CatchClause<'a>>)
        requires
            self.valid(),
        ensures
            res == match self.spec_data().catch_clause {
                Some(p) => Some(Item { model: self.model, ptr: p }),
                None => None,
            },
    {
        let model = self.model();
        match self.data().catch_clause {
            Some(p) => Some(model.item(p)),
            None => None,
        }
    }
    pub fn finally_clause(&self) -> (res: Option<Statement<'a>>)
        requires
            self.valid(),
        ensures
            res == match self.spec_data().finally_clause {
                Some(v) => Some(Statement::spec_new(self.model, v)),
                None => None,
            },
    {
        let model = self.model();
        match self.data().finally_clause {
            Some(v) => Some(Statement::new(model, v)),
            None => None,
        }
    }
}

impl<'a> CatchClause<'a> {
    pub fn name(&self) -> (res: Option<&'a str>)
        requires
            self.valid(),
        ensures
            res is Some == self.spec_data().name is Some,
            res is Some ==> res->0@ == self.spec_data().name->0@,
    {
        match &self.data().name {
            Some(s) => Some(s.as_str()),
            None => None,
        }
    }
    pub fn stmt(&self) -> (res: Statement<'a>)
        requires
            self.valid(),
        ensures
            res == Statement::spec_new(self.model, self.spec_data().stmt),
    {
        Statement::new(self.model(), self.data().stmt)
    }
}

impl<'a> CommaExpression<'a> {
    pub fn exps(&self) -> (res: Vec<Expression<'a>>)
        requires
            self.valid(),
        ensures
            res@.len() == self.spec_data().exps@.len(),
            forall|i: int|
                0 <= i < res@.len() ==> res@[i] == Expression::spec_new(self.model, self.spec_data().exps@[i]),
    {
        let model = self.model();
        let data = self.data();
        let mut res: Vec<Expression<'a>> = Vec::new();
        let mut i: usize = 0;
        while i < data.exps.len()
            invariant
                model == self.model,
                *data == self.spec_data(),
                i <= data.exps@.len(),
                res@.len() == i,
                forall|j: int| 0 <= j < i ==> res@[j] == Expression::spec_new(self.model, self.spec_data().exps@[j]),
            decreases data.exps@.len() - i,
        {
            res.push(Expression::new(model, data.exps[i]));
            i = i + 1;
        }
        res
    }
}

impl<'a> TernaryExpression<'a> {
    pub fn test(&self) -> (res: Expression<'a>)
        requires
            self.valid(),
        ensures
            res == Expression::spec_new(self.model, self.spec_data().test),
    {
        Expression::new(self.model(), self.data().test)
    }
    pub fn if_true(&self) -> (res: Expression<'a>)
        requires
            self.valid(),
        ensures
            res == Expression::spec_new(self.model, self.spec_data().if_true),
    {
        Expression::new(self.model(), self.data().if_true)
    }
    pub fn if_false(&self) -> (res: Expression<'a>)
        requires
            self.valid(),
        ensures
            res == Expression::spec_new(self.model, self.spec_data().if_false),
    {
        Expression::new(self.model(), self.data().if_false)
    }
}

impl<'a> BinaryExpression<'a> {
    pub fn left(&self) -> (res: Expression<'a>)
        requires
            self.valid(),
        ensures
            res == Expression::spec_new(self.model, self.spec_data().left),
    {
        Expression::new(self.model(), self.data().left)
    }
    pub fn op(&self) -> (res: BinaryOp)
        requires
            self.valid(),
        ensures
            res == self.spec_data().op,
    {
        self.data().op
    }
    pub fn right(&self) -> (res: Expression<'a>)
        requires
            self.valid(),
        ensures
            res == Expression::spec_new(self.model, self.spec_data().right),
    {
        Expression::new(self.model(), self.data().right)
    }
}

impl<'a> UnaryExpression<'a> {
    pub fn op(&self) -> (res: UnaryOp)
        requires
            self.valid(),
        ensures
            res == self.spec_data().op,
    {
        self.data().op
    }
    pub fn exp(&self) -> (res: Expression<'a>)
        requires
            self.valid(),
        ensures
            res == Expression::spec_new(self.model, self.spec_data().exp),
    {
        Expression::new(self.model(), self.data().exp)
    }
}

impl<'a> BooleanLiteral<'a> {
    pub fn value(&self) -> (res: bool)
        requires
            self.valid(),
        ensures
            res == self.spec_data().value,
    {
        self.data().value
    }
}

impl<'a> StringLiteral<'a> {
    pub fn value(&self) -> (res: &'a str)
        requires
            self.valid(),
        ensures
            res@ == self.spec_data().value@,
    {
        self.data().value.as_str()
    }
}

impl<'a> IntLiteral<'a> {
    pub fn value(&self) -> (res: u64)
        requires
            self.valid(),
        ensures
            res == self.spec_data().value,
    {
        self.data().value
    }
    pub fn suffix(&self) -> (res: Option<IntLiteralSuffix>)
        requires
            self.valid(),
        ensures
            res == self.spec_data().suffix,
    {
        self.data().suffix
    }
}

impl<'a> DotAccessExpression<'a> {
    pub fn exp(&self) -> (res: Expression<'a>)
        requires
            self.valid(),
        ensures
            res == Expression::spec_new(self.model, self.spec_data().exp),
    {
        Expression::new(self.model(), self.data().exp)
    }
    pub fn name(&self) -> (res: &'a str)
        requires
            self.valid(),
        ensures
            res@ == self.spec_data().name@,
    {
        self.data().name.as_str()
    }
}

impl<'a> IndexAccessExpression<'a> {
    pub fn exp(&self) -> (res: Expression<'a>)
        requires
            self.valid(),
        ensures
            res == Expression::spec_new(self.model, self.spec_data().exp),
    {
        Expression::new(self.model(), self.data().exp)
    }
    pub fn access_exp(&self) -> (res: Expression<'a>)
        requires
            self.valid(),
        ensures
            res == Expression::spec_new(self.model, self.spec_data().access_exp),
    {
        Expression::new(self.model(), self.data().access_exp)
    }
}

impl<'a> FunctionCallExpression<'a> {
    pub fn exp(&self) -> (res: Expression<'a>)
        requires
            self.valid(),
        ensures
            res == Expression::spec_new(self.model, self.spec_data().exp),
    {
        Expression::new(self.model(), self.data().exp)
    }
    pub fn args(&self) -> (res: Vec<Expression<'a>>)
        requires
            self.valid(),
        ensures
            res@.len() == self.spec_data().args@.len(),
            forall|i: int|
                0 <= i < res@.len() ==> res@[i] == Expression::spec_new(self.model, self.spec_data().args@[i]),
    {
        let model = self.model();
        let data = self.data();
        let mut res: Vec<Expression<'a>> = Vec::new();
        let mut i: usize = 0;
        while i < data.args.len()
            invariant
                model == self.model,
                *data == self.spec_data(),
                i <= data.args@.len(),
                res@.len() == i,
                forall|j: int| 0 <= j < i ==> res@[j] == Expression::spec_new(self.model, self.spec_data().args@[j]),
            decreases data.args@.len() - i,
        {
            res.push(Expression::new(model, data.args[i]));
            i = i + 1;
        }
        res
    }
}

impl<'a> NonNullAssertExpression<'a> {
    pub fn exp(&self) -> (res: Expression<'a>)
        requires
            self.valid(),
        ensures
            res == Expression::spec_new(self.model, self.spec_data().exp),
    {
        Expression::new(self.model(), self.data().exp)
    }
}

impl<'a> IdentifierExpression<'a> {
    pub fn name(&self) -> (res: &'a str)
        requires
            self.valid(),
        ensures
            res@ == self.spec_data().name@,
    {
        self.data().name.as_str()
    }
}

} // verus!
