use vstd::prelude::*;
use vstd::string::StringExecFns;

use crate::model::{
    ptr_in,
    BinaryExpression,
    BinaryExpressionData,
    BinaryOp,
    BlockStatement,
    BlockStatementData,
    BooleanLiteral,
    BooleanLiteralData,
    BreakStatement,
    BreakStatementData,
    CatchClause,
    CatchClauseData,
    CommaExpression,
    CommaExpressionData,
    ContinueStatement,
    ContinueStatementData,
    DotAccessExpression,
    DotAccessExpressionData,
    EmptyStatement,
    EmptyStatementData,
    Expression,
    ExpressionData,
    ExpressionStatement,
    ExpressionStatementData,
    File,
    FileData,
    FileItem,
    FileItemData,
    ForInit,
    ForInitData,
    ForStatement,
    ForStatementData,
    FunctionCallExpression,
    FunctionCallExpressionData,
    FunctionDeclArg,
    FunctionDeclArgData,
    FunctionDeclStatement,
    FunctionDeclStatementData,
    FunctionSignature,
    FunctionSignatureData,
    IdentifierExpression,
    IdentifierExpressionData,
    IfStatement,
    IfStatementData,
    ImportDecl,
    ImportDeclData,
    IndexAccessExpression,
    IndexAccessExpressionData,
    IntLiteral,
    IntLiteralData,
    IntLiteralSuffix,
    ItemPtr,
    LabeledStatement,
    LabeledStatementData,
    LetOrConst,
    Model,
    NonNullAssertExpression,
    NonNullAssertExpressionData,
    NullLiteral,
    NullLiteralData,
    ReturnStatement,
    ReturnStatementData,
    SourceLocation,
    Statement,
    StatementData,
    StringLiteral,
    StringLiteralData,
    SwitchBodyStatement,
    SwitchBodyStatementData,
    SwitchCase,
    SwitchCaseData,
    SwitchDefault,
    SwitchDefaultData,
    SwitchItem,
    SwitchItemData,
    SwitchStatement,
    SwitchStatementData,
    TernaryExpression,
    TernaryExpressionData,
    TryStatement,
    TryStatementData,
    TypeDecl,
    TypeDeclData,
    UnaryExpression,
    UnaryExpressionData,
    UnaryOp,
    VarDeclStatement,
    VarDeclStatementData,
    WhileStatement,
    WhileStatementData,
};
use crate::ast;
use crate::model_builder::same_file_item_kind;
use crate::text::string_push;

verus! {

//--------------------------------------------------
// Dump options.

#[derive(Clone, Copy)]
pub struct DumpOpts {
    /// Include each node's `SourceLocation` as a `"span"` field.
    pub spans: bool,
}

impl DumpOpts {
    pub fn new() -> (res: Self)
        ensures
            !res.spans,
    {
        Self { spans: false }
    }

    pub fn with_spans() -> (res: Self)
        ensures
            res.spans,
    {
        Self { spans: true }
    }
}

impl Default for DumpOpts {
    fn default() -> (res: Self)
        ensures
            !res.spans,
    {
        Self { spans: false }
    }
}

//--------------------------------------------------
// A minimal JSON value + pretty-printer.

pub enum Json {
    Null,
    Bool(bool),
    Num(i64),
    Str(String),
    Array(Vec<Json>),
    Object(Vec<(&'static str, Json)>),
}

/// Two spaces per level of depth.
pub open spec fn spec_pad(depth: nat) -> Seq<char>
    decreases depth,
{
    if depth == 0 {
        Seq::empty()
    } else {
        spec_pad((depth - 1) as nat) + seq![' ', ' ']
    }
}

/// The decimal digits of a natural number.
pub open spec fn spec_decimal(n: nat) -> Seq<char>
    decreases n,
{
    if n < 10 {
        seq![(48 + n) as char]
    } else {
        spec_decimal(n / 10) + seq![(48 + n % 10) as char]
    }
}

/// A number in decimal, with a leading minus sign when it is negative.
pub open spec fn spec_number(n: i64) -> Seq<char> {
    if n < 0 {
        seq!['-'] + spec_decimal((-n) as nat)
    } else {
        spec_decimal(n as nat)
    }
}

/// The lower-case hex digit of a value below 16.
pub open spec fn spec_hex_digit(d: nat) -> char {
    if d < 10 {
        (48 + d) as char
    } else {
        (87 + d) as char
    }
}

/// A character inside a JSON string: quotes, backslashes, line feeds, carriage returns and
/// tabs are escaped with a backslash, every other control character below U+0020 as `\u`
/// and four hex digits, and all other characters are written as they are.
pub open spec fn spec_escape_char(c: char) -> Seq<char> {
    if c == '"' {
        seq!['\\', '"']
    } else if c == '\\' {
        seq!['\\', '\\']
    } else if c == '\n' {
        seq!['\\', 'n']
    } else if c == '\r' {
        seq!['\\', 'r']
    } else if c == '\t' {
        seq!['\\', 't']
    } else if (c as u32) < 0x20 {
        seq![
            '\\',
            'u',
            '0',
            '0',
            spec_hex_digit((c as u32 / 16) as nat),
            spec_hex_digit((c as u32 % 16) as nat),
        ]
    } else {
        seq![c]
    }
}

pub open spec fn spec_escape(s: Seq<char>) -> Seq<char>
    decreases s.len(),
{
    if s.len() == 0 {
        Seq::empty()
    } else {
        spec_escape(s.drop_last()) + spec_escape_char(s.last())
    }
}

/// A JSON string literal.
pub open spec fn spec_quoted(s: Seq<char>) -> Seq<char> {
    seq!['"'] + spec_escape(s) + seq!['"']
}

/// The depth of the elements of an array or object at the given depth (which no longer grows
/// at the largest `usize`).
pub open spec fn spec_next_depth(depth: nat) -> nat {
    if depth < usize::MAX {
        depth + 1
    } else {
        depth
    }
}

/// The text of a JSON value printed at the given depth: arrays and objects that are not empty
/// put each element on a line of its own, indented one level deeper, and close on a line
/// indented at the value's own depth.
pub open spec fn spec_render(j: Json, depth: nat) -> Seq<char>
    decreases j, 1nat,
{
    match j {
        Json::Null => seq!['n', 'u', 'l', 'l'],
        Json::Bool(b) => if b {
            seq!['t', 'r', 'u', 'e']
        } else {
            seq!['f', 'a', 'l', 's', 'e']
        },
        Json::Num(n) => spec_number(n),
        Json::Str(s) => spec_quoted(s@),
        Json::Array(xs) => if xs@.len() == 0 {
            seq!['[', ']']
        } else {
            seq!['[', '\n'] + spec_render_elems(xs@, spec_next_depth(depth), 0) + spec_pad(depth) + seq![']']
        },
        Json::Object(kv) => if kv@.len() == 0 {
            seq!['{', '}']
        } else {
            seq!['{', '\n'] + spec_render_fields(kv@, spec_next_depth(depth), 0) + spec_pad(depth) + seq!['}']
        },
    }
}

/// The elements of an array from index `i` on, one per line.
pub open spec fn spec_render_elems(xs: Seq<Json>, depth: nat, i: nat) -> Seq<char>
    decreases xs, xs.len() - i,
{
    if i >= xs.len() {
        Seq::empty()
    } else {
        spec_pad(depth) + spec_render(xs[i as int], depth) + (if i + 1 < xs.len() {
            seq![',']
        } else {
            Seq::empty()
        }) + seq!['\n'] + spec_render_elems(xs, depth, i + 1)
    }
}

/// The fields of an object from index `i` on, one `"key": value` per line.  Keys are
/// printed as they are, without escapes.
pub open spec fn spec_render_fields(kv: Seq<(&'static str, Json)>, depth: nat, i: nat) -> Seq<
    char,
>
    decreases kv, kv.len() - i,
{
    if i >= kv.len() {
        Seq::empty()
    } else {
        spec_pad(depth) + seq!['"'] + kv[i as int].0@ + seq!['"', ':', ' '] + spec_render(
            kv[i as int].1,
            depth,
        ) + (if i + 1 < kv.len() {
            seq![',']
        } else {
            Seq::empty()
        }) + seq!['\n'] + spec_render_fields(kv, depth, i + 1)
    }
}

fn push_pad(out: &mut String, depth: usize)
    ensures
        final(out)@ == old(out)@ + spec_pad(depth as nat),
    decreases depth,
{
    if depth > 0 {
        push_pad(out, depth - 1);
        string_push(out, ' ');
        string_push(out, ' ');
        assert(final(out)@ =~= old(out)@ + spec_pad(depth as nat));
    }
}

fn push_decimal(out: &mut String, n: u64)
    ensures
        final(out)@ == old(out)@ + spec_decimal(n as nat),
    decreases n,
{
    if n >= 10 {
        push_decimal(out, n / 10);
    }
    let d: u8 = (n % 10) as u8;
    string_push(out, (48u8 + d) as char);
    assert(final(out)@ =~= old(out)@ + spec_decimal(n as nat));
}

fn hex_digit(d: u8) -> (res: char)
    requires
        d < 16,
    ensures
        res == spec_hex_digit(d as nat),
{
    if d < 10 {
        (48u8 + d) as char
    } else {
        (87u8 + d) as char
    }
}

fn push_escaped(out: &mut String, s: &str)
    ensures
        final(out)@ == old(out)@ + spec_escape(s@),
{
    let n = s.unicode_len();
    let mut i: usize = 0;
    let ghost start = out@;
    assert(s@.take(0) =~= Seq::<char>::empty());
    while i < n
        invariant
            n == s@.len(),
            i <= n,
            out@ == start + spec_escape(s@.take(i as int)),
        decreases n - i,
    {
        let c = s.get_char(i);
        assert(s@.take(i + 1).drop_last() =~= s@.take(i as int));
        if c == '"' {
            string_push(out, '\\');
            string_push(out, '"');
        } else if c == '\\' {
            string_push(out, '\\');
            string_push(out, '\\');
        } else if c == '\n' {
            string_push(out, '\\');
            string_push(out, 'n');
        } else if c == '\r' {
            string_push(out, '\\');
            string_push(out, 'r');
        } else if c == '\t' {
            string_push(out, '\\');
            string_push(out, 't');
        } else if (c as u32) < 0x20 {
            let v: u32 = c as u32;
            string_push(out, '\\');
            string_push(out, 'u');
            string_push(out, '0');
            string_push(out, '0');
            string_push(out, hex_digit((v / 16) as u8));
            string_push(out, hex_digit((v % 16) as u8));
        } else {
            string_push(out, c);
        }
        i = i + 1;
        assert(out@ =~= start + spec_escape(s@.take(i as int)));
    }
    assert(s@.take(n as int) =~= s@);
}

fn push_chars(out: &mut String, cs: &[char])
    ensures
        final(out)@ == old(out)@ + cs@,
{
    let mut i: usize = 0;
    let ghost start = out@;
    while i < cs.len()
        invariant
            i <= cs@.len(),
            out@ == start + cs@.take(i as int),
        decreases cs@.len() - i,
    {
        string_push(out, cs[i]);
        i = i + 1;
        assert(out@ =~= start + cs@.take(i as int));
    }
    assert(cs@.take(cs@.len() as int) =~= cs@);
}

impl Json {
    /// The printed text of the value.
    pub fn to_string(&self) -> (res: String)
        ensures
            res@ == spec_render(*self, 0),
    {
        let mut out = String::new();
        self.write(&mut out, 0);
        out
    }

    fn write(&self, out: &mut String, depth: usize)
        ensures
            final(out)@ == old(out)@ + spec_render(*self, depth as nat),
        decreases self, 1nat,
    {
        match self {
            Json::Null => push_chars(out, &['n', 'u', 'l', 'l']),
            Json::Bool(b) => {
                if *b {
                    push_chars(out, &['t', 'r', 'u', 'e'])
                } else {
                    push_chars(out, &['f', 'a', 'l', 's', 'e'])
                }
            },
            Json::Num(n) => {
                if *n < 0 {
                    string_push(out, '-');
                    let m: u64 = (0i128 - (*n as i128)) as u64;
                    push_decimal(out, m);
                } else {
                    push_decimal(out, *n as u64);
                }
                assert(final(out)@ =~= old(out)@ + spec_number(*n));
            },
            Json::Str(s) => {
                string_push(out, '"');
                push_escaped(out, s.as_str());
                string_push(out, '"');
                assert(final(out)@ =~= old(out)@ + spec_quoted(s@));
            },
            Json::Array(xs) => {
                if xs.len() == 0 {
                    push_chars(out, &['[', ']']);
                } else {
                    push_chars(out, &['[', '\n']);
                    let next = if depth < usize::MAX {
                        depth + 1
                    } else {
                        depth
                    };
                    Self::write_elems(xs, out, next, 0);
                    push_pad(out, depth);
                    string_push(out, ']');
                    assert(final(out)@ =~= old(out)@ + spec_render(*self, depth as nat));
                }
            },
            Json::Object(kv) => {
                if kv.len() == 0 {
                    push_chars(out, &['{', '}']);
                } else {
                    push_chars(out, &['{', '\n']);
                    let next = if depth < usize::MAX {
                        depth + 1
                    } else {
                        depth
                    };
                    Self::write_fields(kv, out, next, 0);
                    push_pad(out, depth);
                    string_push(out, '}');
                    assert(final(out)@ =~= old(out)@ + spec_render(*self, depth as nat));
                }
            },
        }
    }

    fn write_elems(xs: &Vec<Json>, out: &mut String, depth: usize, i: usize)
        requires
            i <= xs@.len(),
        ensures
            final(out)@ == old(out)@ + spec_render_elems(xs@, depth as nat, i as nat),
        decreases xs@, xs@.len() - i,
    {
        if i < xs.len() {
            push_pad(out, depth);
            xs[i].write(out, depth);
            if i + 1 < xs.len() {
                string_push(out, ',');
            }
            string_push(out, '\n');
            Self::write_elems(xs, out, depth, i + 1);
            assert(final(out)@ =~= old(out)@ + spec_render_elems(xs@, depth as nat, i as nat));
        } else {
            assert(final(out)@ =~= old(out)@ + spec_render_elems(xs@, depth as nat, i as nat));
        }
    }

    fn write_fields(kv: &Vec<(&'static str, Json)>, out: &mut String, depth: usize, i: usize)
        requires
            i <= kv@.len(),
        ensures
            final(out)@ == old(out)@ + spec_render_fields(kv@, depth as nat, i as nat),
        decreases kv@, kv@.len() - i,
    {
        if i < kv.len() {
            push_pad(out, depth);
            string_push(out, '"');
            out.append(kv[i].0);
            push_chars(out, &['"', ':', ' ']);
            kv[i].1.write(out, depth);
            if i + 1 < kv.len() {
                string_push(out, ',');
            }
            string_push(out, '\n');
            Self::write_fields(kv, out, depth, i + 1);
            assert(final(out)@ =~= old(out)@ + spec_render_fields(kv@, depth as nat, i as nat));
        } else {
            assert(final(out)@ =~= old(out)@ + spec_render_fields(kv@, depth as nat, i as nat));
        }
    }
}


//--------------------------------------------------
// ToJson trait + helpers.

pub trait ToJson {
    fn to_json(&self, opts: &DumpOpts) -> Json;
}

impl<T: ToJson> ToJson for Option<T> {
    fn to_json(&self, opts: &DumpOpts) -> (res: Json)
        ensures
            self is None ==> res is Null,
    {
        match self {
            Some(v) => v.to_json(opts),
            None => Json::Null,
        }
    }
}

impl<'b> ToJson for &'b str {
    fn to_json(&self, _opts: &DumpOpts) -> (res: Json)
        ensures
            json_str_is(res, (*self)@),
    {
        Json::Str(String::from_str(*self))
    }
}

/// The value is a JSON string with the given text.
pub open spec fn json_str_is(j: Json, s: Seq<char>) -> bool {
    j matches Json::Str(x) && x@ == s
}

/// The JSON of an optional source location: null, or its file id, start and end.
pub open spec fn span_json_ok(j: Json, span: Option<SourceLocation>) -> bool {
    match span {
        None => j is Null,
        Some(loc) => match j {
            Json::Object(kv) => {
                &&& kv@.len() == 3
                &&& kv@[0].0@ == "source_file"@
                &&& kv@[0].1 == Json::Num(loc.source_file.id as i64)
                &&& kv@[1].0@ == "start"@
                &&& kv@[1].1 == Json::Num(loc.span.start as i64)
                &&& kv@[2].0@ == "end"@
                &&& kv@[2].1 == Json::Num(loc.span.end as i64)
            },
            _ => false,
        },
    }
}

/// The number of fields that precede a node's own fields: the kind, and the span when spans
/// are asked for.
pub open spec fn field_offset(opts: DumpOpts) -> int {
    if opts.spans {
        2
    } else {
        1
    }
}

/// The value is a node object tagged with the given kind.
pub open spec fn json_kind_is(j: Json, kind: Seq<char>) -> bool {
    match j {
        Json::Object(kv) => kv@.len() >= 1 && kv@[0].0@ == "kind"@ && json_str_is(kv@[0].1, kind),
        _ => false,
    }
}

/// The key of the `i`th own field of a node object.
pub open spec fn node_key(j: Json, opts: DumpOpts, i: int) -> Seq<char> {
    match j {
        Json::Object(kv) => kv@[field_offset(opts) + i].0@,
        _ => Seq::empty(),
    }
}

/// The value of the `i`th own field of a node object.
pub open spec fn node_field(j: Json, opts: DumpOpts, i: int) -> Json {
    match j {
        Json::Object(kv) => kv@[field_offset(opts) + i].1,
        _ => Json::Null,
    }
}

/// The value is the node object `{ "kind": kind, ["span": span,] keys... }`.
pub open spec fn is_node(
    j: Json,
    kind: Seq<char>,
    opts: DumpOpts,
    span: Option<SourceLocation>,
    keys: Seq<Seq<char>>,
) -> bool {
    match j {
        Json::Object(kv) => {
            &&& kv@.len() == field_offset(opts) + keys.len()
            &&& kv@[0].0@ == "kind"@
            &&& json_str_is(kv@[0].1, kind)
            &&& opts.spans ==> kv@[1].0@ == "span"@ && span_json_ok(kv@[1].1, span)
            &&& forall|i: int| 0 <= i < keys.len() ==> #[trigger] node_key(j, opts, i) == keys[i]
        },
        _ => false,
    }
}

pub open spec fn opt_loc(span: Option<&SourceLocation>) -> Option<SourceLocation> {
    match span {
        Some(l) => Some(*l),
        None => None,
    }
}

/// A tagged object: `{ "kind": <kind>, ["span": ...,] ...fields }`. The span is injected here
/// (once) when `opts.spans` is set, so the individual node functions just hand over their
/// kind, span, and fields.
fn node(
    kind: &'static str,
    span: Option<&SourceLocation>,
    opts: &DumpOpts,
    fields: Vec<(&'static str, Json)>,
) -> (res: Json)
    ensures
        match res {
            Json::Object(kv) => {
                &&& kv@.len() == field_offset(*opts) + fields@.len()
                &&& kv@[0].0@ == "kind"@
                &&& json_str_is(kv@[0].1, kind@)
                &&& opts.spans ==> kv@[1].0@ == "span"@ && span_json_ok(kv@[1].1, opt_loc(span))
            },
            _ => false,
        },
        forall|i: int| 0 <= i < fields@.len() ==> #[trigger] node_key(res, *opts, i) == fields@[i].0@,
        forall|i: int| 0 <= i < fields@.len() ==> #[trigger] node_field(res, *opts, i) == fields@[i].1,
{
    let mut v: Vec<(&'static str, Json)> = Vec::new();
    v.push(("kind", Json::Str(String::from_str(kind))));
    if opts.spans {
        let s = match span {
            Some(loc) => source_location_to_json(loc),
            None => Json::Null,
        };
        v.push(("span", s));
    }
    let ghost pre = v@;
    let ghost fs = fields@;
    let mut f = fields;
    v.append(&mut f);
    assert(v@ == pre + fs);
    Json::Object(v)
}

/// A source location. Just the file id + char range for now.
fn source_location_to_json(loc: &SourceLocation) -> (res: Json)
    ensures
        span_json_ok(res, Some(*loc)),
{
    let mut v: Vec<(&'static str, Json)> = Vec::new();
    v.push(("source_file", Json::Num(loc.source_file.id() as i64)));
    v.push(("start", Json::Num(loc.span.start as i64)));
    v.push(("end", Json::Num(loc.span.end as i64)));
    Json::Object(v)
}

pub open spec fn spec_let_or_const_name(v: LetOrConst) -> Seq<char> {
    match v {
        LetOrConst::Let => "Let"@,
        LetOrConst::Const => "Const"@,
    }
}

/// The name of a value of a tag enum, as its derived `Debug` prints it.
fn let_or_const_name(v: LetOrConst) -> (res: &'static str)
    ensures
        res@ == spec_let_or_const_name(v),
{
    match v {
        LetOrConst::Let => "Let",
        LetOrConst::Const => "Const",
    }
}

pub open spec fn spec_unary_op_name(v: UnaryOp) -> Seq<char> {
    match v {
        UnaryOp::Plus => "Plus"@,
        UnaryOp::Minus => "Minus"@,
        UnaryOp::LogicalNot => "LogicalNot"@,
        UnaryOp::BitwiseNot => "BitwiseNot"@,
    }
}

fn unary_op_name(v: UnaryOp) -> (res: &'static str)
    ensures
        res@ == spec_unary_op_name(v),
{
    match v {
        UnaryOp::Plus => "Plus",
        UnaryOp::Minus => "Minus",
        UnaryOp::LogicalNot => "LogicalNot",
        UnaryOp::BitwiseNot => "BitwiseNot",
    }
}

pub open spec fn spec_suffix_name(v: IntLiteralSuffix) -> Seq<char> {
    match v {
        IntLiteralSuffix::U8 => "U8"@,
        IntLiteralSuffix::U16 => "U16"@,
        IntLiteralSuffix::U32 => "U32"@,
        IntLiteralSuffix::U64 => "U64"@,
        IntLiteralSuffix::I8 => "I8"@,
        IntLiteralSuffix::I16 => "I16"@,
        IntLiteralSuffix::I32 => "I32"@,
        IntLiteralSuffix::I64 => "I64"@,
    }
}

fn suffix_name(v: IntLiteralSuffix) -> (res: &'static str)
    ensures
        res@ == spec_suffix_name(v),
{
    match v {
        IntLiteralSuffix::U8 => "U8",
        IntLiteralSuffix::U16 => "U16",
        IntLiteralSuffix::U32 => "U32",
        IntLiteralSuffix::U64 => "U64",
        IntLiteralSuffix::I8 => "I8",
        IntLiteralSuffix::I16 => "I16",
        IntLiteralSuffix::I32 => "I32",
        IntLiteralSuffix::I64 => "I64",
    }
}

pub open spec fn spec_binary_op_name(v: BinaryOp) -> Seq<char> {
    match v {
        BinaryOp::Plus => "Plus"@,
        BinaryOp::Minus => "Minus"@,
        BinaryOp::Times => "Times"@,
        BinaryOp::Divide => "Divide"@,
        BinaryOp::Mod => "Mod"@,
        BinaryOp::ShiftLeft => "ShiftLeft"@,
        BinaryOp::LogicalShiftRight => "LogicalShiftRight"@,
        BinaryOp::ArithmeticShiftRight => "ArithmeticShiftRight"@,
        BinaryOp::LessThan => "LessThan"@,
        BinaryOp::LessThanOrEquals => "LessThanOrEquals"@,
        BinaryOp::GreaterThan => "GreaterThan"@,
        BinaryOp::GreaterThanOrEquals => "GreaterThanOrEquals"@,
        BinaryOp::Equals => "Equals"@,
        BinaryOp::NotEquals => "NotEquals"@,
        BinaryOp::BitwiseAnd => "BitwiseAnd"@,
        BinaryOp::BitwiseXor => "BitwiseXor"@,
        BinaryOp::BitwiseOr => "BitwiseOr"@,
        BinaryOp::LogicalAnd => "LogicalAnd"@,
        BinaryOp::LogicalOr => "LogicalOr"@,
        BinaryOp::Assign => "Assign"@,
        BinaryOp::PlusAssign => "PlusAssign"@,
        BinaryOp::MinusAssign => "MinusAssign"@,
        BinaryOp::TimesAssign => "TimesAssign"@,
        BinaryOp::DivideAssign => "DivideAssign"@,
        BinaryOp::ModAssign => "ModAssign"@,
        BinaryOp::ShiftLeftAssign => "ShiftLeftAssign"@,
        BinaryOp::LogicalShiftRightAssign => "LogicalShiftRightAssign"@,
        BinaryOp::ArithmeticShiftRightAssign => "ArithmeticShiftRightAssign"@,
        BinaryOp::BitwiseAndAssign => "BitwiseAndAssign"@,
        BinaryOp::BitwiseXorAssign => "BitwiseXorAssign"@,
        BinaryOp::BitwiseOrAssign => "BitwiseOrAssign"@,
        BinaryOp::LogicalAndAssign => "LogicalAndAssign"@,
        BinaryOp::LogicalOrAssign => "LogicalOrAssign"@,
    }
}

fn binary_op_name(v: BinaryOp) -> (res: &'static str)
    ensures
        res@ == spec_binary_op_name(v),
{
    match v {
        BinaryOp::Plus => "Plus",
        BinaryOp::Minus => "Minus",
        BinaryOp::Times => "Times",
        BinaryOp::Divide => "Divide",
        BinaryOp::Mod => "Mod",
        BinaryOp::ShiftLeft => "ShiftLeft",
        BinaryOp::LogicalShiftRight => "LogicalShiftRight",
        BinaryOp::ArithmeticShiftRight => "ArithmeticShiftRight",
        BinaryOp::LessThan => "LessThan",
        BinaryOp::LessThanOrEquals => "LessThanOrEquals",
        BinaryOp::GreaterThan => "GreaterThan",
        BinaryOp::GreaterThanOrEquals => "GreaterThanOrEquals",
        BinaryOp::Equals => "Equals",
        BinaryOp::NotEquals => "NotEquals",
        BinaryOp::BitwiseAnd => "BitwiseAnd",
        BinaryOp::BitwiseXor => "BitwiseXor",
        BinaryOp::BitwiseOr => "BitwiseOr",
        BinaryOp::LogicalAnd => "LogicalAnd",
        BinaryOp::LogicalOr => "LogicalOr",
        BinaryOp::Assign => "Assign",
        BinaryOp::PlusAssign => "PlusAssign",
        BinaryOp::MinusAssign => "MinusAssign",
        BinaryOp::TimesAssign => "TimesAssign",
        BinaryOp::DivideAssign => "DivideAssign",
        BinaryOp::ModAssign => "ModAssign",
        BinaryOp::ShiftLeftAssign => "ShiftLeftAssign",
        BinaryOp::LogicalShiftRightAssign => "LogicalShiftRightAssign",
        BinaryOp::ArithmeticShiftRightAssign => "ArithmeticShiftRightAssign",
        BinaryOp::BitwiseAndAssign => "BitwiseAndAssign",
        BinaryOp::BitwiseXorAssign => "BitwiseXorAssign",
        BinaryOp::BitwiseOrAssign => "BitwiseOrAssign",
        BinaryOp::LogicalAndAssign => "LogicalAndAssign",
        BinaryOp::LogicalOrAssign => "LogicalOrAssign",
    }
}

/// The kind that a statement's node carries.
pub open spec fn spec_statement_kind(s: StatementData) -> Seq<char> {
    match s {
        StatementData::EmptyStatement(_) => "EmptyStatement"@,
        StatementData::ExpressionStatement(_) => "ExpressionStatement"@,
        StatementData::IfStatement(_) => "IfStatement"@,
        StatementData::WhileStatement(_) => "WhileStatement"@,
        StatementData::ReturnStatement(_) => "ReturnStatement"@,
        StatementData::BreakStatement(_) => "BreakStatement"@,
        StatementData::ContinueStatement(_) => "ContinueStatement"@,
        StatementData::BlockStatement(_) => "BlockStatement"@,
        StatementData::ForStatement(_) => "ForStatement"@,
        StatementData::SwitchStatement(_) => "SwitchStatement"@,
        StatementData::VarDeclStatement(_) => "VarDeclStatement"@,
        StatementData::FunctionDeclStatement(_) => "FunctionDeclStatement"@,
        StatementData::LabeledStatement(_) => "LabeledStatement"@,
        StatementData::TryStatement(_) => "TryStatement"@,
    }
}

/// The kind that an expression's node carries.
pub open spec fn spec_expression_kind(e: ExpressionData) -> Seq<char> {
    match e {
        ExpressionData::CommaExpression(_) => "CommaExpression"@,
        ExpressionData::TernaryExpression(_) => "TernaryExpression"@,
        ExpressionData::BinaryExpression(_) => "BinaryExpression"@,
        ExpressionData::UnaryExpression(_) => "UnaryExpression"@,
        ExpressionData::BooleanLiteral(_) => "BooleanLiteral"@,
        ExpressionData::NullLiteral(_) => "NullLiteral"@,
        ExpressionData::StringLiteral(_) => "StringLiteral"@,
        ExpressionData::IntLiteral(_) => "IntLiteral"@,
        ExpressionData::DotAccessExpression(_) => "DotAccessExpression"@,
        ExpressionData::IndexAccessExpression(_) => "IndexAccessExpression"@,
        ExpressionData::FunctionCallExpression(_) => "FunctionCallExpression"@,
        ExpressionData::NonNullAssertExpression(_) => "NonNullAssertExpression"@,
        ExpressionData::IdentifierExpression(_) => "IdentifierExpression"@,
    }
}

/// The number of items in the model.
pub open spec fn spec_item_count(model: Model) -> nat {
    model.files.items@.len()
        + model.type_decls.items@.len()
        + model.import_decls.items@.len()
        + model.empty_statements.items@.len()
        + model.expression_statements.items@.len()
        + model.if_statements.items@.len()
        + model.while_statements.items@.len()
        + model.return_statements.items@.len()
        + model.break_statements.items@.len()
        + model.continue_statements.items@.len()
        + model.block_statements.items@.len()
        + model.for_statements.items@.len()
        + model.switch_statements.items@.len()
        + model.switch_body_statements.items@.len()
        + model.switch_cases.items@.len()
        + model.switch_defaults.items@.len()
        + model.var_decl_statements.items@.len()
        + model.function_decl_statements.items@.len()
        + model.function_signatures.items@.len()
        + model.function_decl_args.items@.len()
        + model.labeled_statements.items@.len()
        + model.try_statements.items@.len()
        + model.catch_clauses.items@.len()
        + model.comma_expressions.items@.len()
        + model.ternary_expressions.items@.len()
        + model.binary_expressions.items@.len()
        + model.unary_expressions.items@.len()
        + model.boolean_literals.items@.len()
        + model.null_literals.items@.len()
        + model.string_literals.items@.len()
        + model.int_literals.items@.len()
        + model.dot_access_expressions.items@.len()
        + model.index_access_expressions.items@.len()
        + model.function_call_expressions.items@.len()
        + model.non_null_assert_expressions.items@.len()
        + model.identifier_expressions.items@.len()
}

/// The number of items in the model, counted up to the largest `usize`.
pub open spec fn spec_model_size(model: Model) -> nat {
    if spec_item_count(model) <= usize::MAX {
        spec_item_count(model)
    } else {
        usize::MAX as nat
    }
}

/// The number of items in the model (at most `usize::MAX`): the nesting depth up to which
/// nodes are dumped.
#[verifier::spinoff_prover]
#[verifier::rlimit(100)]
pub fn model_size(model: &Model) -> (res: usize)
    ensures
        res == spec_model_size(*model),
        res >= model.files.items@.len(),
        res >= model.type_decls.items@.len(),
        res >= model.import_decls.items@.len(),
        res >= model.empty_statements.items@.len(),
        res >= model.expression_statements.items@.len(),
        res >= model.if_statements.items@.len(),
        res >= model.while_statements.items@.len(),
        res >= model.return_statements.items@.len(),
        res >= model.break_statements.items@.len(),
        res >= model.continue_statements.items@.len(),
        res >= model.block_statements.items@.len(),
        res >= model.for_statements.items@.len(),
        res >= model.switch_statements.items@.len(),
        res >= model.switch_body_statements.items@.len(),
        res >= model.switch_cases.items@.len(),
        res >= model.switch_defaults.items@.len(),
        res >= model.var_decl_statements.items@.len(),
        res >= model.function_decl_statements.items@.len(),
        res >= model.function_signatures.items@.len(),
        res >= model.function_decl_args.items@.len(),
        res >= model.labeled_statements.items@.len(),
        res >= model.try_statements.items@.len(),
        res >= model.catch_clauses.items@.len(),
        res >= model.comma_expressions.items@.len(),
        res >= model.ternary_expressions.items@.len(),
        res >= model.binary_expressions.items@.len(),
        res >= model.unary_expressions.items@.len(),
        res >= model.boolean_literals.items@.len(),
        res >= model.null_literals.items@.len(),
        res >= model.string_literals.items@.len(),
        res >= model.int_literals.items@.len(),
        res >= model.dot_access_expressions.items@.len(),
        res >= model.index_access_expressions.items@.len(),
        res >= model.function_call_expressions.items@.len(),
        res >= model.non_null_assert_expressions.items@.len(),
        res >= model.identifier_expressions.items@.len(),
{
    let total: u128 = model.files.items.len() as u128
        + model.type_decls.items.len() as u128
        + model.import_decls.items.len() as u128
        + model.empty_statements.items.len() as u128
        + model.expression_statements.items.len() as u128
        + model.if_statements.items.len() as u128
        + model.while_statements.items.len() as u128
        + model.return_statements.items.len() as u128
        + model.break_statements.items.len() as u128
        + model.continue_statements.items.len() as u128
        + model.block_statements.items.len() as u128
        + model.for_statements.items.len() as u128
        + model.switch_statements.items.len() as u128
        + model.switch_body_statements.items.len() as u128
        + model.switch_cases.items.len() as u128
        + model.switch_defaults.items.len() as u128
        + model.var_decl_statements.items.len() as u128
        + model.function_decl_statements.items.len() as u128
        + model.function_signatures.items.len() as u128
        + model.function_decl_args.items.len() as u128
        + model.labeled_statements.items.len() as u128
        + model.try_statements.items.len() as u128
        + model.catch_clauses.items.len() as u128
        + model.comma_expressions.items.len() as u128
        + model.ternary_expressions.items.len() as u128
        + model.binary_expressions.items.len() as u128
        + model.unary_expressions.items.len() as u128
        + model.boolean_literals.items.len() as u128
        + model.null_literals.items.len() as u128
        + model.string_literals.items.len() as u128
        + model.int_literals.items.len() as u128
        + model.dot_access_expressions.items.len() as u128
        + model.index_access_expressions.items.len() as u128
        + model.function_call_expressions.items.len() as u128
        + model.non_null_assert_expressions.items.len() as u128
        + model.identifier_expressions.items.len() as u128;
    if total <= usize::MAX as u128 {
        total as usize
    } else {
        usize::MAX
    }
}

//--------------------------------------------------
// What a child's JSON is.


/// The statement's item exists in the model.
pub open spec fn stmt_present(model: Model, s: StatementData) -> bool {
    match s {
        StatementData::EmptyStatement(p) => p.id < model.empty_statements.items@.len(),
        StatementData::ExpressionStatement(p) => p.id < model.expression_statements.items@.len(),
        StatementData::IfStatement(p) => p.id < model.if_statements.items@.len(),
        StatementData::WhileStatement(p) => p.id < model.while_statements.items@.len(),
        StatementData::ReturnStatement(p) => p.id < model.return_statements.items@.len(),
        StatementData::BreakStatement(p) => p.id < model.break_statements.items@.len(),
        StatementData::ContinueStatement(p) => p.id < model.continue_statements.items@.len(),
        StatementData::BlockStatement(p) => p.id < model.block_statements.items@.len(),
        StatementData::ForStatement(p) => p.id < model.for_statements.items@.len(),
        StatementData::SwitchStatement(p) => p.id < model.switch_statements.items@.len(),
        StatementData::VarDeclStatement(p) => p.id < model.var_decl_statements.items@.len(),
        StatementData::FunctionDeclStatement(p) => p.id < model.function_decl_statements.items@.len(),
        StatementData::LabeledStatement(p) => p.id < model.labeled_statements.items@.len(),
        StatementData::TryStatement(p) => p.id < model.try_statements.items@.len(),
    }
}

/// The expression's item exists in the model.
pub open spec fn expr_present(model: Model, e: ExpressionData) -> bool {
    match e {
        ExpressionData::CommaExpression(p) => p.id < model.comma_expressions.items@.len(),
        ExpressionData::TernaryExpression(p) => p.id < model.ternary_expressions.items@.len(),
        ExpressionData::BinaryExpression(p) => p.id < model.binary_expressions.items@.len(),
        ExpressionData::UnaryExpression(p) => p.id < model.unary_expressions.items@.len(),
        ExpressionData::BooleanLiteral(p) => p.id < model.boolean_literals.items@.len(),
        ExpressionData::NullLiteral(p) => p.id < model.null_literals.items@.len(),
        ExpressionData::StringLiteral(p) => p.id < model.string_literals.items@.len(),
        ExpressionData::IntLiteral(p) => p.id < model.int_literals.items@.len(),
        ExpressionData::DotAccessExpression(p) => p.id < model.dot_access_expressions.items@.len(),
        ExpressionData::IndexAccessExpression(p) => p.id < model.index_access_expressions.items@.len(),
        ExpressionData::FunctionCallExpression(p) => p.id < model.function_call_expressions.items@.len(),
        ExpressionData::NonNullAssertExpression(p) => p.id < model.non_null_assert_expressions.items@.len(),
        ExpressionData::IdentifierExpression(p) => p.id < model.identifier_expressions.items@.len(),
    }
}

pub open spec fn file_item_present(model: Model, fi: FileItemData) -> bool {
    match fi {
        FileItemData::ImportDecl(p) => p.id < model.import_decls.items@.len(),
        FileItemData::TypeDecl(p) => p.id < model.type_decls.items@.len(),
        FileItemData::Statement(s) => stmt_present(model, s),
    }
}

pub open spec fn file_item_kind(fi: FileItemData) -> Seq<char> {
    match fi {
        FileItemData::ImportDecl(_) => "ImportDecl"@,
        FileItemData::TypeDecl(_) => "TypeDecl"@,
        FileItemData::Statement(s) => spec_statement_kind(s),
    }
}

pub open spec fn for_init_present(model: Model, fi: ForInitData) -> bool {
    match fi {
        ForInitData::Expression(e) => expr_present(model, e),
        ForInitData::VarDecl(s) => stmt_present(model, s),
    }
}

pub open spec fn for_init_kind(fi: ForInitData) -> Seq<char> {
    match fi {
        ForInitData::Expression(e) => spec_expression_kind(e),
        ForInitData::VarDecl(s) => spec_statement_kind(s),
    }
}

pub open spec fn switch_item_present(model: Model, si: SwitchItemData) -> bool {
    match si {
        SwitchItemData::Statement(p) => p.id < model.switch_body_statements.items@.len(),
        SwitchItemData::Case(p) => p.id < model.switch_cases.items@.len(),
        SwitchItemData::Default(p) => p.id < model.switch_defaults.items@.len(),
    }
}

pub open spec fn switch_item_kind(si: SwitchItemData) -> Seq<char> {
    match si {
        SwitchItemData::Statement(_) => "SwitchBodyStatement"@,
        SwitchItemData::Case(_) => "SwitchCase"@,
        SwitchItemData::Default(_) => "SwitchDefault"@,
    }
}

pub open spec fn stmt_json_ok(j: Json, model: Model, s: StatementData, opts: DumpOpts, fuel: nat) -> bool
    decreases fuel, 1nat,
{
    match s {
        StatementData::EmptyStatement(p) => empty_statement_json_ok(j, model, p, opts, fuel),
        StatementData::ExpressionStatement(p) => expression_statement_json_ok(j, model, p, opts, fuel),
        StatementData::IfStatement(p) => if_statement_json_ok(j, model, p, opts, fuel),
        StatementData::WhileStatement(p) => while_statement_json_ok(j, model, p, opts, fuel),
        StatementData::ReturnStatement(p) => return_statement_json_ok(j, model, p, opts, fuel),
        StatementData::BreakStatement(p) => break_statement_json_ok(j, model, p, opts, fuel),
        StatementData::ContinueStatement(p) => continue_statement_json_ok(j, model, p, opts, fuel),
        StatementData::BlockStatement(p) => block_statement_json_ok(j, model, p, opts, fuel),
        StatementData::ForStatement(p) => for_statement_json_ok(j, model, p, opts, fuel),
        StatementData::SwitchStatement(p) => switch_statement_json_ok(j, model, p, opts, fuel),
        StatementData::VarDeclStatement(p) => var_decl_statement_json_ok(j, model, p, opts, fuel),
        StatementData::FunctionDeclStatement(p) => function_decl_statement_json_ok(j, model, p, opts, fuel),
        StatementData::LabeledStatement(p) => labeled_statement_json_ok(j, model, p, opts, fuel),
        StatementData::TryStatement(p) => try_statement_json_ok(j, model, p, opts, fuel),
    }
}

pub open spec fn expr_json_ok(j: Json, model: Model, e: ExpressionData, opts: DumpOpts, fuel: nat) -> bool
    decreases fuel, 1nat,
{
    match e {
        ExpressionData::CommaExpression(p) => comma_expression_json_ok(j, model, p, opts, fuel),
        ExpressionData::TernaryExpression(p) => ternary_expression_json_ok(j, model, p, opts, fuel),
        ExpressionData::BinaryExpression(p) => binary_expression_json_ok(j, model, p, opts, fuel),
        ExpressionData::UnaryExpression(p) => unary_expression_json_ok(j, model, p, opts, fuel),
        ExpressionData::BooleanLiteral(p) => boolean_literal_json_ok(j, model, p, opts, fuel),
        ExpressionData::NullLiteral(p) => null_literal_json_ok(j, model, p, opts, fuel),
        ExpressionData::StringLiteral(p) => string_literal_json_ok(j, model, p, opts, fuel),
        ExpressionData::IntLiteral(p) => int_literal_json_ok(j, model, p, opts, fuel),
        ExpressionData::DotAccessExpression(p) => dot_access_expression_json_ok(j, model, p, opts, fuel),
        ExpressionData::IndexAccessExpression(p) => index_access_expression_json_ok(j, model, p, opts, fuel),
        ExpressionData::FunctionCallExpression(p) => function_call_expression_json_ok(j, model, p, opts, fuel),
        ExpressionData::NonNullAssertExpression(p) => non_null_assert_expression_json_ok(j, model, p, opts, fuel),
        ExpressionData::IdentifierExpression(p) => identifier_expression_json_ok(j, model, p, opts, fuel),
    }
}

pub open spec fn file_item_json_ok(j: Json, model: Model, fi: FileItemData, opts: DumpOpts, fuel: nat) -> bool
    decreases fuel, 2nat,
{
    match fi {
        FileItemData::ImportDecl(p) => import_decl_json_ok(j, model, p, opts, fuel),
        FileItemData::TypeDecl(p) => type_decl_json_ok(j, model, p, opts, fuel),
        FileItemData::Statement(s) => stmt_json_ok(j, model, s, opts, fuel),
    }
}

pub open spec fn for_init_json_ok(j: Json, model: Model, fi: ForInitData, opts: DumpOpts, fuel: nat) -> bool
    decreases fuel, 2nat,
{
    match fi {
        ForInitData::Expression(e) => expr_json_ok(j, model, e, opts, fuel),
        ForInitData::VarDecl(s) => stmt_json_ok(j, model, s, opts, fuel),
    }
}

pub open spec fn switch_item_json_ok(j: Json, model: Model, si: SwitchItemData, opts: DumpOpts, fuel: nat) -> bool
    decreases fuel, 1nat,
{
    match si {
        SwitchItemData::Statement(p) => switch_body_statement_json_ok(j, model, p, opts, fuel),
        SwitchItemData::Case(p) => switch_case_json_ok(j, model, p, opts, fuel),
        SwitchItemData::Default(p) => switch_default_json_ok(j, model, p, opts, fuel),
    }
}

pub open spec fn opt_stmt_json_ok(j: Json, model: Model, s: Option<StatementData>, opts: DumpOpts, fuel: nat) -> bool
    decreases fuel, 2nat,
{
    match s {
        Some(s) => stmt_json_ok(j, model, s, opts, fuel),
        None => j is Null,
    }
}

pub open spec fn opt_expr_json_ok(j: Json, model: Model, e: Option<ExpressionData>, opts: DumpOpts, fuel: nat) -> bool
    decreases fuel, 2nat,
{
    match e {
        Some(e) => expr_json_ok(j, model, e, opts, fuel),
        None => j is Null,
    }
}

pub open spec fn opt_str_json_ok(j: Json, s: Option<String>) -> bool {
    match s {
        Some(s) => json_str_is(j, s@),
        None => j is Null,
    }
}

//--------------------------------------------------
// One node per item.  Each is dumped with a fuel that bounds the nesting depth: with no fuel
// left, or for a pointer past the end of its collection, the dump is null.  Children get one
// unit less.

/// The dump of a `File`: its node with its span and fields, when fuel is left and the
/// item exists.
pub open spec fn file_json_ok(j: Json, model: Model, p: ItemPtr<FileData>, opts: DumpOpts, fuel: nat) -> bool
    decreases fuel, 0nat,
{
    if fuel > 0 && p.id < model.files.items@.len() {
        let d = model.files.items@[p.id as int];
        &&& is_node(j, "File"@, opts, model.span_table.spec_get(p.spec_key()), seq!["items"@])
        &&& (node_field(j, opts, 0) matches Json::Array(xs) && xs@.len() == d.items@.len() && forall|k: int| 0 <= k < xs@.len() ==> file_item_json_ok(#[trigger] xs@[k], model, d.items@[k], opts, (fuel - 1) as nat))
    } else {
        j is Null
    }
}

pub fn file_json(model: &Model, p: ItemPtr<FileData>, opts: &DumpOpts, fuel: usize) -> (res: Json)
    ensures
        file_json_ok(res, *model, p, *opts, fuel as nat),
    decreases fuel, 0nat,
{
    if fuel == 0 || p.id >= model.files.items.len() {
        return Json::Null;
    }
    let item = model.item(p);
    let d = item.data();
    let f = fuel - 1;
    let mut fields: Vec<(&'static str, Json)> = Vec::new();
    let mut xs: Vec<Json> = Vec::new();
    let mut i: usize = 0;
    while i < d.items.len()
        invariant
            f < fuel,
            i <= d.items@.len(),
            xs@.len() == i,
            forall|k: int| 0 <= k < i ==> #[trigger] file_item_json_ok(xs@[k], *model, d.items@[k], *opts, f as nat),
        decreases d.items@.len() - i,
    {
        xs.push(file_item_json(model, d.items[i], opts, f));
        i = i + 1;
    }
    fields.push(("items", Json::Array(xs)));
    node("File", item.span(), opts, fields)
}

/// The dump of a `TypeDecl`: its node with its span and fields, when fuel is left and the
/// item exists.
pub open spec fn type_decl_json_ok(j: Json, model: Model, p: ItemPtr<TypeDeclData>, opts: DumpOpts, fuel: nat) -> bool
    decreases fuel, 0nat,
{
    if fuel > 0 && p.id < model.type_decls.items@.len() {
        &&& is_node(j, "TypeDecl"@, opts, model.span_table.spec_get(p.spec_key()), seq![])
    } else {
        j is Null
    }
}

pub fn type_decl_json(model: &Model, p: ItemPtr<TypeDeclData>, opts: &DumpOpts, fuel: usize) -> (res: Json)
    ensures
        type_decl_json_ok(res, *model, p, *opts, fuel as nat),
    decreases fuel, 0nat,
{
    if fuel == 0 || p.id >= model.type_decls.items.len() {
        return Json::Null;
    }
    let item = model.item(p);
    let fields: Vec<(&'static str, Json)> = Vec::new();
    node("TypeDecl", item.span(), opts, fields)
}

/// The dump of a `ImportDecl`: its node with its span and fields, when fuel is left and the
/// item exists.
pub open spec fn import_decl_json_ok(j: Json, model: Model, p: ItemPtr<ImportDeclData>, opts: DumpOpts, fuel: nat) -> bool
    decreases fuel, 0nat,
{
    if fuel > 0 && p.id < model.import_decls.items@.len() {
        let d = model.import_decls.items@[p.id as int];
        &&& is_node(j, "ImportDecl"@, opts, model.span_table.spec_get(p.spec_key()), seq!["name"@, "source"@])
        &&& json_str_is(node_field(j, opts, 0), d.name@)
        &&& json_str_is(node_field(j, opts, 1), d.source@)
    } else {
        j is Null
    }
}

pub fn import_decl_json(model: &Model, p: ItemPtr<ImportDeclData>, opts: &DumpOpts, fuel: usize) -> (res: Json)
    ensures
        import_decl_json_ok(res, *model, p, *opts, fuel as nat),
    decreases fuel, 0nat,
{
    if fuel == 0 || p.id >= model.import_decls.items.len() {
        return Json::Null;
    }
    let item = model.item(p);
    let d = item.data();
    let f = fuel - 1;
    let mut fields: Vec<(&'static str, Json)> = Vec::new();
    fields.push(("name", Json::Str(String::from_str(d.name.as_str()))));
    fields.push(("source", Json::Str(String::from_str(d.source.as_str()))));
    node("ImportDecl", item.span(), opts, fields)
}

/// The dump of a `EmptyStatement`: its node with its span and fields, when fuel is left and the
/// item exists.
pub open spec fn empty_statement_json_ok(j: Json, model: Model, p: ItemPtr<EmptyStatementData>, opts: DumpOpts, fuel: nat) -> bool
    decreases fuel, 0nat,
{
    if fuel > 0 && p.id < model.empty_statements.items@.len() {
        &&& is_node(j, "EmptyStatement"@, opts, model.span_table.spec_get(p.spec_key()), seq![])
    } else {
        j is Null
    }
}

pub fn empty_statement_json(model: &Model, p: ItemPtr<EmptyStatementData>, opts: &DumpOpts, fuel: usize) -> (res: Json)
    ensures
        empty_statement_json_ok(res, *model, p, *opts, fuel as nat),
    decreases fuel, 0nat,
{
    if fuel == 0 || p.id >= model.empty_statements.items.len() {
        return Json::Null;
    }
    let item = model.item(p);
    let fields: Vec<(&'static str, Json)> = Vec::new();
    node("EmptyStatement", item.span(), opts, fields)
}

/// The dump of a `ExpressionStatement`: its node with its span and fields, when fuel is left and the
/// item exists.
pub open spec fn expression_statement_json_ok(j: Json, model: Model, p: ItemPtr<ExpressionStatementData>, opts: DumpOpts, fuel: nat) -> bool
    decreases fuel, 0nat,
{
    if fuel > 0 && p.id < model.expression_statements.items@.len() {
        let d = model.expression_statements.items@[p.id as int];
        &&& is_node(j, "ExpressionStatement"@, opts, model.span_table.spec_get(p.spec_key()), seq!["exp"@])
        &&& expr_json_ok(node_field(j, opts, 0), model, d.exp, opts, (fuel - 1) as nat)
    } else {
        j is Null
    }
}

pub fn expression_statement_json(model: &Model, p: ItemPtr<ExpressionStatementData>, opts: &DumpOpts, fuel: usize) -> (res: Json)
    ensures
        expression_statement_json_ok(res, *model, p, *opts, fuel as nat),
    decreases fuel, 0nat,
{
    if fuel == 0 || p.id >= model.expression_statements.items.len() {
        return Json::Null;
    }
    let item = model.item(p);
    let d = item.data();
    let f = fuel - 1;
    let mut fields: Vec<(&'static str, Json)> = Vec::new();
    fields.push(("exp", expression_json(model, d.exp, opts, f)));
    node("ExpressionStatement", item.span(), opts, fields)
}

/// The dump of a `IfStatement`: its node with its span and fields, when fuel is left and the
/// item exists.
pub open spec fn if_statement_json_ok(j: Json, model: Model, p: ItemPtr<IfStatementData>, opts: DumpOpts, fuel: nat) -> bool
    decreases fuel, 0nat,
{
    if fuel > 0 && p.id < model.if_statements.items@.len() {
        let d = model.if_statements.items@[p.id as int];
        &&& is_node(j, "IfStatement"@, opts, model.span_table.spec_get(p.spec_key()), seq!["test"@, "if_true"@, "if_false"@])
        &&& expr_json_ok(node_field(j, opts, 0), model, d.test, opts, (fuel - 1) as nat)
        &&& stmt_json_ok(node_field(j, opts, 1), model, d.if_true, opts, (fuel - 1) as nat)
        &&& opt_stmt_json_ok(node_field(j, opts, 2), model, d.if_false, opts, (fuel - 1) as nat)
    } else {
        j is Null
    }
}

pub fn if_statement_json(model: &Model, p: ItemPtr<IfStatementData>, opts: &DumpOpts, fuel: usize) -> (res: Json)
    ensures
        if_statement_json_ok(res, *model, p, *opts, fuel as nat),
    decreases fuel, 0nat,
{
    if fuel == 0 || p.id >= model.if_statements.items.len() {
        return Json::Null;
    }
    let item = model.item(p);
    let d = item.data();
    let f = fuel - 1;
    let mut fields: Vec<(&'static str, Json)> = Vec::new();
    fields.push(("test", expression_json(model, d.test, opts, f)));
    fields.push(("if_true", statement_json(model, d.if_true, opts, f)));
    let v = match d.if_false {
        Some(s) => statement_json(model, s, opts, f),
        None => Json::Null,
    };
    fields.push(("if_false", v));
    node("IfStatement", item.span(), opts, fields)
}

/// The dump of a `WhileStatement`: its node with its span and fields, when fuel is left and the
/// item exists.
pub open spec fn while_statement_json_ok(j: Json, model: Model, p: ItemPtr<WhileStatementData>, opts: DumpOpts, fuel: nat) -> bool
    decreases fuel, 0nat,
{
    if fuel > 0 && p.id < model.while_statements.items@.len() {
        let d = model.while_statements.items@[p.id as int];
        &&& is_node(j, "WhileStatement"@, opts, model.span_table.spec_get(p.spec_key()), seq!["test"@, "stmt"@])
        &&& expr_json_ok(node_field(j, opts, 0), model, d.test, opts, (fuel - 1) as nat)
        &&& stmt_json_ok(node_field(j, opts, 1), model, d.stmt, opts, (fuel - 1) as nat)
    } else {
        j is Null
    }
}

pub fn while_statement_json(model: &Model, p: ItemPtr<WhileStatementData>, opts: &DumpOpts, fuel: usize) -> (res: Json)
    ensures
        while_statement_json_ok(res, *model, p, *opts, fuel as nat),
    decreases fuel, 0nat,
{
    if fuel == 0 || p.id >= model.while_statements.items.len() {
        return Json::Null;
    }
    let item = model.item(p);
    let d = item.data();
    let f = fuel - 1;
    let mut fields: Vec<(&'static str, Json)> = Vec::new();
    fields.push(("test", expression_json(model, d.test, opts, f)));
    fields.push(("stmt", statement_json(model, d.stmt, opts, f)));
    node("WhileStatement", item.span(), opts, fields)
}

/// The dump of a `ReturnStatement`: its node with its span and fields, when fuel is left and the
/// item exists.
pub open spec fn return_statement_json_ok(j: Json, model: Model, p: ItemPtr<ReturnStatementData>, opts: DumpOpts, fuel: nat) -> bool
    decreases fuel, 0nat,
{
    if fuel > 0 && p.id < model.return_statements.items@.len() {
        let d = model.return_statements.items@[p.id as int];
        &&& is_node(j, "ReturnStatement"@, opts, model.span_table.spec_get(p.spec_key()), seq!["exp"@])
        &&& opt_expr_json_ok(node_field(j, opts, 0), model, d.exp, opts, (fuel - 1) as nat)
    } else {
        j is Null
    }
}

pub fn return_statement_json(model: &Model, p: ItemPtr<ReturnStatementData>, opts: &DumpOpts, fuel: usize) -> (res: Json)
    ensures
        return_statement_json_ok(res, *model, p, *opts, fuel as nat),
    decreases fuel, 0nat,
{
    if fuel == 0 || p.id >= model.return_statements.items.len() {
        return Json::Null;
    }
    let item = model.item(p);
    let d = item.data();
    let f = fuel - 1;
    let mut fields: Vec<(&'static str, Json)> = Vec::new();
    let v = match d.exp {
        Some(e) => expression_json(model, e, opts, f),
        None => Json::Null,
    };
    fields.push(("exp", v));
    node("ReturnStatement", item.span(), opts, fields)
}

/// The dump of a `BreakStatement`: its node with its span and fields, when fuel is left and the
/// item exists.
pub open spec fn break_statement_json_ok(j: Json, model: Model, p: ItemPtr<BreakStatementData>, opts: DumpOpts, fuel: nat) -> bool
    decreases fuel, 0nat,
{
    if fuel > 0 && p.id < model.break_statements.items@.len() {
        let d = model.break_statements.items@[p.id as int];
        &&& is_node(j, "BreakStatement"@, opts, model.span_table.spec_get(p.spec_key()), seq!["label"@])
        &&& opt_str_json_ok(node_field(j, opts, 0), d.label)
    } else {
        j is Null
    }
}

pub fn break_statement_json(model: &Model, p: ItemPtr<BreakStatementData>, opts: &DumpOpts, fuel: usize) -> (res: Json)
    ensures
        break_statement_json_ok(res, *model, p, *opts, fuel as nat),
    decreases fuel, 0nat,
{
    if fuel == 0 || p.id >= model.break_statements.items.len() {
        return Json::Null;
    }
    let item = model.item(p);
    let d = item.data();
    let f = fuel - 1;
    let mut fields: Vec<(&'static str, Json)> = Vec::new();
    let v = match &d.label {
        Some(s) => Json::Str(String::from_str(s.as_str())),
        None => Json::Null,
    };
    fields.push(("label", v));
    node("BreakStatement", item.span(), opts, fields)
}

/// The dump of a `ContinueStatement`: its node with its span and fields, when fuel is left and the
/// item exists.
pub open spec fn continue_statement_json_ok(j: Json, model: Model, p: ItemPtr<ContinueStatementData>, opts: DumpOpts, fuel: nat) -> bool
    decreases fuel, 0nat,
{
    if fuel > 0 && p.id < model.continue_statements.items@.len() {
        let d = model.continue_statements.items@[p.id as int];
        &&& is_node(j, "ContinueStatement"@, opts, model.span_table.spec_get(p.spec_key()), seq!["label"@])
        &&& opt_str_json_ok(node_field(j, opts, 0), d.label)
    } else {
        j is Null
    }
}

pub fn continue_statement_json(model: &Model, p: ItemPtr<ContinueStatementData>, opts: &DumpOpts, fuel: usize) -> (res: Json)
    ensures
        continue_statement_json_ok(res, *model, p, *opts, fuel as nat),
    decreases fuel, 0nat,
{
    if fuel == 0 || p.id >= model.continue_statements.items.len() {
        return Json::Null;
    }
    let item = model.item(p);
    let d = item.data();
    let f = fuel - 1;
    let mut fields: Vec<(&'static str, Json)> = Vec::new();
    let v = match &d.label {
        Some(s) => Json::Str(String::from_str(s.as_str())),
        None => Json::Null,
    };
    fields.push(("label", v));
    node("ContinueStatement", item.span(), opts, fields)
}

/// The dump of a `BlockStatement`: its node with its span and fields, when fuel is left and the
/// item exists.
pub open spec fn block_statement_json_ok(j: Json, model: Model, p: ItemPtr<BlockStatementData>, opts: DumpOpts, fuel: nat) -> bool
    decreases fuel, 0nat,
{
    if fuel > 0 && p.id < model.block_statements.items@.len() {
        let d = model.block_statements.items@[p.id as int];
        &&& is_node(j, "BlockStatement"@, opts, model.span_table.spec_get(p.spec_key()), seq!["stmts"@])
        &&& (node_field(j, opts, 0) matches Json::Array(xs) && xs@.len() == d.stmts@.len() && forall|k: int| 0 <= k < xs@.len() ==> stmt_json_ok(#[trigger] xs@[k], model, d.stmts@[k], opts, (fuel - 1) as nat))
    } else {
        j is Null
    }
}

pub fn block_statement_json(model: &Model, p: ItemPtr<BlockStatementData>, opts: &DumpOpts, fuel: usize) -> (res: Json)
    ensures
        block_statement_json_ok(res, *model, p, *opts, fuel as nat),
    decreases fuel, 0nat,
{
    if fuel == 0 || p.id >= model.block_statements.items.len() {
        return Json::Null;
    }
    let item = model.item(p);
    let d = item.data();
    let f = fuel - 1;
    let mut fields: Vec<(&'static str, Json)> = Vec::new();
    let mut xs: Vec<Json> = Vec::new();
    let mut i: usize = 0;
    while i < d.stmts.len()
        invariant
            f < fuel,
            i <= d.stmts@.len(),
            xs@.len() == i,
            forall|k: int| 0 <= k < i ==> #[trigger] stmt_json_ok(xs@[k], *model, d.stmts@[k], *opts, f as nat),
        decreases d.stmts@.len() - i,
    {
        xs.push(statement_json(model, d.stmts[i], opts, f));
        i = i + 1;
    }
    let ghost gx = xs;
    fields.push(("stmts", Json::Array(xs)));
    let res = node("BlockStatement", item.span(), opts, fields);
    proof {
        assert(node_field(res, *opts, 0) == Json::Array(gx));
        assert(node_field(res, *opts, 0) matches Json::Array(v) && v@ == gx@);
        assert forall|k: int| 0 <= k < gx@.len() implies stmt_json_ok(
            #[trigger] gx@[k],
            *model,
            model.block_statements.items@[p.id as int].stmts@[k],
            *opts,
            ((fuel as nat) - 1) as nat,
        ) by {
            assert(stmt_json_ok(gx@[k], *model, d.stmts@[k], *opts, f as nat));
        }
    }
    res
}

/// The dump of a `ForStatement`: its node with its span and fields, when fuel is left and the
/// item exists.
pub open spec fn for_statement_json_ok(j: Json, model: Model, p: ItemPtr<ForStatementData>, opts: DumpOpts, fuel: nat) -> bool
    decreases fuel, 0nat,
{
    if fuel > 0 && p.id < model.for_statements.items@.len() {
        let d = model.for_statements.items@[p.id as int];
        &&& is_node(j, "ForStatement"@, opts, model.span_table.spec_get(p.spec_key()), seq!["init"@, "test"@, "advance"@, "stmt"@])
        &&& (match d.init { Some(fi) => for_init_json_ok(node_field(j, opts, 0), model, fi, opts, (fuel - 1) as nat), None => node_field(j, opts, 0) is Null })
        &&& opt_expr_json_ok(node_field(j, opts, 1), model, d.test, opts, (fuel - 1) as nat)
        &&& opt_expr_json_ok(node_field(j, opts, 2), model, d.advance, opts, (fuel - 1) as nat)
        &&& stmt_json_ok(node_field(j, opts, 3), model, d.stmt, opts, (fuel - 1) as nat)
    } else {
        j is Null
    }
}

pub fn for_statement_json(model: &Model, p: ItemPtr<ForStatementData>, opts: &DumpOpts, fuel: usize) -> (res: Json)
    ensures
        for_statement_json_ok(res, *model, p, *opts, fuel as nat),
    decreases fuel, 0nat,
{
    if fuel == 0 || p.id >= model.for_statements.items.len() {
        return Json::Null;
    }
    let item = model.item(p);
    let d = item.data();
    let f = fuel - 1;
    let mut fields: Vec<(&'static str, Json)> = Vec::new();
    let v = match d.init {
        Some(fi) => for_init_json(model, fi, opts, f),
        None => Json::Null,
    };
    fields.push(("init", v));
    let v = match d.test {
        Some(e) => expression_json(model, e, opts, f),
        None => Json::Null,
    };
    fields.push(("test", v));
    let v = match d.advance {
        Some(e) => expression_json(model, e, opts, f),
        None => Json::Null,
    };
    fields.push(("advance", v));
    fields.push(("stmt", statement_json(model, d.stmt, opts, f)));
    node("ForStatement", item.span(), opts, fields)
}

/// The dump of a `SwitchStatement`: its node with its span and fields, when fuel is left and the
/// item exists.
pub open spec fn switch_statement_json_ok(j: Json, model: Model, p: ItemPtr<SwitchStatementData>, opts: DumpOpts, fuel: nat) -> bool
    decreases fuel, 0nat,
{
    if fuel > 0 && p.id < model.switch_statements.items@.len() {
        let d = model.switch_statements.items@[p.id as int];
        &&& is_node(j, "SwitchStatement"@, opts, model.span_table.spec_get(p.spec_key()), seq!["exp"@, "items"@])
        &&& expr_json_ok(node_field(j, opts, 0), model, d.exp, opts, (fuel - 1) as nat)
        &&& (node_field(j, opts, 1) matches Json::Array(xs) && xs@.len() == d.items@.len() && forall|k: int| 0 <= k < xs@.len() ==> switch_item_json_ok(#[trigger] xs@[k], model, d.items@[k], opts, (fuel - 1) as nat))
    } else {
        j is Null
    }
}

pub fn switch_statement_json(model: &Model, p: ItemPtr<SwitchStatementData>, opts: &DumpOpts, fuel: usize) -> (res: Json)
    ensures
        switch_statement_json_ok(res, *model, p, *opts, fuel as nat),
    decreases fuel, 0nat,
{
    if fuel == 0 || p.id >= model.switch_statements.items.len() {
        return Json::Null;
    }
    let item = model.item(p);
    let d = item.data();
    let f = fuel - 1;
    let mut fields: Vec<(&'static str, Json)> = Vec::new();
    fields.push(("exp", expression_json(model, d.exp, opts, f)));
    let mut xs: Vec<Json> = Vec::new();
    let mut i: usize = 0;
    while i < d.items.len()
        invariant
            f < fuel,
            i <= d.items@.len(),
            xs@.len() == i,
            forall|k: int| 0 <= k < i ==> #[trigger] switch_item_json_ok(xs@[k], *model, d.items@[k], *opts, f as nat),
        decreases d.items@.len() - i,
    {
        xs.push(switch_item_json(model, d.items[i], opts, f));
        i = i + 1;
    }
    let ghost gx = xs;
    fields.push(("items", Json::Array(xs)));
    let res = node("SwitchStatement", item.span(), opts, fields);
    proof {
        assert(node_field(res, *opts, 1) == Json::Array(gx));
        assert(node_field(res, *opts, 1) matches Json::Array(v) && v@ == gx@);
        assert forall|k: int| 0 <= k < gx@.len() implies switch_item_json_ok(
            #[trigger] gx@[k],
            *model,
            model.switch_statements.items@[p.id as int].items@[k],
            *opts,
            ((fuel as nat) - 1) as nat,
        ) by {
            assert(switch_item_json_ok(gx@[k], *model, d.items@[k], *opts, f as nat));
        }
    }
    res
}

/// The dump of a `SwitchBodyStatement`: its node with its span and fields, when fuel is left and the
/// item exists.
pub open spec fn switch_body_statement_json_ok(j: Json, model: Model, p: ItemPtr<SwitchBodyStatementData>, opts: DumpOpts, fuel: nat) -> bool
    decreases fuel, 0nat,
{
    if fuel > 0 && p.id < model.switch_body_statements.items@.len() {
        let d = model.switch_body_statements.items@[p.id as int];
        &&& is_node(j, "SwitchBodyStatement"@, opts, model.span_table.spec_get(p.spec_key()), seq!["stmt"@])
        &&& stmt_json_ok(node_field(j, opts, 0), model, d.stmt, opts, (fuel - 1) as nat)
    } else {
        j is Null
    }
}

pub fn switch_body_statement_json(model: &Model, p: ItemPtr<SwitchBodyStatementData>, opts: &DumpOpts, fuel: usize) -> (res: Json)
    ensures
        switch_body_statement_json_ok(res, *model, p, *opts, fuel as nat),
    decreases fuel, 0nat,
{
    if fuel == 0 || p.id >= model.switch_body_statements.items.len() {
        return Json::Null;
    }
    let item = model.item(p);
    let d = item.data();
    let f = fuel - 1;
    let mut fields: Vec<(&'static str, Json)> = Vec::new();
    fields.push(("stmt", statement_json(model, d.stmt, opts, f)));
    node("SwitchBodyStatement", item.span(), opts, fields)
}

/// The dump of a `SwitchCase`: its node with its span and fields, when fuel is left and the
/// item exists.
pub open spec fn switch_case_json_ok(j: Json, model: Model, p: ItemPtr<SwitchCaseData>, opts: DumpOpts, fuel: nat) -> bool
    decreases fuel, 0nat,
{
    if fuel > 0 && p.id < model.switch_cases.items@.len() {
        let d = model.switch_cases.items@[p.id as int];
        &&& is_node(j, "SwitchCase"@, opts, model.span_table.spec_get(p.spec_key()), seq!["exp"@])
        &&& expr_json_ok(node_field(j, opts, 0), model, d.exp, opts, (fuel - 1) as nat)
    } else {
        j is Null
    }
}

pub fn switch_case_json(model: &Model, p: ItemPtr<SwitchCaseData>, opts: &DumpOpts, fuel: usize) -> (res: Json)
    ensures
        switch_case_json_ok(res, *model, p, *opts, fuel as nat),
    decreases fuel, 0nat,
{
    if fuel == 0 || p.id >= model.switch_cases.items.len() {
        return Json::Null;
    }
    let item = model.item(p);
    let d = item.data();
    let f = fuel - 1;
    let mut fields: Vec<(&'static str, Json)> = Vec::new();
    fields.push(("exp", expression_json(model, d.exp, opts, f)));
    node("SwitchCase", item.span(), opts, fields)
}

/// The dump of a `SwitchDefault`: its node with its span and fields, when fuel is left and the
/// item exists.
pub open spec fn switch_default_json_ok(j: Json, model: Model, p: ItemPtr<SwitchDefaultData>, opts: DumpOpts, fuel: nat) -> bool
    decreases fuel, 0nat,
{
    if fuel > 0 && p.id < model.switch_defaults.items@.len() {
        &&& is_node(j, "SwitchDefault"@, opts, model.span_table.spec_get(p.spec_key()), seq![])
    } else {
        j is Null
    }
}

pub fn switch_default_json(model: &Model, p: ItemPtr<SwitchDefaultData>, opts: &DumpOpts, fuel: usize) -> (res: Json)
    ensures
        switch_default_json_ok(res, *model, p, *opts, fuel as nat),
    decreases fuel, 0nat,
{
    if fuel == 0 || p.id >= model.switch_defaults.items.len() {
        return Json::Null;
    }
    let item = model.item(p);
    let fields: Vec<(&'static str, Json)> = Vec::new();
    node("SwitchDefault", item.span(), opts, fields)
}

/// The dump of a `VarDeclStatement`: its node with its span and fields, when fuel is left and the
/// item exists.
pub open spec fn var_decl_statement_json_ok(j: Json, model: Model, p: ItemPtr<VarDeclStatementData>, opts: DumpOpts, fuel: nat) -> bool
    decreases fuel, 0nat,
{
    if fuel > 0 && p.id < model.var_decl_statements.items@.len() {
        let d = model.var_decl_statements.items@[p.id as int];
        &&& is_node(j, "VarDeclStatement"@, opts, model.span_table.spec_get(p.spec_key()), seq!["let_or_const"@, "name"@, "init"@])
        &&& json_str_is(node_field(j, opts, 0), spec_let_or_const_name(d.let_or_const))
        &&& json_str_is(node_field(j, opts, 1), d.name@)
        &&& opt_expr_json_ok(node_field(j, opts, 2), model, d.init, opts, (fuel - 1) as nat)
    } else {
        j is Null
    }
}

pub fn var_decl_statement_json(model: &Model, p: ItemPtr<VarDeclStatementData>, opts: &DumpOpts, fuel: usize) -> (res: Json)
    ensures
        var_decl_statement_json_ok(res, *model, p, *opts, fuel as nat),
    decreases fuel, 0nat,
{
    if fuel == 0 || p.id >= model.var_decl_statements.items.len() {
        return Json::Null;
    }
    let item = model.item(p);
    let d = item.data();
    let f = fuel - 1;
    let mut fields: Vec<(&'static str, Json)> = Vec::new();
    fields.push(("let_or_const", Json::Str(String::from_str(let_or_const_name(d.let_or_const)))));
    fields.push(("name", Json::Str(String::from_str(d.name.as_str()))));
    let v = match d.init {
        Some(e) => expression_json(model, e, opts, f),
        None => Json::Null,
    };
    fields.push(("init", v));
    node("VarDeclStatement", item.span(), opts, fields)
}

/// The dump of a `FunctionDeclStatement`: its node with its span and fields, when fuel is left and the
/// item exists.
pub open spec fn function_decl_statement_json_ok(j: Json, model: Model, p: ItemPtr<FunctionDeclStatementData>, opts: DumpOpts, fuel: nat) -> bool
    decreases fuel, 0nat,
{
    if fuel > 0 && p.id < model.function_decl_statements.items@.len() {
        let d = model.function_decl_statements.items@[p.id as int];
        &&& is_node(j, "FunctionDeclStatement"@, opts, model.span_table.spec_get(p.spec_key()), seq!["name"@, "signature"@, "body"@])
        &&& json_str_is(node_field(j, opts, 0), d.name@)
        &&& function_signature_json_ok(node_field(j, opts, 1), model, d.signature, opts, (fuel - 1) as nat)
        &&& stmt_json_ok(node_field(j, opts, 2), model, d.body, opts, (fuel - 1) as nat)
    } else {
        j is Null
    }
}

pub fn function_decl_statement_json(model: &Model, p: ItemPtr<FunctionDeclStatementData>, opts: &DumpOpts, fuel: usize) -> (res: Json)
    ensures
        function_decl_statement_json_ok(res, *model, p, *opts, fuel as nat),
    decreases fuel, 0nat,
{
    if fuel == 0 || p.id >= model.function_decl_statements.items.len() {
        return Json::Null;
    }
    let item = model.item(p);
    let d = item.data();
    let f = fuel - 1;
    let mut fields: Vec<(&'static str, Json)> = Vec::new();
    fields.push(("name", Json::Str(String::from_str(d.name.as_str()))));
    fields.push(("signature", function_signature_json(model, d.signature, opts, f)));
    fields.push(("body", statement_json(model, d.body, opts, f)));
    node("FunctionDeclStatement", item.span(), opts, fields)
}

/// The dump of a `FunctionSignature`: its node with its span and fields, when fuel is left and the
/// item exists.
pub open spec fn function_signature_json_ok(j: Json, model: Model, p: ItemPtr<FunctionSignatureData>, opts: DumpOpts, fuel: nat) -> bool
    decreases fuel, 0nat,
{
    if fuel > 0 && p.id < model.function_signatures.items@.len() {
        let d = model.function_signatures.items@[p.id as int];
        &&& is_node(j, "FunctionSignature"@, opts, model.span_table.spec_get(p.spec_key()), seq!["args"@])
        &&& (node_field(j, opts, 0) matches Json::Array(xs) && xs@.len() == d.args@.len() && forall|k: int| 0 <= k < xs@.len() ==> function_decl_arg_json_ok(#[trigger] xs@[k], model, d.args@[k], opts, (fuel - 1) as nat))
    } else {
        j is Null
    }
}

pub fn function_signature_json(model: &Model, p: ItemPtr<FunctionSignatureData>, opts: &DumpOpts, fuel: usize) -> (res: Json)
    ensures
        function_signature_json_ok(res, *model, p, *opts, fuel as nat),
    decreases fuel, 0nat,
{
    if fuel == 0 || p.id >= model.function_signatures.items.len() {
        return Json::Null;
    }
    let item = model.item(p);
    let d = item.data();
    let f = fuel - 1;
    let mut fields: Vec<(&'static str, Json)> = Vec::new();
    let mut xs: Vec<Json> = Vec::new();
    let mut i: usize = 0;
    while i < d.args.len()
        invariant
            f < fuel,
            i <= d.args@.len(),
            xs@.len() == i,
            forall|k: int| 0 <= k < i ==> function_decl_arg_json_ok(#[trigger] xs@[k], *model, d.args@[k], *opts, f as nat),
        decreases d.args@.len() - i,
    {
        xs.push(function_decl_arg_json(model, d.args[i], opts, f));
        i = i + 1;
    }
    fields.push(("args", Json::Array(xs)));
    node("FunctionSignature", item.span(), opts, fields)
}

/// The dump of a `FunctionDeclArg`: its node with its span and fields, when fuel is left and the
/// item exists.
pub open spec fn function_decl_arg_json_ok(j: Json, model: Model, p: ItemPtr<FunctionDeclArgData>, opts: DumpOpts, fuel: nat) -> bool
    decreases fuel, 0nat,
{
    if fuel > 0 && p.id < model.function_decl_args.items@.len() {
        let d = model.function_decl_args.items@[p.id as int];
        &&& is_node(j, "FunctionDeclArg"@, opts, model.span_table.spec_get(p.spec_key()), seq!["name"@])
        &&& json_str_is(node_field(j, opts, 0), d.name@)
    } else {
        j is Null
    }
}

pub fn function_decl_arg_json(model: &Model, p: ItemPtr<FunctionDeclArgData>, opts: &DumpOpts, fuel: usize) -> (res: Json)
    ensures
        function_decl_arg_json_ok(res, *model, p, *opts, fuel as nat),
    decreases fuel, 0nat,
{
    if fuel == 0 || p.id >= model.function_decl_args.items.len() {
        return Json::Null;
    }
    let item = model.item(p);
    let d = item.data();
    let f = fuel - 1;
    let mut fields: Vec<(&'static str, Json)> = Vec::new();
    fields.push(("name", Json::Str(String::from_str(d.name.as_str()))));
    node("FunctionDeclArg", item.span(), opts, fields)
}

/// The dump of a `LabeledStatement`: its node with its span and fields, when fuel is left and the
/// item exists.
pub open spec fn labeled_statement_json_ok(j: Json, model: Model, p: ItemPtr<LabeledStatementData>, opts: DumpOpts, fuel: nat) -> bool
    decreases fuel, 0nat,
{
    if fuel > 0 && p.id < model.labeled_statements.items@.len() {
        let d = model.labeled_statements.items@[p.id as int];
        &&& is_node(j, "LabeledStatement"@, opts, model.span_table.spec_get(p.spec_key()), seq!["name"@, "stmt"@])
        &&& json_str_is(node_field(j, opts, 0), d.name@)
        &&& stmt_json_ok(node_field(j, opts, 1), model, d.stmt, opts, (fuel - 1) as nat)
    } else {
        j is Null
    }
}

pub fn labeled_statement_json(model: &Model, p: ItemPtr<LabeledStatementData>, opts: &DumpOpts, fuel: usize) -> (res: Json)
    ensures
        labeled_statement_json_ok(res, *model, p, *opts, fuel as nat),
    decreases fuel, 0nat,
{
    if fuel == 0 || p.id >= model.labeled_statements.items.len() {
        return Json::Null;
    }
    let item = model.item(p);
    let d = item.data();
    let f = fuel - 1;
    let mut fields: Vec<(&'static str, Json)> = Vec::new();
    fields.push(("name", Json::Str(String::from_str(d.name.as_str()))));
    fields.push(("stmt", statement_json(model, d.stmt, opts, f)));
    node("LabeledStatement", item.span(), opts, fields)
}

/// The dump of a `TryStatement`: its node with its span and fields, when fuel is left and the
/// item exists.
pub open spec fn try_statement_json_ok(j: Json, model: Model, p: ItemPtr<TryStatementData>, opts: DumpOpts, fuel: nat) -> bool
    decreases fuel, 0nat,
{
    if fuel > 0 && p.id < model.try_statements.items@.len() {
        let d = model.try_statements.items@[p.id as int];
        &&& is_node(j, "TryStatement"@, opts, model.span_table.spec_get(p.spec_key()), seq!["stmt"@, "catch_clause"@, "finally_clause"@])
        &&& stmt_json_ok(node_field(j, opts, 0), model, d.stmt, opts, (fuel - 1) as nat)
        &&& (match d.catch_clause { Some(c) => catch_clause_json_ok(node_field(j, opts, 1), model, c, opts, (fuel - 1) as nat), None => node_field(j, opts, 1) is Null })
        &&& opt_stmt_json_ok(node_field(j, opts, 2), model, d.finally_clause, opts, (fuel - 1) as nat)
    } else {
        j is Null
    }
}

pub fn try_statement_json(model: &Model, p: ItemPtr<TryStatementData>, opts: &DumpOpts, fuel: usize) -> (res: Json)
    ensures
        try_statement_json_ok(res, *model, p, *opts, fuel as nat),
    decreases fuel, 0nat,
{
    if fuel == 0 || p.id >= model.try_statements.items.len() {
        return Json::Null;
    }
    let item = model.item(p);
    let d = item.data();
    let f = fuel - 1;
    let mut fields: Vec<(&'static str, Json)> = Vec::new();
    fields.push(("stmt", statement_json(model, d.stmt, opts, f)));
    let v = match d.catch_clause {
        Some(c) => catch_clause_json(model, c, opts, f),
        None => Json::Null,
    };
    fields.push(("catch_clause", v));
    let v = match d.finally_clause {
        Some(s) => statement_json(model, s, opts, f),
        None => Json::Null,
    };
    fields.push(("finally_clause", v));
    node("TryStatement", item.span(), opts, fields)
}

/// The dump of a `CatchClause`: its node with its span and fields, when fuel is left and the
/// item exists.
pub open spec fn catch_clause_json_ok(j: Json, model: Model, p: ItemPtr<CatchClauseData>, opts: DumpOpts, fuel: nat) -> bool
    decreases fuel, 0nat,
{
    if fuel > 0 && p.id < model.catch_clauses.items@.len() {
        let d = model.catch_clauses.items@[p.id as int];
        &&& is_node(j, "CatchClause"@, opts, model.span_table.spec_get(p.spec_key()), seq!["name"@, "stmt"@])
        &&& opt_str_json_ok(node_field(j, opts, 0), d.name)
        &&& stmt_json_ok(node_field(j, opts, 1), model, d.stmt, opts, (fuel - 1) as nat)
    } else {
        j is Null
    }
}

pub fn catch_clause_json(model: &Model, p: ItemPtr<CatchClauseData>, opts: &DumpOpts, fuel: usize) -> (res: Json)
    ensures
        catch_clause_json_ok(res, *model, p, *opts, fuel as nat),
    decreases fuel, 0nat,
{
    if fuel == 0 || p.id >= model.catch_clauses.items.len() {
        return Json::Null;
    }
    let item = model.item(p);
    let d = item.data();
    let f = fuel - 1;
    let mut fields: Vec<(&'static str, Json)> = Vec::new();
    let v = match &d.name {
        Some(s) => Json::Str(String::from_str(s.as_str())),
        None => Json::Null,
    };
    fields.push(("name", v));
    fields.push(("stmt", statement_json(model, d.stmt, opts, f)));
    node("CatchClause", item.span(), opts, fields)
}

/// The dump of a `CommaExpression`: its node with its span and fields, when fuel is left and the
/// item exists.
pub open spec fn comma_expression_json_ok(j: Json, model: Model, p: ItemPtr<CommaExpressionData>, opts: DumpOpts, fuel: nat) -> bool
    decreases fuel, 0nat,
{
    if fuel > 0 && p.id < model.comma_expressions.items@.len() {
        let d = model.comma_expressions.items@[p.id as int];
        &&& is_node(j, "CommaExpression"@, opts, model.span_table.spec_get(p.spec_key()), seq!["exps"@])
        &&& (node_field(j, opts, 0) matches Json::Array(xs) && xs@.len() == d.exps@.len() && forall|k: int| 0 <= k < xs@.len() ==> expr_json_ok(#[trigger] xs@[k], model, d.exps@[k], opts, (fuel - 1) as nat))
    } else {
        j is Null
    }
}

pub fn comma_expression_json(model: &Model, p: ItemPtr<CommaExpressionData>, opts: &DumpOpts, fuel: usize) -> (res: Json)
    ensures
        comma_expression_json_ok(res, *model, p, *opts, fuel as nat),
    decreases fuel, 0nat,
{
    if fuel == 0 || p.id >= model.comma_expressions.items.len() {
        return Json::Null;
    }
    let item = model.item(p);
    let d = item.data();
    let f = fuel - 1;
    let mut fields: Vec<(&'static str, Json)> = Vec::new();
    let mut xs: Vec<Json> = Vec::new();
    let mut i: usize = 0;
    while i < d.exps.len()
        invariant
            f < fuel,
            i <= d.exps@.len(),
            xs@.len() == i,
            forall|k: int| 0 <= k < i ==> #[trigger] expr_json_ok(xs@[k], *model, d.exps@[k], *opts, f as nat),
        decreases d.exps@.len() - i,
    {
        xs.push(expression_json(model, d.exps[i], opts, f));
        i = i + 1;
    }
    let ghost gx = xs;
    fields.push(("exps", Json::Array(xs)));
    let res = node("CommaExpression", item.span(), opts, fields);
    proof {
        assert(node_field(res, *opts, 0) == Json::Array(gx));
        assert(node_field(res, *opts, 0) matches Json::Array(v) && v@ == gx@);
        assert forall|k: int| 0 <= k < gx@.len() implies expr_json_ok(
            #[trigger] gx@[k],
            *model,
            model.comma_expressions.items@[p.id as int].exps@[k],
            *opts,
            ((fuel as nat) - 1) as nat,
        ) by {
            assert(expr_json_ok(gx@[k], *model, d.exps@[k], *opts, f as nat));
        }
    }
    res
}

/// The dump of a `TernaryExpression`: its node with its span and fields, when fuel is left and the
/// item exists.
pub open spec fn ternary_expression_json_ok(j: Json, model: Model, p: ItemPtr<TernaryExpressionData>, opts: DumpOpts, fuel: nat) -> bool
    decreases fuel, 0nat,
{
    if fuel > 0 && p.id < model.ternary_expressions.items@.len() {
        let d = model.ternary_expressions.items@[p.id as int];
        &&& is_node(j, "TernaryExpression"@, opts, model.span_table.spec_get(p.spec_key()), seq!["test"@, "if_true"@, "if_false"@])
        &&& expr_json_ok(node_field(j, opts, 0), model, d.test, opts, (fuel - 1) as nat)
        &&& expr_json_ok(node_field(j, opts, 1), model, d.if_true, opts, (fuel - 1) as nat)
        &&& expr_json_ok(node_field(j, opts, 2), model, d.if_false, opts, (fuel - 1) as nat)
    } else {
        j is Null
    }
}

pub fn ternary_expression_json(model: &Model, p: ItemPtr<TernaryExpressionData>, opts: &DumpOpts, fuel: usize) -> (res: Json)
    ensures
        ternary_expression_json_ok(res, *model, p, *opts, fuel as nat),
    decreases fuel, 0nat,
{
    if fuel == 0 || p.id >= model.ternary_expressions.items.len() {
        return Json::Null;
    }
    let item = model.item(p);
    let d = item.data();
    let f = fuel - 1;
    let mut fields: Vec<(&'static str, Json)> = Vec::new();
    fields.push(("test", expression_json(model, d.test, opts, f)));
    fields.push(("if_true", expression_json(model, d.if_true, opts, f)));
    fields.push(("if_false", expression_json(model, d.if_false, opts, f)));
    node("TernaryExpression", item.span(), opts, fields)
}

/// The dump of a `BinaryExpression`: its node with its span and fields, when fuel is left and the
/// item exists.
pub open spec fn binary_expression_json_ok(j: Json, model: Model, p: ItemPtr<BinaryExpressionData>, opts: DumpOpts, fuel: nat) -> bool
    decreases fuel, 0nat,
{
    if fuel > 0 && p.id < model.binary_expressions.items@.len() {
        let d = model.binary_expressions.items@[p.id as int];
        &&& is_node(j, "BinaryExpression"@, opts, model.span_table.spec_get(p.spec_key()), seq!["left"@, "op"@, "right"@])
        &&& expr_json_ok(node_field(j, opts, 0), model, d.left, opts, (fuel - 1) as nat)
        &&& json_str_is(node_field(j, opts, 1), spec_binary_op_name(d.op))
        &&& expr_json_ok(node_field(j, opts, 2), model, d.right, opts, (fuel - 1) as nat)
    } else {
        j is Null
    }
}

pub fn binary_expression_json(model: &Model, p: ItemPtr<BinaryExpressionData>, opts: &DumpOpts, fuel: usize) -> (res: Json)
    ensures
        binary_expression_json_ok(res, *model, p, *opts, fuel as nat),
    decreases fuel, 0nat,
{
    if fuel == 0 || p.id >= model.binary_expressions.items.len() {
        return Json::Null;
    }
    let item = model.item(p);
    let d = item.data();
    let f = fuel - 1;
    let mut fields: Vec<(&'static str, Json)> = Vec::new();
    fields.push(("left", expression_json(model, d.left, opts, f)));
    fields.push(("op", Json::Str(String::from_str(binary_op_name(d.op)))));
    fields.push(("right", expression_json(model, d.right, opts, f)));
    node("BinaryExpression", item.span(), opts, fields)
}

/// The dump of a `UnaryExpression`: its node with its span and fields, when fuel is left and the
/// item exists.
pub open spec fn unary_expression_json_ok(j: Json, model: Model, p: ItemPtr<UnaryExpressionData>, opts: DumpOpts, fuel: nat) -> bool
    decreases fuel, 0nat,
{
    if fuel > 0 && p.id < model.unary_expressions.items@.len() {
        let d = model.unary_expressions.items@[p.id as int];
        &&& is_node(j, "UnaryExpression"@, opts, model.span_table.spec_get(p.spec_key()), seq!["op"@, "exp"@])
        &&& json_str_is(node_field(j, opts, 0), spec_unary_op_name(d.op))
        &&& expr_json_ok(node_field(j, opts, 1), model, d.exp, opts, (fuel - 1) as nat)
    } else {
        j is Null
    }
}

pub fn unary_expression_json(model: &Model, p: ItemPtr<UnaryExpressionData>, opts: &DumpOpts, fuel: usize) -> (res: Json)
    ensures
        unary_expression_json_ok(res, *model, p, *opts, fuel as nat),
    decreases fuel, 0nat,
{
    if fuel == 0 || p.id >= model.unary_expressions.items.len() {
        return Json::Null;
    }
    let item = model.item(p);
    let d = item.data();
    let f = fuel - 1;
    let mut fields: Vec<(&'static str, Json)> = Vec::new();
    fields.push(("op", Json::Str(String::from_str(unary_op_name(d.op)))));
    fields.push(("exp", expression_json(model, d.exp, opts, f)));
    node("UnaryExpression", item.span(), opts, fields)
}

/// The dump of a `BooleanLiteral`: its node with its span and fields, when fuel is left and the
/// item exists.
pub open spec fn boolean_literal_json_ok(j: Json, model: Model, p: ItemPtr<BooleanLiteralData>, opts: DumpOpts, fuel: nat) -> bool
    decreases fuel, 0nat,
{
    if fuel > 0 && p.id < model.boolean_literals.items@.len() {
        let d = model.boolean_literals.items@[p.id as int];
        &&& is_node(j, "BooleanLiteral"@, opts, model.span_table.spec_get(p.spec_key()), seq!["value"@])
        &&& node_field(j, opts, 0) == Json::Bool(d.value)
    } else {
        j is Null
    }
}

pub fn boolean_literal_json(model: &Model, p: ItemPtr<BooleanLiteralData>, opts: &DumpOpts, fuel: usize) -> (res: Json)
    ensures
        boolean_literal_json_ok(res, *model, p, *opts, fuel as nat),
    decreases fuel, 0nat,
{
    if fuel == 0 || p.id >= model.boolean_literals.items.len() {
        return Json::Null;
    }
    let item = model.item(p);
    let d = item.data();
    let f = fuel - 1;
    let mut fields: Vec<(&'static str, Json)> = Vec::new();
    fields.push(("value", Json::Bool(d.value)));
    node("BooleanLiteral", item.span(), opts, fields)
}

/// The dump of a `NullLiteral`: its node with its span and fields, when fuel is left and the
/// item exists.
pub open spec fn null_literal_json_ok(j: Json, model: Model, p: ItemPtr<NullLiteralData>, opts: DumpOpts, fuel: nat) -> bool
    decreases fuel, 0nat,
{
    if fuel > 0 && p.id < model.null_literals.items@.len() {
        &&& is_node(j, "NullLiteral"@, opts, model.span_table.spec_get(p.spec_key()), seq![])
    } else {
        j is Null
    }
}

pub fn null_literal_json(model: &Model, p: ItemPtr<NullLiteralData>, opts: &DumpOpts, fuel: usize) -> (res: Json)
    ensures
        null_literal_json_ok(res, *model, p, *opts, fuel as nat),
    decreases fuel, 0nat,
{
    if fuel == 0 || p.id >= model.null_literals.items.len() {
        return Json::Null;
    }
    let item = model.item(p);
    let fields: Vec<(&'static str, Json)> = Vec::new();
    node("NullLiteral", item.span(), opts, fields)
}

/// The dump of a `StringLiteral`: its node with its span and fields, when fuel is left and the
/// item exists.
pub open spec fn string_literal_json_ok(j: Json, model: Model, p: ItemPtr<StringLiteralData>, opts: DumpOpts, fuel: nat) -> bool
    decreases fuel, 0nat,
{
    if fuel > 0 && p.id < model.string_literals.items@.len() {
        let d = model.string_literals.items@[p.id as int];
        &&& is_node(j, "StringLiteral"@, opts, model.span_table.spec_get(p.spec_key()), seq!["value"@])
        &&& json_str_is(node_field(j, opts, 0), d.value@)
    } else {
        j is Null
    }
}

pub fn string_literal_json(model: &Model, p: ItemPtr<StringLiteralData>, opts: &DumpOpts, fuel: usize) -> (res: Json)
    ensures
        string_literal_json_ok(res, *model, p, *opts, fuel as nat),
    decreases fuel, 0nat,
{
    if fuel == 0 || p.id >= model.string_literals.items.len() {
        return Json::Null;
    }
    let item = model.item(p);
    let d = item.data();
    let f = fuel - 1;
    let mut fields: Vec<(&'static str, Json)> = Vec::new();
    fields.push(("value", Json::Str(String::from_str(d.value.as_str()))));
    node("StringLiteral", item.span(), opts, fields)
}

/// The dump of a `IntLiteral`: its node with its span and fields, when fuel is left and the
/// item exists.
pub open spec fn int_literal_json_ok(j: Json, model: Model, p: ItemPtr<IntLiteralData>, opts: DumpOpts, fuel: nat) -> bool
    decreases fuel, 0nat,
{
    if fuel > 0 && p.id < model.int_literals.items@.len() {
        let d = model.int_literals.items@[p.id as int];
        &&& is_node(j, "IntLiteral"@, opts, model.span_table.spec_get(p.spec_key()), seq!["value"@, "suffix"@])
        &&& node_field(j, opts, 0) == Json::Num(d.value as i64)
        &&& (match d.suffix { Some(s) => json_str_is(node_field(j, opts, 1), spec_suffix_name(s)), None => node_field(j, opts, 1) is Null })
    } else {
        j is Null
    }
}

pub fn int_literal_json(model: &Model, p: ItemPtr<IntLiteralData>, opts: &DumpOpts, fuel: usize) -> (res: Json)
    ensures
        int_literal_json_ok(res, *model, p, *opts, fuel as nat),
    decreases fuel, 0nat,
{
    if fuel == 0 || p.id >= model.int_literals.items.len() {
        return Json::Null;
    }
    let item = model.item(p);
    let d = item.data();
    let f = fuel - 1;
    let mut fields: Vec<(&'static str, Json)> = Vec::new();
    fields.push(("value", Json::Num(d.value as i64)));
    let v = match d.suffix {
        Some(s) => Json::Str(String::from_str(suffix_name(s))),
        None => Json::Null,
    };
    fields.push(("suffix", v));
    node("IntLiteral", item.span(), opts, fields)
}

/// The dump of a `DotAccessExpression`: its node with its span and fields, when fuel is left and the
/// item exists.
pub open spec fn dot_access_expression_json_ok(j: Json, model: Model, p: ItemPtr<DotAccessExpressionData>, opts: DumpOpts, fuel: nat) -> bool
    decreases fuel, 0nat,
{
    if fuel > 0 && p.id < model.dot_access_expressions.items@.len() {
        let d = model.dot_access_expressions.items@[p.id as int];
        &&& is_node(j, "DotAccessExpression"@, opts, model.span_table.spec_get(p.spec_key()), seq!["exp"@, "name"@])
        &&& expr_json_ok(node_field(j, opts, 0), model, d.exp, opts, (fuel - 1) as nat)
        &&& json_str_is(node_field(j, opts, 1), d.name@)
    } else {
        j is Null
    }
}

pub fn dot_access_expression_json(model: &Model, p: ItemPtr<DotAccessExpressionData>, opts: &DumpOpts, fuel: usize) -> (res: Json)
    ensures
        dot_access_expression_json_ok(res, *model, p, *opts, fuel as nat),
    decreases fuel, 0nat,
{
    if fuel == 0 || p.id >= model.dot_access_expressions.items.len() {
        return Json::Null;
    }
    let item = model.item(p);
    let d = item.data();
    let f = fuel - 1;
    let mut fields: Vec<(&'static str, Json)> = Vec::new();
    fields.push(("exp", expression_json(model, d.exp, opts, f)));
    fields.push(("name", Json::Str(String::from_str(d.name.as_str()))));
    node("DotAccessExpression", item.span(), opts, fields)
}

/// The dump of a `IndexAccessExpression`: its node with its span and fields, when fuel is left and the
/// item exists.
pub open spec fn index_access_expression_json_ok(j: Json, model: Model, p: ItemPtr<IndexAccessExpressionData>, opts: DumpOpts, fuel: nat) -> bool
    decreases fuel, 0nat,
{
    if fuel > 0 && p.id < model.index_access_expressions.items@.len() {
        let d = model.index_access_expressions.items@[p.id as int];
        &&& is_node(j, "IndexAccessExpression"@, opts, model.span_table.spec_get(p.spec_key()), seq!["exp"@, "access_exp"@])
        &&& expr_json_ok(node_field(j, opts, 0), model, d.exp, opts, (fuel - 1) as nat)
        &&& expr_json_ok(node_field(j, opts, 1), model, d.access_exp, opts, (fuel - 1) as nat)
    } else {
        j is Null
    }
}

pub fn index_access_expression_json(model: &Model, p: ItemPtr<IndexAccessExpressionData>, opts: &DumpOpts, fuel: usize) -> (res: Json)
    ensures
        index_access_expression_json_ok(res, *model, p, *opts, fuel as nat),
    decreases fuel, 0nat,
{
    if fuel == 0 || p.id >= model.index_access_expressions.items.len() {
        return Json::Null;
    }
    let item = model.item(p);
    let d = item.data();
    let f = fuel - 1;
    let mut fields: Vec<(&'static str, Json)> = Vec::new();
    fields.push(("exp", expression_json(model, d.exp, opts, f)));
    fields.push(("access_exp", expression_json(model, d.access_exp, opts, f)));
    node("IndexAccessExpression", item.span(), opts, fields)
}

/// The dump of a `FunctionCallExpression`: its node with its span and fields, when fuel is left and the
/// item exists.
pub open spec fn function_call_expression_json_ok(j: Json, model: Model, p: ItemPtr<FunctionCallExpressionData>, opts: DumpOpts, fuel: nat) -> bool
    decreases fuel, 0nat,
{
    if fuel > 0 && p.id < model.function_call_expressions.items@.len() {
        let d = model.function_call_expressions.items@[p.id as int];
        &&& is_node(j, "FunctionCallExpression"@, opts, model.span_table.spec_get(p.spec_key()), seq!["exp"@, "args"@])
        &&& expr_json_ok(node_field(j, opts, 0), model, d.exp, opts, (fuel - 1) as nat)
        &&& (node_field(j, opts, 1) matches Json::Array(xs) && xs@.len() == d.args@.len() && forall|k: int| 0 <= k < xs@.len() ==> expr_json_ok(#[trigger] xs@[k], model, d.args@[k], opts, (fuel - 1) as nat))
    } else {
        j is Null
    }
}

pub fn function_call_expression_json(model: &Model, p: ItemPtr<FunctionCallExpressionData>, opts: &DumpOpts, fuel: usize) -> (res: Json)
    ensures
        function_call_expression_json_ok(res, *model, p, *opts, fuel as nat),
    decreases fuel, 0nat,
{
    if fuel == 0 || p.id >= model.function_call_expressions.items.len() {
        return Json::Null;
    }
    let item = model.item(p);
    let d = item.data();
    let f = fuel - 1;
    let mut fields: Vec<(&'static str, Json)> = Vec::new();
    fields.push(("exp", expression_json(model, d.exp, opts, f)));
    let mut xs: Vec<Json> = Vec::new();
    let mut i: usize = 0;
    while i < d.args.len()
        invariant
            f < fuel,
            i <= d.args@.len(),
            xs@.len() == i,
            forall|k: int| 0 <= k < i ==> #[trigger] expr_json_ok(xs@[k], *model, d.args@[k], *opts, f as nat),
        decreases d.args@.len() - i,
    {
        xs.push(expression_json(model, d.args[i], opts, f));
        i = i + 1;
    }
    let ghost gx = xs;
    fields.push(("args", Json::Array(xs)));
    let res = node("FunctionCallExpression", item.span(), opts, fields);
    proof {
        assert(node_field(res, *opts, 1) == Json::Array(gx));
        assert(node_field(res, *opts, 1) matches Json::Array(v) && v@ == gx@);
        assert forall|k: int| 0 <= k < gx@.len() implies expr_json_ok(
            #[trigger] gx@[k],
            *model,
            model.function_call_expressions.items@[p.id as int].args@[k],
            *opts,
            ((fuel as nat) - 1) as nat,
        ) by {
            assert(expr_json_ok(gx@[k], *model, d.args@[k], *opts, f as nat));
        }
    }
    res
}

/// The dump of a `NonNullAssertExpression`: its node with its span and fields, when fuel is left and the
/// item exists.
pub open spec fn non_null_assert_expression_json_ok(j: Json, model: Model, p: ItemPtr<NonNullAssertExpressionData>, opts: DumpOpts, fuel: nat) -> bool
    decreases fuel, 0nat,
{
    if fuel > 0 && p.id < model.non_null_assert_expressions.items@.len() {
        let d = model.non_null_assert_expressions.items@[p.id as int];
        &&& is_node(j, "NonNullAssertExpression"@, opts, model.span_table.spec_get(p.spec_key()), seq!["exp"@])
        &&& expr_json_ok(node_field(j, opts, 0), model, d.exp, opts, (fuel - 1) as nat)
    } else {
        j is Null
    }
}

pub fn non_null_assert_expression_json(model: &Model, p: ItemPtr<NonNullAssertExpressionData>, opts: &DumpOpts, fuel: usize) -> (res: Json)
    ensures
        non_null_assert_expression_json_ok(res, *model, p, *opts, fuel as nat),
    decreases fuel, 0nat,
{
    if fuel == 0 || p.id >= model.non_null_assert_expressions.items.len() {
        return Json::Null;
    }
    let item = model.item(p);
    let d = item.data();
    let f = fuel - 1;
    let mut fields: Vec<(&'static str, Json)> = Vec::new();
    fields.push(("exp", expression_json(model, d.exp, opts, f)));
    node("NonNullAssertExpression", item.span(), opts, fields)
}

/// The dump of a `IdentifierExpression`: its node with its span and fields, when fuel is left and the
/// item exists.
pub open spec fn identifier_expression_json_ok(j: Json, model: Model, p: ItemPtr<IdentifierExpressionData>, opts: DumpOpts, fuel: nat) -> bool
    decreases fuel, 0nat,
{
    if fuel > 0 && p.id < model.identifier_expressions.items@.len() {
        let d = model.identifier_expressions.items@[p.id as int];
        &&& is_node(j, "IdentifierExpression"@, opts, model.span_table.spec_get(p.spec_key()), seq!["name"@])
        &&& json_str_is(node_field(j, opts, 0), d.name@)
    } else {
        j is Null
    }
}

pub fn identifier_expression_json(model: &Model, p: ItemPtr<IdentifierExpressionData>, opts: &DumpOpts, fuel: usize) -> (res: Json)
    ensures
        identifier_expression_json_ok(res, *model, p, *opts, fuel as nat),
    decreases fuel, 0nat,
{
    if fuel == 0 || p.id >= model.identifier_expressions.items.len() {
        return Json::Null;
    }
    let item = model.item(p);
    let d = item.data();
    let f = fuel - 1;
    let mut fields: Vec<(&'static str, Json)> = Vec::new();
    fields.push(("name", Json::Str(String::from_str(d.name.as_str()))));
    node("IdentifierExpression", item.span(), opts, fields)
}

pub fn statement_json(model: &Model, s: StatementData, opts: &DumpOpts, fuel: usize) -> (res: Json)
    ensures
        stmt_json_ok(res, *model, s, *opts, fuel as nat),
    decreases fuel, 1nat,
{
    match s {
        StatementData::EmptyStatement(p) => empty_statement_json(model, p, opts, fuel),
        StatementData::ExpressionStatement(p) => expression_statement_json(model, p, opts, fuel),
        StatementData::IfStatement(p) => if_statement_json(model, p, opts, fuel),
        StatementData::WhileStatement(p) => while_statement_json(model, p, opts, fuel),
        StatementData::ReturnStatement(p) => return_statement_json(model, p, opts, fuel),
        StatementData::BreakStatement(p) => break_statement_json(model, p, opts, fuel),
        StatementData::ContinueStatement(p) => continue_statement_json(model, p, opts, fuel),
        StatementData::BlockStatement(p) => block_statement_json(model, p, opts, fuel),
        StatementData::ForStatement(p) => for_statement_json(model, p, opts, fuel),
        StatementData::SwitchStatement(p) => switch_statement_json(model, p, opts, fuel),
        StatementData::VarDeclStatement(p) => var_decl_statement_json(model, p, opts, fuel),
        StatementData::FunctionDeclStatement(p) => function_decl_statement_json(model, p, opts, fuel),
        StatementData::LabeledStatement(p) => labeled_statement_json(model, p, opts, fuel),
        StatementData::TryStatement(p) => try_statement_json(model, p, opts, fuel),
    }
}

pub fn expression_json(model: &Model, e: ExpressionData, opts: &DumpOpts, fuel: usize) -> (res: Json)
    ensures
        expr_json_ok(res, *model, e, *opts, fuel as nat),
    decreases fuel, 1nat,
{
    match e {
        ExpressionData::CommaExpression(p) => comma_expression_json(model, p, opts, fuel),
        ExpressionData::TernaryExpression(p) => ternary_expression_json(model, p, opts, fuel),
        ExpressionData::BinaryExpression(p) => binary_expression_json(model, p, opts, fuel),
        ExpressionData::UnaryExpression(p) => unary_expression_json(model, p, opts, fuel),
        ExpressionData::BooleanLiteral(p) => boolean_literal_json(model, p, opts, fuel),
        ExpressionData::NullLiteral(p) => null_literal_json(model, p, opts, fuel),
        ExpressionData::StringLiteral(p) => string_literal_json(model, p, opts, fuel),
        ExpressionData::IntLiteral(p) => int_literal_json(model, p, opts, fuel),
        ExpressionData::DotAccessExpression(p) => dot_access_expression_json(model, p, opts, fuel),
        ExpressionData::IndexAccessExpression(p) => index_access_expression_json(model, p, opts, fuel),
        ExpressionData::FunctionCallExpression(p) => function_call_expression_json(model, p, opts, fuel),
        ExpressionData::NonNullAssertExpression(p) => non_null_assert_expression_json(model, p, opts, fuel),
        ExpressionData::IdentifierExpression(p) => identifier_expression_json(model, p, opts, fuel),
    }
}

pub fn file_item_json(model: &Model, fi: FileItemData, opts: &DumpOpts, fuel: usize) -> (res: Json)
    ensures
        file_item_json_ok(res, *model, fi, *opts, fuel as nat),
    decreases fuel, 2nat,
{
    match fi {
        FileItemData::ImportDecl(p) => import_decl_json(model, p, opts, fuel),
        FileItemData::TypeDecl(p) => type_decl_json(model, p, opts, fuel),
        FileItemData::Statement(s) => statement_json(model, s, opts, fuel),
    }
}

pub fn for_init_json(model: &Model, fi: ForInitData, opts: &DumpOpts, fuel: usize) -> (res: Json)
    ensures
        for_init_json_ok(res, *model, fi, *opts, fuel as nat),
    decreases fuel, 2nat,
{
    match fi {
        ForInitData::Expression(e) => expression_json(model, e, opts, fuel),
        ForInitData::VarDecl(s) => statement_json(model, s, opts, fuel),
    }
}

pub fn switch_item_json(model: &Model, si: SwitchItemData, opts: &DumpOpts, fuel: usize) -> (res: Json)
    ensures
        switch_item_json_ok(res, *model, si, *opts, fuel as nat),
    decreases fuel, 2nat,
{
    match si {
        SwitchItemData::Statement(p) => switch_body_statement_json(model, p, opts, fuel),
        SwitchItemData::Case(p) => switch_case_json(model, p, opts, fuel),
        SwitchItemData::Default(p) => switch_default_json(model, p, opts, fuel),
    }
}


//--------------------------------------------------
// Handles dump themselves, with the model's size as fuel.

impl<'a> ToJson for File<'a> {
    fn to_json(&self, opts: &DumpOpts) -> (res: Json)
        ensures
            file_json_ok(res, *self.model, self.ptr, *opts, spec_model_size(*self.model)),
            self.valid() ==> json_kind_is(res, "File"@),
    {
        file_json(self.model, self.ptr, opts, model_size(self.model))
    }
}

impl<'a> ToJson for TypeDecl<'a> {
    fn to_json(&self, opts: &DumpOpts) -> (res: Json)
        ensures
            type_decl_json_ok(res, *self.model, self.ptr, *opts, spec_model_size(*self.model)),
            self.valid() ==> json_kind_is(res, "TypeDecl"@),
    {
        type_decl_json(self.model, self.ptr, opts, model_size(self.model))
    }
}

impl<'a> ToJson for ImportDecl<'a> {
    fn to_json(&self, opts: &DumpOpts) -> (res: Json)
        ensures
            import_decl_json_ok(res, *self.model, self.ptr, *opts, spec_model_size(*self.model)),
            self.valid() ==> json_kind_is(res, "ImportDecl"@),
    {
        import_decl_json(self.model, self.ptr, opts, model_size(self.model))
    }
}

impl<'a> ToJson for EmptyStatement<'a> {
    fn to_json(&self, opts: &DumpOpts) -> (res: Json)
        ensures
            empty_statement_json_ok(res, *self.model, self.ptr, *opts, spec_model_size(*self.model)),
            self.valid() ==> json_kind_is(res, "EmptyStatement"@),
    {
        empty_statement_json(self.model, self.ptr, opts, model_size(self.model))
    }
}

impl<'a> ToJson for ExpressionStatement<'a> {
    fn to_json(&self, opts: &DumpOpts) -> (res: Json)
        ensures
            expression_statement_json_ok(res, *self.model, self.ptr, *opts, spec_model_size(*self.model)),
            self.valid() ==> json_kind_is(res, "ExpressionStatement"@),
    {
        expression_statement_json(self.model, self.ptr, opts, model_size(self.model))
    }
}

impl<'a> ToJson for IfStatement<'a> {
    fn to_json(&self, opts: &DumpOpts) -> (res: Json)
        ensures
            if_statement_json_ok(res, *self.model, self.ptr, *opts, spec_model_size(*self.model)),
            self.valid() ==> json_kind_is(res, "IfStatement"@),
    {
        if_statement_json(self.model, self.ptr, opts, model_size(self.model))
    }
}

impl<'a> ToJson for WhileStatement<'a> {
    fn to_json(&self, opts: &DumpOpts) -> (res: Json)
        ensures
            while_statement_json_ok(res, *self.model, self.ptr, *opts, spec_model_size(*self.model)),
            self.valid() ==> json_kind_is(res, "WhileStatement"@),
    {
        while_statement_json(self.model, self.ptr, opts, model_size(self.model))
    }
}

impl<'a> ToJson for ReturnStatement<'a> {
    fn to_json(&self, opts: &DumpOpts) -> (res: Json)
        ensures
            return_statement_json_ok(res, *self.model, self.ptr, *opts, spec_model_size(*self.model)),
            self.valid() ==> json_kind_is(res, "ReturnStatement"@),
    {
        return_statement_json(self.model, self.ptr, opts, model_size(self.model))
    }
}

impl<'a> ToJson for BreakStatement<'a> {
    fn to_json(&self, opts: &DumpOpts) -> (res: Json)
        ensures
            break_statement_json_ok(res, *self.model, self.ptr, *opts, spec_model_size(*self.model)),
            self.valid() ==> json_kind_is(res, "BreakStatement"@),
    {
        break_statement_json(self.model, self.ptr, opts, model_size(self.model))
    }
}

impl<'a> ToJson for ContinueStatement<'a> {
    fn to_json(&self, opts: &DumpOpts) -> (res: Json)
        ensures
            continue_statement_json_ok(res, *self.model, self.ptr, *opts, spec_model_size(*self.model)),
            self.valid() ==> json_kind_is(res, "ContinueStatement"@),
    {
        continue_statement_json(self.model, self.ptr, opts, model_size(self.model))
    }
}

impl<'a> ToJson for BlockStatement<'a> {
    fn to_json(&self, opts: &DumpOpts) -> (res: Json)
        ensures
            block_statement_json_ok(res, *self.model, self.ptr, *opts, spec_model_size(*self.model)),
            self.valid() ==> json_kind_is(res, "BlockStatement"@),
    {
        block_statement_json(self.model, self.ptr, opts, model_size(self.model))
    }
}

impl<'a> ToJson for ForStatement<'a> {
    fn to_json(&self, opts: &DumpOpts) -> (res: Json)
        ensures
            for_statement_json_ok(res, *self.model, self.ptr, *opts, spec_model_size(*self.model)),
            self.valid() ==> json_kind_is(res, "ForStatement"@),
    {
        for_statement_json(self.model, self.ptr, opts, model_size(self.model))
    }
}

impl<'a> ToJson for SwitchStatement<'a> {
    fn to_json(&self, opts: &DumpOpts) -> (res: Json)
        ensures
            switch_statement_json_ok(res, *self.model, self.ptr, *opts, spec_model_size(*self.model)),
            self.valid() ==> json_kind_is(res, "SwitchStatement"@),
    {
        switch_statement_json(self.model, self.ptr, opts, model_size(self.model))
    }
}

impl<'a> ToJson for SwitchBodyStatement<'a> {
    fn to_json(&self, opts: &DumpOpts) -> (res: Json)
        ensures
            switch_body_statement_json_ok(res, *self.model, self.ptr, *opts, spec_model_size(*self.model)),
            self.valid() ==> json_kind_is(res, "SwitchBodyStatement"@),
    {
        switch_body_statement_json(self.model, self.ptr, opts, model_size(self.model))
    }
}

impl<'a> ToJson for SwitchCase<'a> {
    fn to_json(&self, opts: &DumpOpts) -> (res: Json)
        ensures
            switch_case_json_ok(res, *self.model, self.ptr, *opts, spec_model_size(*self.model)),
            self.valid() ==> json_kind_is(res, "SwitchCase"@),
    {
        switch_case_json(self.model, self.ptr, opts, model_size(self.model))
    }
}

impl<'a> ToJson for SwitchDefault<'a> {
    fn to_json(&self, opts: &DumpOpts) -> (res: Json)
        ensures
            switch_default_json_ok(res, *self.model, self.ptr, *opts, spec_model_size(*self.model)),
            self.valid() ==> json_kind_is(res, "SwitchDefault"@),
    {
        switch_default_json(self.model, self.ptr, opts, model_size(self.model))
    }
}

impl<'a> ToJson for VarDeclStatement<'a> {
    fn to_json(&self, opts: &DumpOpts) -> (res: Json)
        ensures
            var_decl_statement_json_ok(res, *self.model, self.ptr, *opts, spec_model_size(*self.model)),
            self.valid() ==> json_kind_is(res, "VarDeclStatement"@),
    {
        var_decl_statement_json(self.model, self.ptr, opts, model_size(self.model))
    }
}

impl<'a> ToJson for FunctionDeclStatement<'a> {
    fn to_json(&self, opts: &DumpOpts) -> (res: Json)
        ensures
            function_decl_statement_json_ok(res, *self.model, self.ptr, *opts, spec_model_size(*self.model)),
            self.valid() ==> json_kind_is(res, "FunctionDeclStatement"@),
    {
        function_decl_statement_json(self.model, self.ptr, opts, model_size(self.model))
    }
}

impl<'a> ToJson for FunctionSignature<'a> {
    fn to_json(&self, opts: &DumpOpts) -> (res: Json)
        ensures
            function_signature_json_ok(res, *self.model, self.ptr, *opts, spec_model_size(*self.model)),
            self.valid() ==> json_kind_is(res, "FunctionSignature"@),
    {
        function_signature_json(self.model, self.ptr, opts, model_size(self.model))
    }
}

impl<'a> ToJson for FunctionDeclArg<'a> {
    fn to_json(&self, opts: &DumpOpts) -> (res: Json)
        ensures
            function_decl_arg_json_ok(res, *self.model, self.ptr, *opts, spec_model_size(*self.model)),
            self.valid() ==> json_kind_is(res, "FunctionDeclArg"@),
    {
        function_decl_arg_json(self.model, self.ptr, opts, model_size(self.model))
    }
}

impl<'a> ToJson for LabeledStatement<'a> {
    fn to_json(&self, opts: &DumpOpts) -> (res: Json)
        ensures
            labeled_statement_json_ok(res, *self.model, self.ptr, *opts, spec_model_size(*self.model)),
            self.valid() ==> json_kind_is(res, "LabeledStatement"@),
    {
        labeled_statement_json(self.model, self.ptr, opts, model_size(self.model))
    }
}

impl<'a> ToJson for TryStatement<'a> {
    fn to_json(&self, opts: &DumpOpts) -> (res: Json)
        ensures
            try_statement_json_ok(res, *self.model, self.ptr, *opts, spec_model_size(*self.model)),
            self.valid() ==> json_kind_is(res, "TryStatement"@),
    {
        try_statement_json(self.model, self.ptr, opts, model_size(self.model))
    }
}

impl<'a> ToJson for CatchClause<'a> {
    fn to_json(&self, opts: &DumpOpts) -> (res: Json)
        ensures
            catch_clause_json_ok(res, *self.model, self.ptr, *opts, spec_model_size(*self.model)),
            self.valid() ==> json_kind_is(res, "CatchClause"@),
    {
        catch_clause_json(self.model, self.ptr, opts, model_size(self.model))
    }
}

impl<'a> ToJson for CommaExpression<'a> {
    fn to_json(&self, opts: &DumpOpts) -> (res: Json)
        ensures
            comma_expression_json_ok(res, *self.model, self.ptr, *opts, spec_model_size(*self.model)),
            self.valid() ==> json_kind_is(res, "CommaExpression"@),
    {
        comma_expression_json(self.model, self.ptr, opts, model_size(self.model))
    }
}

impl<'a> ToJson for TernaryExpression<'a> {
    fn to_json(&self, opts: &DumpOpts) -> (res: Json)
        ensures
            ternary_expression_json_ok(res, *self.model, self.ptr, *opts, spec_model_size(*self.model)),
            self.valid() ==> json_kind_is(res, "TernaryExpression"@),
    {
        ternary_expression_json(self.model, self.ptr, opts, model_size(self.model))
    }
}

impl<'a> ToJson for BinaryExpression<'a> {
    fn to_json(&self, opts: &DumpOpts) -> (res: Json)
        ensures
            binary_expression_json_ok(res, *self.model, self.ptr, *opts, spec_model_size(*self.model)),
            self.valid() ==> json_kind_is(res, "BinaryExpression"@),
    {
        binary_expression_json(self.model, self.ptr, opts, model_size(self.model))
    }
}

impl<'a> ToJson for UnaryExpression<'a> {
    fn to_json(&self, opts: &DumpOpts) -> (res: Json)
        ensures
            unary_expression_json_ok(res, *self.model, self.ptr, *opts, spec_model_size(*self.model)),
            self.valid() ==> json_kind_is(res, "UnaryExpression"@),
    {
        unary_expression_json(self.model, self.ptr, opts, model_size(self.model))
    }
}

impl<'a> ToJson for BooleanLiteral<'a> {
    fn to_json(&self, opts: &DumpOpts) -> (res: Json)
        ensures
            boolean_literal_json_ok(res, *self.model, self.ptr, *opts, spec_model_size(*self.model)),
            self.valid() ==> json_kind_is(res, "BooleanLiteral"@),
    {
        boolean_literal_json(self.model, self.ptr, opts, model_size(self.model))
    }
}

impl<'a> ToJson for NullLiteral<'a> {
    fn to_json(&self, opts: &DumpOpts) -> (res: Json)
        ensures
            null_literal_json_ok(res, *self.model, self.ptr, *opts, spec_model_size(*self.model)),
            self.valid() ==> json_kind_is(res, "NullLiteral"@),
    {
        null_literal_json(self.model, self.ptr, opts, model_size(self.model))
    }
}

impl<'a> ToJson for StringLiteral<'a> {
    fn to_json(&self, opts: &DumpOpts) -> (res: Json)
        ensures
            string_literal_json_ok(res, *self.model, self.ptr, *opts, spec_model_size(*self.model)),
            self.valid() ==> json_kind_is(res, "StringLiteral"@),
    {
        string_literal_json(self.model, self.ptr, opts, model_size(self.model))
    }
}

impl<'a> ToJson for IntLiteral<'a> {
    fn to_json(&self, opts: &DumpOpts) -> (res: Json)
        ensures
            int_literal_json_ok(res, *self.model, self.ptr, *opts, spec_model_size(*self.model)),
            self.valid() ==> json_kind_is(res, "IntLiteral"@),
    {
        int_literal_json(self.model, self.ptr, opts, model_size(self.model))
    }
}

impl<'a> ToJson for DotAccessExpression<'a> {
    fn to_json(&self, opts: &DumpOpts) -> (res: Json)
        ensures
            dot_access_expression_json_ok(res, *self.model, self.ptr, *opts, spec_model_size(*self.model)),
            self.valid() ==> json_kind_is(res, "DotAccessExpression"@),
    {
        dot_access_expression_json(self.model, self.ptr, opts, model_size(self.model))
    }
}

impl<'a> ToJson for IndexAccessExpression<'a> {
    fn to_json(&self, opts: &DumpOpts) -> (res: Json)
        ensures
            index_access_expression_json_ok(res, *self.model, self.ptr, *opts, spec_model_size(*self.model)),
            self.valid() ==> json_kind_is(res, "IndexAccessExpression"@),
    {
        index_access_expression_json(self.model, self.ptr, opts, model_size(self.model))
    }
}

impl<'a> ToJson for FunctionCallExpression<'a> {
    fn to_json(&self, opts: &DumpOpts) -> (res: Json)
        ensures
            function_call_expression_json_ok(res, *self.model, self.ptr, *opts, spec_model_size(*self.model)),
            self.valid() ==> json_kind_is(res, "FunctionCallExpression"@),
    {
        function_call_expression_json(self.model, self.ptr, opts, model_size(self.model))
    }
}

impl<'a> ToJson for NonNullAssertExpression<'a> {
    fn to_json(&self, opts: &DumpOpts) -> (res: Json)
        ensures
            non_null_assert_expression_json_ok(res, *self.model, self.ptr, *opts, spec_model_size(*self.model)),
            self.valid() ==> json_kind_is(res, "NonNullAssertExpression"@),
    {
        non_null_assert_expression_json(self.model, self.ptr, opts, model_size(self.model))
    }
}

impl<'a> ToJson for IdentifierExpression<'a> {
    fn to_json(&self, opts: &DumpOpts) -> (res: Json)
        ensures
            identifier_expression_json_ok(res, *self.model, self.ptr, *opts, spec_model_size(*self.model)),
            self.valid() ==> json_kind_is(res, "IdentifierExpression"@),
    {
        identifier_expression_json(self.model, self.ptr, opts, model_size(self.model))
    }
}

/// What a `Statement` handle dumps to: the dump of the item it wraps.
pub open spec fn statement_handle_json_ok<'a>(j: Json, h: Statement<'a>, opts: DumpOpts) -> bool {
    match h {
        Statement::Empty(x) => empty_statement_json_ok(j, *x.model, x.ptr, opts, spec_model_size(*x.model)),
        Statement::Expression(x) => expression_statement_json_ok(j, *x.model, x.ptr, opts, spec_model_size(*x.model)),
        Statement::If(x) => if_statement_json_ok(j, *x.model, x.ptr, opts, spec_model_size(*x.model)),
        Statement::While(x) => while_statement_json_ok(j, *x.model, x.ptr, opts, spec_model_size(*x.model)),
        Statement::Return(x) => return_statement_json_ok(j, *x.model, x.ptr, opts, spec_model_size(*x.model)),
        Statement::Break(x) => break_statement_json_ok(j, *x.model, x.ptr, opts, spec_model_size(*x.model)),
        Statement::Continue(x) => continue_statement_json_ok(j, *x.model, x.ptr, opts, spec_model_size(*x.model)),
        Statement::Block(x) => block_statement_json_ok(j, *x.model, x.ptr, opts, spec_model_size(*x.model)),
        Statement::For(x) => for_statement_json_ok(j, *x.model, x.ptr, opts, spec_model_size(*x.model)),
        Statement::Switch(x) => switch_statement_json_ok(j, *x.model, x.ptr, opts, spec_model_size(*x.model)),
        Statement::VarDecl(x) => var_decl_statement_json_ok(j, *x.model, x.ptr, opts, spec_model_size(*x.model)),
        Statement::FunctionDecl(x) => function_decl_statement_json_ok(j, *x.model, x.ptr, opts, spec_model_size(*x.model)),
        Statement::Labeled(x) => labeled_statement_json_ok(j, *x.model, x.ptr, opts, spec_model_size(*x.model)),
        Statement::Try(x) => try_statement_json_ok(j, *x.model, x.ptr, opts, spec_model_size(*x.model)),
    }
}

impl<'a> ToJson for Statement<'a> {
    fn to_json(&self, opts: &DumpOpts) -> (res: Json)
        ensures
            statement_handle_json_ok(res, *self, *opts),
    {
        match self {
            Statement::Empty(x) => x.to_json(opts),
            Statement::Expression(x) => x.to_json(opts),
            Statement::If(x) => x.to_json(opts),
            Statement::While(x) => x.to_json(opts),
            Statement::Return(x) => x.to_json(opts),
            Statement::Break(x) => x.to_json(opts),
            Statement::Continue(x) => x.to_json(opts),
            Statement::Block(x) => x.to_json(opts),
            Statement::For(x) => x.to_json(opts),
            Statement::Switch(x) => x.to_json(opts),
            Statement::VarDecl(x) => x.to_json(opts),
            Statement::FunctionDecl(x) => x.to_json(opts),
            Statement::Labeled(x) => x.to_json(opts),
            Statement::Try(x) => x.to_json(opts),
        }
    }
}

/// What a `Expression` handle dumps to: the dump of the item it wraps.
pub open spec fn expression_handle_json_ok<'a>(j: Json, h: Expression<'a>, opts: DumpOpts) -> bool {
    match h {
        Expression::Comma(x) => comma_expression_json_ok(j, *x.model, x.ptr, opts, spec_model_size(*x.model)),
        Expression::Ternary(x) => ternary_expression_json_ok(j, *x.model, x.ptr, opts, spec_model_size(*x.model)),
        Expression::Binary(x) => binary_expression_json_ok(j, *x.model, x.ptr, opts, spec_model_size(*x.model)),
        Expression::Unary(x) => unary_expression_json_ok(j, *x.model, x.ptr, opts, spec_model_size(*x.model)),
        Expression::Boolean(x) => boolean_literal_json_ok(j, *x.model, x.ptr, opts, spec_model_size(*x.model)),
        Expression::Null(x) => null_literal_json_ok(j, *x.model, x.ptr, opts, spec_model_size(*x.model)),
        Expression::String(x) => string_literal_json_ok(j, *x.model, x.ptr, opts, spec_model_size(*x.model)),
        Expression::Int(x) => int_literal_json_ok(j, *x.model, x.ptr, opts, spec_model_size(*x.model)),
        Expression::DotAccess(x) => dot_access_expression_json_ok(j, *x.model, x.ptr, opts, spec_model_size(*x.model)),
        Expression::IndexAccess(x) => index_access_expression_json_ok(j, *x.model, x.ptr, opts, spec_model_size(*x.model)),
        Expression::FunctionCall(x) => function_call_expression_json_ok(j, *x.model, x.ptr, opts, spec_model_size(*x.model)),
        Expression::NonNullAssert(x) => non_null_assert_expression_json_ok(j, *x.model, x.ptr, opts, spec_model_size(*x.model)),
        Expression::Identifier(x) => identifier_expression_json_ok(j, *x.model, x.ptr, opts, spec_model_size(*x.model)),
    }
}

impl<'a> ToJson for Expression<'a> {
    fn to_json(&self, opts: &DumpOpts) -> (res: Json)
        ensures
            expression_handle_json_ok(res, *self, *opts),
    {
        match self {
            Expression::Comma(x) => x.to_json(opts),
            Expression::Ternary(x) => x.to_json(opts),
            Expression::Binary(x) => x.to_json(opts),
            Expression::Unary(x) => x.to_json(opts),
            Expression::Boolean(x) => x.to_json(opts),
            Expression::Null(x) => x.to_json(opts),
            Expression::String(x) => x.to_json(opts),
            Expression::Int(x) => x.to_json(opts),
            Expression::DotAccess(x) => x.to_json(opts),
            Expression::IndexAccess(x) => x.to_json(opts),
            Expression::FunctionCall(x) => x.to_json(opts),
            Expression::NonNullAssert(x) => x.to_json(opts),
            Expression::Identifier(x) => x.to_json(opts),
        }
    }
}

/// What a `FileItem` handle dumps to: the dump of the item it wraps.
pub open spec fn file_item_handle_json_ok<'a>(j: Json, h: FileItem<'a>, opts: DumpOpts) -> bool {
    match h {
        FileItem::ImportDecl(x) => import_decl_json_ok(j, *x.model, x.ptr, opts, spec_model_size(*x.model)),
        FileItem::TypeDecl(x) => type_decl_json_ok(j, *x.model, x.ptr, opts, spec_model_size(*x.model)),
        FileItem::Statement(x) => statement_handle_json_ok(j, x, opts),
    }
}

impl<'a> ToJson for FileItem<'a> {
    fn to_json(&self, opts: &DumpOpts) -> (res: Json)
        ensures
            file_item_handle_json_ok(res, *self, *opts),
    {
        match self {
            FileItem::ImportDecl(x) => x.to_json(opts),
            FileItem::TypeDecl(x) => x.to_json(opts),
            FileItem::Statement(x) => x.to_json(opts),
        }
    }
}

/// What a `ForInit` handle dumps to: the dump of the expression or declaration it wraps.
pub open spec fn for_init_handle_json_ok<'a>(j: Json, h: ForInit<'a>, opts: DumpOpts) -> bool {
    match h {
        ForInit::Expression(x) => expression_handle_json_ok(j, x, opts),
        ForInit::VarDecl(x) => statement_handle_json_ok(j, x, opts),
    }
}

impl<'a> ToJson for ForInit<'a> {
    fn to_json(&self, opts: &DumpOpts) -> (res: Json)
        ensures
            for_init_handle_json_ok(res, *self, *opts),
    {
        match self {
            ForInit::Expression(x) => x.to_json(opts),
            ForInit::VarDecl(x) => x.to_json(opts),
        }
    }
}

/// What a `SwitchItem` handle dumps to: the dump of the item it wraps.
pub open spec fn switch_item_handle_json_ok<'a>(j: Json, h: SwitchItem<'a>, opts: DumpOpts) -> bool {
    match h {
        SwitchItem::Statement(x) => switch_body_statement_json_ok(j, *x.model, x.ptr, opts, spec_model_size(*x.model)),
        SwitchItem::Case(x) => switch_case_json_ok(j, *x.model, x.ptr, opts, spec_model_size(*x.model)),
        SwitchItem::Default(x) => switch_default_json_ok(j, *x.model, x.ptr, opts, spec_model_size(*x.model)),
    }
}

impl<'a> ToJson for SwitchItem<'a> {
    fn to_json(&self, opts: &DumpOpts) -> (res: Json)
        ensures
            switch_item_handle_json_ok(res, *self, *opts),
    {
        match self {
            SwitchItem::Statement(x) => x.to_json(opts),
            SwitchItem::Case(x) => x.to_json(opts),
            SwitchItem::Default(x) => x.to_json(opts),
        }
    }
}

/// Entry point: dump a whole file.  Nodes nested deeper than the number of items in the model
/// are dumped as null.
pub fn file_to_json(model: &Model, file: ItemPtr<FileData>, opts: &DumpOpts) -> (res: Json)
    ensures
        file_json_ok(res, *model, file, *opts, spec_model_size(*model)),
        file.id < model.files.items@.len() ==> json_kind_is(res, "File"@),
{
    model.item(file).to_json(opts)
}


//--------------------------------------------------
// From a parse to a dump.

/// The kind of node that a parsed statement is dumped as, once it is built into a model.
pub open spec fn parsed_statement_kind(a: ast::Statement) -> Seq<char> {
    match a {
        ast::Statement::EmptyStatement => "EmptyStatement"@,
        ast::Statement::ExpressionStatement(_) => "ExpressionStatement"@,
        ast::Statement::IfStatement(_) => "IfStatement"@,
        ast::Statement::WhileStatement(_) => "WhileStatement"@,
        ast::Statement::ReturnStatement(_) => "ReturnStatement"@,
        ast::Statement::BreakStatement(_) => "BreakStatement"@,
        ast::Statement::ContinueStatement(_) => "ContinueStatement"@,
        ast::Statement::BlockStatement(_) => "BlockStatement"@,
        ast::Statement::ForStatement(_) => "ForStatement"@,
        ast::Statement::SwitchStatement(_) => "SwitchStatement"@,
        ast::Statement::VarDeclStatement(_) => "VarDeclStatement"@,
        ast::Statement::FunctionDeclStatement(_) => "FunctionDeclStatement"@,
        ast::Statement::LabeledStatement(_) => "LabeledStatement"@,
        ast::Statement::TryStatement(_) => "TryStatement"@,
    }
}

/// The kind of node that a parsed file item is dumped as, once it is built into a model.
pub open spec fn parsed_file_item_kind(a: ast::FileItem) -> Seq<char> {
    match a {
        ast::FileItem::Statement(s) => parsed_statement_kind(s),
        ast::FileItem::TypeDecl(_) => "TypeDecl"@,
        ast::FileItem::ImportDecl(_) => "ImportDecl"@,
    }
}

/// A file built from a parse, as `add_file_to_model` builds it, is dumped as a `File` node
/// whose `items` list one node for each parsed item, of that item's kind.
pub proof fn lemma_dump_of_built_file(
    model: Model,
    file: ItemPtr<FileData>,
    src: ast::File,
    opts: DumpOpts,
    j: Json,
)
    requires
        ptr_in(model.files, file),
        model.files.items@[file.id as int].items@.len() == src.items@.len(),
        forall|i: int|
            0 <= i < src.items@.len() ==> {
                let fi = #[trigger] model.files.items@[file.id as int].items@[i];
                &&& model.file_item_valid(fi)
                &&& same_file_item_kind(src.items@[i].value, fi)
            },
        file_json_ok(j, model, file, opts, spec_model_size(model)),
    ensures
        json_kind_is(j, "File"@),
        node_key(j, opts, 0) == "items"@,
        node_field(j, opts, 0) matches Json::Array(xs) && xs@.len() == src.items@.len() && forall|
            i: int,
        |
            0 <= i < xs@.len() ==> json_kind_is(
                #[trigger] xs@[i],
                parsed_file_item_kind(src.items@[i].value),
            ),
{
    let d = model.files.items@[file.id as int];
    let fuel = spec_model_size(model);
    if src.items@.len() > 0 {
        let fi = d.items@[0];
        assert(model.file_item_valid(fi));
        assert(spec_item_count(model) >= 2);
        assert(fuel >= 2);
    }
    if let Json::Array(xs) = node_field(j, opts, 0) {
        assert forall|i: int| 0 <= i < xs@.len() implies json_kind_is(
            #[trigger] xs@[i],
            parsed_file_item_kind(src.items@[i].value),
        ) by {
            let fi = d.items@[i];
            assert(model.file_item_valid(fi));
            assert(same_file_item_kind(src.items@[i].value, fi));
            assert(file_item_json_ok(xs@[i], model, fi, opts, (fuel - 1) as nat));
        }
    }
}

} // verus!
