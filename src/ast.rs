//! The typed syntax tree of the schema language. Every declaration carries an
//! id that is unique over a whole load, the id of its source, and its span.
use vstd::prelude::*;
use crate::diagnostics::Span;

verus! {

#[derive(Debug)]
pub struct Identifier {
    pub name: String,
    pub span: Span,
}

#[derive(Clone, Copy, Debug, PartialEq, Eq, Structural)]
pub enum ArithOp {
    Add,
    Sub,
    Mul,
    Div,
    Mod,
    BitAnd,
    BitXor,
    BitOr,
}

/// How tightly an operator binds: bit-or binds loosest, then bit-xor, bit-and,
/// addition and subtraction, and multiplication, division and remainder tightest.
pub open spec fn precedence(op: ArithOp) -> int {
    match op {
        ArithOp::BitOr => 1,
        ArithOp::BitXor => 2,
        ArithOp::BitAnd => 3,
        ArithOp::Add | ArithOp::Sub => 4,
        ArithOp::Mul | ArithOp::Div | ArithOp::Mod => 5,
    }
}

#[derive(Debug)]
pub struct Argument {
    pub name: Option<Identifier>,
    pub value: Expression,
    pub span: Span,
}

#[derive(Debug)]
pub enum Expression {
    Null(Span),
    Bool(bool, Span),
    /// A number as written.
    Numeric(String, Span),
    /// A string literal as written, quotes and escapes included.
    StringLiteral(String, Span),
    RegExp(String, Span),
    EnumChoice(Identifier, Option<Vec<Argument>>, Span),
    Identifier(Identifier),
    Tuple(Vec<Expression>, Span),
    Array(Vec<Expression>, Span),
    Dictionary(Vec<(Expression, Expression)>, Span),
    /// `start..end`, or `start...end` when closed.
    Range(bool, Box<Expression>, Box<Expression>, Span),
    Group(Box<Expression>, Span),
    Subscript(Box<Expression>, Span),
    ArgumentList(Vec<Argument>, Span),
    /// A chain such as `a.b(c)[d]`: two or more elements, in order.
    Unit(Vec<Expression>, Span),
    /// `a ?? b ?? c`: two or more alternatives, in order.
    NullishCoalescing(Vec<Expression>, Span),
    Negation(Box<Expression>, Span),
    BitwiseNegation(Box<Expression>, Span),
    BinaryOp(Box<Expression>, ArithOp, Box<Expression>),
    Pipeline(Box<Expression>, Span),
}

/// An arithmetic tree whose shape follows operator precedence: below an
/// operator, the left operand's operator binds at least as tightly and the
/// right operand's binds strictly tighter (operators associate to the left).
pub open spec fn precedence_ordered(e: Expression) -> bool
    decreases e,
{
    match e {
        Expression::BinaryOp(lhs, op, rhs) => {
            &&& (*lhs matches Expression::BinaryOp(_, lop, _) ==> precedence(lop) >= precedence(op))
            &&& (*rhs matches Expression::BinaryOp(_, rop, _) ==> precedence(rop) > precedence(op))
            &&& precedence_ordered(*lhs)
            &&& precedence_ordered(*rhs)
        },
        _ => true,
    }
}

/// A documentation block: `/// @name ...` gives the name, the other lines the description.
#[derive(Debug)]
pub struct CommentBlock {
    pub name: Option<String>,
    pub desc: Option<String>,
    pub span: Span,
}

#[derive(Debug)]
pub struct Decorator {
    pub expression: Expression,
    pub span: Span,
}

#[derive(Clone, Copy, Debug, PartialEq, Eq, Structural)]
pub enum Arity {
    Scalar,
    Array,
    Dictionary,
}

/// A type as written: a name, an arity, and whether an item and the collection are required.
#[derive(Debug)]
pub struct TypeExpr {
    pub identifier: Identifier,
    pub arity: Arity,
    pub item_required: bool,
    pub collection_required: bool,
    pub span: Span,
}

#[derive(Debug)]
pub struct ASTField {
    pub comment_block: Option<CommentBlock>,
    pub identifier: Identifier,
    pub field_type: TypeExpr,
    pub decorators: Vec<Decorator>,
    pub span: Span,
}

#[derive(Debug)]
pub struct ASTModel {
    pub id: usize,
    pub source_id: usize,
    pub identifier: Identifier,
    pub comment_block: Option<CommentBlock>,
    pub fields: Vec<ASTField>,
    pub decorators: Vec<Decorator>,
    pub span: Span,
}

#[derive(Debug)]
pub struct EnumChoice {
    pub identifier: Identifier,
    pub comment_block: Option<CommentBlock>,
    pub decorators: Vec<Decorator>,
    pub span: Span,
}

impl EnumChoice {
    pub fn new(identifier: Identifier, comment_block: Option<CommentBlock>, decorators: Vec<Decorator>, span: Span) -> (r: Self)
        ensures
            r.identifier == identifier,
            r.comment_block == comment_block,
            r.decorators == decorators,
            r.span == span,
    {
        EnumChoice { identifier, comment_block, decorators, span }
    }
}

#[derive(Debug)]
pub struct ASTEnum {
    pub id: usize,
    pub source_id: usize,
    pub comment_block: Option<CommentBlock>,
    pub identifier: Identifier,
    pub decorators: Vec<Decorator>,
    pub choices: Vec<EnumChoice>,
    pub span: Span,
}

impl ASTEnum {
    pub fn new(
        item_id: usize,
        source_id: usize,
        comment_block: Option<CommentBlock>,
        identifier: Identifier,
        decorators: Vec<Decorator>,
        choices: Vec<EnumChoice>,
        span: Span,
    ) -> (r: Self)
        ensures
            r.id == item_id,
            r.source_id == source_id,
            r.comment_block == comment_block,
            r.identifier == identifier,
            r.decorators == decorators,
            r.choices == choices,
            r.span == span,
    {
        ASTEnum { id: item_id, source_id, comment_block, identifier, decorators, choices, span }
    }
}

/// `let name = expression`.
#[derive(Debug)]
pub struct Constant {
    pub id: usize,
    pub source_id: usize,
    pub identifier: Identifier,
    pub expression: Expression,
    pub span: Span,
}

/// `import "path"` or `import { a, b } from "path"`.
#[derive(Debug)]
pub struct ASTImport {
    pub id: usize,
    pub source_id: usize,
    pub identifiers: Vec<Identifier>,
    /// The path literal as written, quotes included.
    pub source: String,
    pub source_span: Span,
    pub span: Span,
}

#[derive(Clone, Copy, Debug, PartialEq, Eq, Structural)]
pub enum ConfigKind {
    Server,
    Connector,
    Entity,
    Client,
    Debug,
    Test,
}

impl ConfigKind {
    /// Kinds of which a whole schema may hold at most one block.
    pub open spec fn is_singleton(self) -> bool {
        self is Server || self is Connector || self is Debug || self is Test
    }
}

#[derive(Debug)]
pub struct ConfigItem {
    pub identifier: Identifier,
    pub expression: Expression,
    pub span: Span,
}

/// A configuration block: `server { ... }`, `client name { ... }` and the like.
#[derive(Debug)]
pub struct ConfigBlock {
    pub id: usize,
    pub source_id: usize,
    pub kind: ConfigKind,
    pub identifier: Option<Identifier>,
    pub items: Vec<ConfigItem>,
    pub span: Span,
}

/// `middleware name(...)`.
#[derive(Debug)]
pub struct MiddlewareDeclaration {
    pub id: usize,
    pub source_id: usize,
    pub identifier: Identifier,
    pub span: Span,
}

/// A type of an interface or an action: a name, generic arguments, an arity,
/// and whether an item and the collection may be null.
#[derive(Debug)]
pub struct InterfaceType {
    pub name: Identifier,
    pub args: Vec<InterfaceType>,
    pub span: Span,
    pub arity: Arity,
    pub collection_optional: bool,
    pub optional: bool,
}

#[derive(Debug)]
pub struct InterfaceItemDeclaration {
    pub name: Identifier,
    pub kind: InterfaceType,
    pub span: Span,
}

/// `interface Name<T> extends A, B { name: Type ... }`.
#[derive(Debug)]
pub struct InterfaceDeclaration {
    pub id: usize,
    pub source_id: usize,
    pub name: InterfaceType,
    pub extends: Vec<InterfaceType>,
    pub items: Vec<InterfaceItemDeclaration>,
    pub span: Span,
}

#[derive(Clone, Copy, Debug, PartialEq, Eq, Structural)]
pub enum ActionInputFormat {
    Json,
    Form,
}

/// `name: Input -> Output`, or `name: form Input -> Output`.
#[derive(Debug)]
pub struct ActionDeclaration {
    pub id: usize,
    pub source_id: usize,
    pub group_id: usize,
    pub identifier: Identifier,
    pub input_type: InterfaceType,
    pub output_type: InterfaceType,
    pub input_format: ActionInputFormat,
    pub span: Span,
}

/// `actions Name { action declarations }`.
#[derive(Debug)]
pub struct ActionGroupDeclaration {
    pub id: usize,
    pub source_id: usize,
    pub identifier: Identifier,
    pub actions: Vec<ActionDeclaration>,
    pub span: Span,
}

/// `record name { dictionary }` in a dataset group.
#[derive(Debug)]
pub struct DataSetRecord {
    pub id: usize,
    pub source_id: usize,
    pub identifier: Identifier,
    pub span: Span,
    pub dictionary: Expression,
}

/// `group Model { records }` in a dataset.
#[derive(Debug)]
pub struct DataSetGroup {
    pub id: usize,
    pub source_id: usize,
    pub identifier: Identifier,
    pub span: Span,
    pub records: Vec<DataSetRecord>,
}

/// `dataset name autoseed notrack { groups }`.
#[derive(Debug)]
pub struct DataSet {
    pub id: usize,
    pub source_id: usize,
    pub identifier: Identifier,
    pub auto_seed: bool,
    pub notrack: bool,
    pub groups: Vec<DataSetGroup>,
    pub span: Span,
}

/// A top-level declaration.
#[derive(Debug)]
pub enum Top {
    Import(ASTImport),
    Constant(Constant),
    Model(ASTModel),
    Enum(ASTEnum),
    Config(ConfigBlock),
    Middleware(MiddlewareDeclaration),
    DataSet(DataSet),
    Interface(InterfaceDeclaration),
    ActionGroup(ActionGroupDeclaration),
}

impl Top {
    pub open spec fn spec_id(&self) -> usize {
        match self {
            Top::Import(t) => t.id,
            Top::Constant(t) => t.id,
            Top::Model(t) => t.id,
            Top::Enum(t) => t.id,
            Top::Config(t) => t.id,
            Top::Middleware(t) => t.id,
            Top::DataSet(t) => t.id,
            Top::Interface(t) => t.id,
            Top::ActionGroup(t) => t.id,
        }
    }

    pub fn id(&self) -> (r: usize)
        ensures
            r == self.spec_id(),
    {
        match self {
            Top::Import(t) => t.id,
            Top::Constant(t) => t.id,
            Top::Model(t) => t.id,
            Top::Enum(t) => t.id,
            Top::Config(t) => t.id,
            Top::Middleware(t) => t.id,
            Top::DataSet(t) => t.id,
            Top::Interface(t) => t.id,
            Top::ActionGroup(t) => t.id,
        }
    }
}

/// One parsed file: its declarations in file order, and their ids by category.
#[derive(Debug)]
pub struct Source {
    pub id: usize,
    pub path: String,
    pub tops: Vec<Top>,
    pub imports: Vec<usize>,
    pub constants: Vec<usize>,
    pub enums: Vec<usize>,
    pub models: Vec<usize>,
}

} // verus!
