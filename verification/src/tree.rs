//! The syntax tree consumed by scope analysis and by the emitter.
//!
//! Names and string literals are atoms: indices into an atom table owned by
//! whoever built the tree. Numeric literals are carried as the bit pattern
//! of their IEEE 754 double. Constructs the emitter has no bytecode for are
//! kept as variants without children, so that they can be named when they
//! are rejected.

use vstd::prelude::*;
use crate::emitter::RegExpItem;

verus! {

/// Index of an interned string in the caller's atom table.
pub type SourceAtomSetIndex = usize;

/// The atoms the emitter has to recognise by identity.
#[derive(Debug, Clone, Copy)]
pub struct CommonSourceAtomSetIndices {
    /// The atom of the identifier `eval`.
    pub eval: SourceAtomSetIndex,
}

/// A whole program.
#[derive(Debug, PartialEq)]
pub enum Program {
    Script(Script),
    Module,
}

#[derive(Debug, PartialEq)]
pub struct Script {
    pub statements: Vec<Statement>,
}

#[derive(Debug, PartialEq)]
pub struct Block {
    pub statements: Vec<Statement>,
}

#[derive(Debug, Clone, Copy, PartialEq, Eq)]
pub enum VariableDeclarationKind {
    Var,
    Let,
    Const,
}

#[derive(Debug, PartialEq)]
pub enum Binding {
    BindingIdentifier(SourceAtomSetIndex),
    BindingPattern,
}

#[derive(Debug, PartialEq)]
pub struct VariableDeclarator {
    pub binding: Binding,
    pub init: Option<Expression>,
}

#[derive(Debug, PartialEq)]
pub struct VariableDeclaration {
    pub kind: VariableDeclarationKind,
    pub declarators: Vec<VariableDeclarator>,
}

#[derive(Debug, PartialEq)]
pub enum VariableDeclarationOrExpression {
    VariableDeclaration(VariableDeclaration),
    Expression(Expression),
}

#[derive(Debug, PartialEq)]
pub struct IfStatement {
    pub test: Expression,
    pub consequent: Box<Statement>,
    pub alternate: Option<Box<Statement>>,
}

#[derive(Debug, PartialEq)]
pub struct DoWhileStatement {
    pub block: Box<Statement>,
    pub test: Expression,
}

#[derive(Debug, PartialEq)]
pub struct WhileStatement {
    pub test: Expression,
    pub block: Box<Statement>,
}

#[derive(Debug, PartialEq)]
pub struct ForStatement {
    pub init: Option<VariableDeclarationOrExpression>,
    pub test: Option<Expression>,
    pub update: Option<Expression>,
    pub block: Box<Statement>,
}

/// A statement. Kinds without fields are kinds the emitter rejects.
#[derive(Debug, PartialEq)]
pub enum Statement {
    ClassDeclaration,
    BlockStatement { block: Block },
    BreakStatement { label: Option<SourceAtomSetIndex> },
    ContinueStatement { label: Option<SourceAtomSetIndex> },
    DebuggerStatement,
    DoWhileStatement(DoWhileStatement),
    EmptyStatement,
    ExpressionStatement(Expression),
    ForInStatement,
    ForOfStatement,
    ForStatement(ForStatement),
    IfStatement(IfStatement),
    LabeledStatement,
    ReturnStatement,
    SwitchStatement,
    SwitchStatementWithDefault,
    ThrowStatement { expression: Expression },
    TryCatchStatement,
    TryFinallyStatement,
    VariableDeclarationStatement(VariableDeclaration),
    WhileStatement(WhileStatement),
    WithStatement,
    FunctionDeclaration { name: SourceAtomSetIndex, params: Vec<SourceAtomSetIndex> },
}

#[derive(Debug, Clone, Copy, PartialEq, Eq)]
pub enum UnaryOperator {
    Plus,
    Minus,
    LogicalNot,
    BitwiseNot,
    Typeof,
    Void,
    Delete,
}

#[derive(Debug, Clone, Copy, PartialEq, Eq)]
pub enum BinaryOperator {
    Equals,
    NotEquals,
    StrictEquals,
    StrictNotEquals,
    LessThan,
    LessThanOrEqual,
    GreaterThan,
    GreaterThanOrEqual,
    In,
    Instanceof,
    LeftShift,
    RightShift,
    RightShiftExt,
    Add,
    Sub,
    Mul,
    Div,
    Mod,
    Pow,
    Comma,
    Coalesce,
    LogicalOr,
    LogicalAnd,
    BitwiseOr,
    BitwiseXor,
    BitwiseAnd,
}

/// The object of a member access or the callee of a call.
#[derive(Debug, PartialEq)]
pub enum ExpressionOrSuper {
    Expression(Box<Expression>),
    Super,
}

#[derive(Debug, PartialEq)]
pub struct ComputedMemberExpression {
    pub object: ExpressionOrSuper,
    pub expression: Box<Expression>,
}

#[derive(Debug, PartialEq)]
pub struct StaticMemberExpression {
    pub object: ExpressionOrSuper,
    pub property: SourceAtomSetIndex,
}

#[derive(Debug, PartialEq)]
pub enum MemberExpression {
    ComputedMemberExpression(ComputedMemberExpression),
    StaticMemberExpression(StaticMemberExpression),
    PrivateFieldExpression,
}

#[derive(Debug, PartialEq)]
pub enum Argument {
    Expression(Expression),
    SpreadElement(Expression),
}

#[derive(Debug, PartialEq)]
pub struct Arguments {
    pub args: Vec<Argument>,
}

/// An element of an array literal; an elision is the hole between two commas.
#[derive(Debug, PartialEq)]
pub enum ArrayExpressionElement {
    Expression(Expression),
    Elision,
    SpreadElement(Expression),
}

#[derive(Debug, PartialEq)]
pub struct ArrayExpression {
    pub elements: Vec<ArrayExpressionElement>,
}

#[derive(Debug, PartialEq)]
pub enum PropertyName {
    StaticPropertyName(SourceAtomSetIndex),
    /// The key as the bit pattern of a double.
    StaticNumericPropertyName(u64),
    ComputedPropertyName(Box<Expression>),
}

#[derive(Debug, PartialEq)]
pub struct DataProperty {
    pub property_name: PropertyName,
    pub expression: Box<Expression>,
}

#[derive(Debug, PartialEq)]
pub enum NamedObjectProperty {
    MethodDefinition,
    DataProperty(DataProperty),
}

#[derive(Debug, PartialEq)]
pub enum ObjectProperty {
    NamedObjectProperty(NamedObjectProperty),
    ShorthandProperty,
    SpreadProperty,
}

#[derive(Debug, PartialEq)]
pub struct ObjectExpression {
    pub properties: Vec<ObjectProperty>,
}

#[derive(Debug, PartialEq)]
pub enum SimpleAssignmentTarget {
    AssignmentTargetIdentifier(SourceAtomSetIndex),
    MemberAssignmentTarget,
}

#[derive(Debug, PartialEq)]
pub enum AssignmentTarget {
    SimpleAssignmentTarget(SimpleAssignmentTarget),
    AssignmentTargetPattern,
}

#[derive(Debug, PartialEq)]
pub struct AssignmentExpression {
    pub binding: AssignmentTarget,
    pub expression: Box<Expression>,
}

#[derive(Debug, PartialEq)]
pub struct BinaryExpression {
    pub operator: BinaryOperator,
    pub left: Box<Expression>,
    pub right: Box<Expression>,
}

#[derive(Debug, PartialEq)]
pub struct CallExpression {
    pub callee: ExpressionOrSuper,
    pub arguments: Arguments,
}

#[derive(Debug, PartialEq)]
pub struct ConditionalExpression {
    pub test: Box<Expression>,
    pub consequent: Box<Expression>,
    pub alternate: Box<Expression>,
}

#[derive(Debug, PartialEq)]
pub struct NewExpression {
    pub callee: Box<Expression>,
    pub arguments: Arguments,
}

#[derive(Debug, PartialEq)]
pub struct UnaryExpression {
    pub operator: UnaryOperator,
    pub operand: Box<Expression>,
}

/// An expression. Kinds without fields, `LiteralInfinityExpression` and
/// `LiteralNullExpression` apart, are kinds the emitter rejects.
#[derive(Debug, PartialEq)]
pub enum Expression {
    ClassExpression,
    LiteralBooleanExpression { value: bool },
    LiteralInfinityExpression,
    LiteralNullExpression,
    /// The value as the bit pattern of a double.
    LiteralNumericExpression { value: u64 },
    LiteralRegExpExpression(RegExpItem),
    LiteralStringExpression { value: SourceAtomSetIndex },
    ArrayExpression(ArrayExpression),
    ArrowExpression,
    AssignmentExpression(AssignmentExpression),
    BinaryExpression(BinaryExpression),
    CallExpression(CallExpression),
    CompoundAssignmentExpression,
    ConditionalExpression(ConditionalExpression),
    FunctionExpression,
    IdentifierExpression { name: SourceAtomSetIndex },
    MemberExpression(MemberExpression),
    NewExpression(NewExpression),
    NewTargetExpression,
    ObjectExpression(ObjectExpression),
    OptionalChain,
    OptionalExpression,
    UnaryExpression(UnaryExpression),
    TemplateExpression,
    ThisExpression,
    UpdateExpression,
    YieldExpression,
    YieldGeneratorExpression,
    AwaitExpression,
    ImportCallExpression,
}

} // verus!
