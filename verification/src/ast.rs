use vstd::prelude::*;

use crate::types::Type;
use crate::values::Value;

verus! {

/// The operators of the expression grammar.
#[derive(Clone, Copy, Debug, PartialEq, Eq, Structural)]
pub enum Operator {
    Equals,
    NotEquals,
    And,
    Or,
    GreaterThan,
    LessThan,
    GreaterOrEqual,
    LessOrEqual,
    Plus,
    Minus,
    Multiply,
    Divide,
    Modulo,
    BitwiseXor,
    BitwiseAnd,
    BitwiseOr,
    BitwiseLeft,
    BitwiseRight,
    Assign,
    AssignPlus,
    AssignMinus,
    AssignMultiply,
    AssignDivide,
    AssignModulo,
    AssignBitwiseXor,
    AssignBitwiseAnd,
    AssignBitwiseOr,
    AssignBitwiseLeft,
    AssignBitwiseRight,
}

impl Operator {
    /// The assignment family: plain assignment and the compound forms.
    pub open spec fn spec_is_assignation(self) -> bool {
        match self {
            Operator::Assign | Operator::AssignPlus | Operator::AssignMinus
            | Operator::AssignMultiply | Operator::AssignDivide | Operator::AssignModulo
            | Operator::AssignBitwiseXor | Operator::AssignBitwiseAnd | Operator::AssignBitwiseOr
            | Operator::AssignBitwiseLeft | Operator::AssignBitwiseRight => true,
            _ => false,
        }
    }

    pub fn is_assignation(&self) -> (r: bool)
        ensures
            r == self.spec_is_assignation(),
    {
        match self {
            Operator::Assign | Operator::AssignPlus | Operator::AssignMinus
            | Operator::AssignMultiply | Operator::AssignDivide | Operator::AssignModulo
            | Operator::AssignBitwiseXor | Operator::AssignBitwiseAnd | Operator::AssignBitwiseOr
            | Operator::AssignBitwiseLeft | Operator::AssignBitwiseRight => true,
            _ => false,
        }
    }

    /// The operators that work on numbers of one width.
    pub open spec fn spec_is_number_operator(self) -> bool {
        match self {
            Operator::Equals | Operator::NotEquals | Operator::And | Operator::Or
            | Operator::Assign => false,
            _ => true,
        }
    }

    pub fn is_number_operator(&self) -> (r: bool)
        ensures
            r == self.spec_is_number_operator(),
    {
        match self {
            Operator::Equals | Operator::NotEquals | Operator::And | Operator::Or
            | Operator::Assign => false,
            _ => true,
        }
    }

    /// The two short-circuit boolean operators.
    pub fn is_and_or_or(&self) -> (r: bool)
        ensures
            r == (self matches Operator::And || self matches Operator::Or),
    {
        match self {
            Operator::And | Operator::Or => true,
            _ => false,
        }
    }
}

/// An expression of the surface language. Variables are referred to by the
/// identifier the parser assigned; a variable node under a path reads the
/// field at that position of the receiver struct. Struct construction and
/// function calls carry source names, which the evaluator resolves.
#[derive(Debug)]
pub enum Expression {
    FunctionCall(String, Vec<Expression>),
    ArrayCall(Box<Expression>, Box<Expression>),
    ArrayConstructor(Vec<Expression>),
    StructConstructor(String, Vec<(String, Expression)>),
    Variable(u16),
    Value(Value),
    Operator(Operator, Box<Expression>, Box<Expression>),
    SubExpression(Box<Expression>),
    Path(Box<Expression>, Box<Expression>),
    IsNot(Box<Expression>),
    Ternary(Box<Expression>, Box<Expression>, Box<Expression>),
    Cast(Box<Expression>, Type),
}

/// A variable declaration: the assigned identifier, its declared type and the
/// initialiser.
#[derive(Debug)]
pub struct DeclarationStatement {
    pub id: u16,
    pub value_type: Type,
    pub value: Expression,
}

/// A statement of the surface language.
#[derive(Debug)]
pub enum Statement {
    Expression(Expression),
    Variable(DeclarationStatement),
    If(Expression, Vec<Statement>),
    ElseIf(Expression, Vec<Statement>),
    Else(Vec<Statement>),
    For(DeclarationStatement, Expression, Expression, Vec<Statement>),
    ForEach(u16, Expression, Vec<Statement>),
    While(Expression, Vec<Statement>),
    Return(Option<Expression>),
    Break,
    Continue,
    Scope(Vec<Statement>),
}

/// One declared parameter of a function.
#[derive(Debug)]
pub struct Parameter {
    pub name: u16,
    pub value_type: Type,
}

/// A user-defined function: when `for_type` is set the function is a method
/// of that type and `instance_name` binds the receiver; only functions with
/// the entry flag can be invoked from outside the program.
#[derive(Debug)]
pub struct FunctionDecl {
    pub name: String,
    pub for_type: Option<Type>,
    pub instance_name: Option<u16>,
    pub parameters: Vec<Parameter>,
    pub statements: Vec<Statement>,
    pub entry: bool,
    pub return_type: Option<Type>,
}

/// A named constant of the program: the identifier it is bound to, its
/// declared type and the initialiser expression.
#[derive(Debug)]
pub struct ConstantDecl {
    pub id: u16,
    pub value_type: Type,
    pub value: Expression,
}

/// What the parser hands the evaluator: declared structures, named constants
/// and the function table.
#[derive(Debug)]
pub struct Program {
    pub structures: Vec<crate::environment::StructDef>,
    pub constants: Vec<ConstantDecl>,
    pub functions: Vec<FunctionDecl>,
}

} // verus!
