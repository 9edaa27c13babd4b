//! The formula tree that the encoders build.
//!
//! `Expression` is the tree as a program holds it; `Formula` is the formula
//! that it denotes, over unbounded integers and sequences of characters.
//! Contracts speak of an expression `e` through its formula `e@`.

use vstd::prelude::*;

use crate::kind::{in_range, supported_width};

verus! {

/// The operators of a node with two operands.
#[derive(Clone, Copy, Debug, PartialEq, Eq, Structural)]
pub enum BinaryOperator {
    And,
    Or,
    Implication,
    Equal,
    NotEqual,
    LessThan,
    LessThanOrEqual,
    GreaterThan,
    GreaterThanOrEqual,
    Addition,
    Subtraction,
    SignedMultiplicationDoesNotOverflow,
    SignedMultiplicationDoesNotUnderflow,
    UnsignedMultiplicationDoesNotOverflow,
}

/// The operators of a node with one operand.
#[derive(Clone, Copy, Debug, PartialEq, Eq, Structural)]
pub enum UnaryOperator {
    Not,
}

/// A two's-complement literal of `size` bits.
#[derive(Debug, PartialEq, Eq)]
pub struct SignedBitVectorData {
    pub size: u8,
    pub value: i64,
}

/// A program variable: its name and the name of its declared type.
#[derive(Debug, PartialEq, Eq)]
pub struct VariableMappingData {
    pub name: String,
    pub var_type: String,
}

/// A node with two operands.
#[derive(Debug, PartialEq, Eq)]
pub struct BinaryExpressionData {
    pub op: BinaryOperator,
    pub left: Box<Expression>,
    pub right: Box<Expression>,
}

/// A node with one operand.
#[derive(Debug, PartialEq, Eq)]
pub struct UnaryExpressionData {
    pub op: UnaryOperator,
    pub e: Box<Expression>,
}

/// A formula or term, owned from the root down.
#[derive(Debug, PartialEq, Eq)]
pub enum Expression {
    BinaryExpression(BinaryExpressionData),
    UnaryExpression(UnaryExpressionData),
    VariableMapping(VariableMappingData),
    BooleanLiteral(bool),
    SignedBitVector(SignedBitVectorData),
}

/// What an `Expression` denotes.
pub enum Formula {
    Boolean(bool),
    SignedLiteral { width: nat, value: int },
    Variable { name: Seq<char>, var_type: Seq<char> },
    Not(Box<Formula>),
    Binary { op: BinaryOperator, left: Box<Formula>, right: Box<Formula> },
}

impl Formula {
    pub open spec fn binary(op: BinaryOperator, left: Formula, right: Formula) -> Formula {
        Formula::Binary { op, left: Box::new(left), right: Box::new(right) }
    }

    pub open spec fn conjunction(left: Formula, right: Formula) -> Formula {
        Formula::binary(BinaryOperator::And, left, right)
    }

    pub open spec fn disjunction(left: Formula, right: Formula) -> Formula {
        Formula::binary(BinaryOperator::Or, left, right)
    }

    pub open spec fn implication(left: Formula, right: Formula) -> Formula {
        Formula::binary(BinaryOperator::Implication, left, right)
    }

    pub open spec fn negation(operand: Formula) -> Formula {
        Formula::Not(Box::new(operand))
    }

    pub open spec fn signed_literal(width: nat, value: int) -> Formula {
        Formula::SignedLiteral { width, value }
    }

    /// Every literal in the formula has a supported width and a value that
    /// fits in it.
    pub open spec fn well_formed(self) -> bool
        decreases self,
    {
        match self {
            Formula::Boolean(_) => true,
            Formula::SignedLiteral { width, value } => supported_width(width) && in_range(
                true,
                width,
                value,
            ),
            Formula::Variable { .. } => true,
            Formula::Not(operand) => operand.well_formed(),
            Formula::Binary { op, left, right } => left.well_formed() && right.well_formed(),
        }
    }
}

impl Expression {
    /// The formula that the tree denotes.
    pub open spec fn formula(self) -> Formula
        decreases self,
    {
        match self {
            Expression::BinaryExpression(data) => Formula::binary(
                data.op,
                (*data.left).formula(),
                (*data.right).formula(),
            ),
            Expression::UnaryExpression(data) => Formula::negation((*data.e).formula()),
            Expression::VariableMapping(data) => Formula::Variable {
                name: data.name@,
                var_type: data.var_type@,
            },
            Expression::BooleanLiteral(value) => Formula::Boolean(value),
            Expression::SignedBitVector(data) => Formula::signed_literal(
                data.size as nat,
                data.value as int,
            ),
        }
    }
}

impl View for Expression {
    type V = Formula;

    open spec fn view(&self) -> Formula {
        self.formula()
    }
}

impl Clone for SignedBitVectorData {
    fn clone(&self) -> (copy: Self)
        ensures
            copy == *self,
    {
        SignedBitVectorData { size: self.size, value: self.value }
    }
}

impl Clone for VariableMappingData {
    fn clone(&self) -> (copy: Self)
        ensures
            copy == *self,
    {
        VariableMappingData { name: self.name.clone(), var_type: self.var_type.clone() }
    }
}

impl Clone for BinaryExpressionData {
    fn clone(&self) -> (copy: Self)
        ensures
            copy == *self,
        decreases self,
    {
        BinaryExpressionData {
            op: self.op,
            left: Box::new((*self.left).clone()),
            right: Box::new((*self.right).clone()),
        }
    }
}

impl Clone for UnaryExpressionData {
    fn clone(&self) -> (copy: Self)
        ensures
            copy == *self,
        decreases self,
    {
        UnaryExpressionData { op: self.op, e: Box::new((*self.e).clone()) }
    }
}

impl Clone for Expression {
    /// A structural copy, equal to the tree it was made of.
    fn clone(&self) -> (copy: Self)
        ensures
            copy == *self,
        decreases self,
    {
        match self {
            Expression::BinaryExpression(data) => Expression::BinaryExpression(data.clone()),
            Expression::UnaryExpression(data) => Expression::UnaryExpression(data.clone()),
            Expression::VariableMapping(data) => Expression::VariableMapping(data.clone()),
            Expression::BooleanLiteral(value) => Expression::BooleanLiteral(*value),
            Expression::SignedBitVector(data) => Expression::SignedBitVector(data.clone()),
        }
    }
}

impl Expression {
    /// A node with two operands.
    pub fn binary(op: BinaryOperator, left: Expression, right: Expression) -> (node: Expression)
        ensures
            node@ == Formula::binary(op, left@, right@),
            node@.well_formed() <==> left@.well_formed() && right@.well_formed(),
    {
        Expression::BinaryExpression(
            BinaryExpressionData { op, left: Box::new(left), right: Box::new(right) },
        )
    }

    /// `left && right`.
    pub fn conjunction(left: Expression, right: Expression) -> (node: Expression)
        ensures
            node@ == Formula::conjunction(left@, right@),
            node@.well_formed() <==> left@.well_formed() && right@.well_formed(),
    {
        Expression::binary(BinaryOperator::And, left, right)
    }

    /// `left || right`.
    pub fn disjunction(left: Expression, right: Expression) -> (node: Expression)
        ensures
            node@ == Formula::disjunction(left@, right@),
            node@.well_formed() <==> left@.well_formed() && right@.well_formed(),
    {
        Expression::binary(BinaryOperator::Or, left, right)
    }

    /// `left ==> right`.
    pub fn implication(left: Expression, right: Expression) -> (node: Expression)
        ensures
            node@ == Formula::implication(left@, right@),
            node@.well_formed() <==> left@.well_formed() && right@.well_formed(),
    {
        Expression::binary(BinaryOperator::Implication, left, right)
    }

    /// `!operand`.
    pub fn negation(operand: Expression) -> (node: Expression)
        ensures
            node@ == Formula::negation(operand@),
            node@.well_formed() <==> operand@.well_formed(),
    {
        Expression::UnaryExpression(
            UnaryExpressionData { op: UnaryOperator::Not, e: Box::new(operand) },
        )
    }

    /// The formula `true` or `false`.
    pub fn boolean_literal(value: bool) -> (leaf: Expression)
        ensures
            leaf@ == Formula::Boolean(value),
            leaf@.well_formed(),
    {
        Expression::BooleanLiteral(value)
    }

    /// The two's-complement literal `value` of `size` bits.
    pub fn signed_literal(size: u8, value: i64) -> (leaf: Expression)
        ensures
            leaf@ == Formula::signed_literal(size as nat, value as int),
            leaf@.well_formed() <==> supported_width(size as nat) && in_range(
                true,
                size as nat,
                value as int,
            ),
    {
        Expression::SignedBitVector(SignedBitVectorData { size, value })
    }

    /// The program variable `name` of the declared type `var_type`.
    pub fn variable(name: &str, var_type: &str) -> (leaf: Expression)
        ensures
            leaf@ == (Formula::Variable { name: name@, var_type: var_type@ }),
            leaf@.well_formed(),
    {
        Expression::VariableMapping(
            VariableMappingData { name: name.to_owned(), var_type: var_type.to_owned() },
        )
    }
}

} // verus!
