//! Safety preconditions for fixed-width integer arithmetic.
//!
//! Given a binary arithmetic operation on signed or unsigned integers of
//! 8, 16, 32 or 64 bits, the library builds a formula that is true exactly
//! when the operation neither overflows nor underflows, and conjoins it
//! onto a running precondition.
//!
//! - `kind`: the eight integer types, their ranges, and the classifier of
//!   declared type names.
//! - `expression`: the formula tree and the formula that a tree denotes.
//! - `semantics`: the value of a formula under an assignment.
//! - `overflow`: the safety formula of each operator, the two routers and
//!   `overflow_check`.
//! - `soundness`: each safety formula is true exactly where the exact result
//!   can be represented.
//! - `conjunction`: the order of the checks does not matter.
//! - `evaluate`: an evaluator for expressions, proved against `semantics`.

pub mod conjunction;
pub mod evaluate;
pub mod expression;
pub mod kind;
pub mod overflow;
pub mod semantics;
pub mod soundness;
