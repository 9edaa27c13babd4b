//! The order in which operations are checked does not change what the
//! resulting precondition means.

use vstd::prelude::*;

use crate::expression::{BinaryOperator, Formula};
use crate::overflow::{overflow_check_spec, BinOp, OverflowError};
use crate::semantics::{combine, eval, holds, Assignment, Value};

verus! {

/// One operation to check: the declared type of its destination, its
/// operator and its operands.
pub struct Operation {
    pub var_type: Seq<char>,
    pub op: BinOp,
    pub left: Formula,
    pub right: Formula,
}

impl Operation {
    /// What `overflow_check` gives for the operation and the precondition
    /// `wp`.
    pub open spec fn checked(self, wp: Formula) -> Result<Formula, OverflowError> {
        overflow_check_spec(wp, self.var_type, self.op, self.left, self.right)
    }

    /// Whether the operation has a safety formula.
    pub open spec fn supported(self) -> bool {
        self.checked(Formula::Boolean(true)) is Ok
    }

    /// The safety formula of a supported operation.
    pub open spec fn condition(self) -> Formula
        recommends
            self.supported(),
    {
        *self.checked(Formula::Boolean(true)).unwrap()->Binary_right
    }
}

/// The precondition after one call of `overflow_check` for each operation,
/// the first one first, each call on the result of the one before; or the
/// failure of the first call that fails.
pub open spec fn check_all(
    wp: Formula,
    operations: Seq<Operation>,
) -> Result<Formula, OverflowError>
    decreases operations.len(),
{
    if operations.len() == 0 {
        Ok(wp)
    } else {
        match check_all(wp, operations.drop_last()) {
            Ok(precondition) => operations.last().checked(precondition),
            Err(error) => Err(error),
        }
    }
}

/// Whether a formula has a truth value under the assignment.
pub open spec fn decided(formula: Formula, env: Assignment) -> bool {
    eval(formula, env) matches Some(Value::Truth(_))
}

/// A check succeeds whatever the precondition, and conjoins the safety
/// formula of the operation onto it.
pub proof fn lemma_checked(operation: Operation, wp: Formula)
    ensures
        operation.checked(wp) is Ok <==> operation.supported(),
        operation.supported() ==> operation.checked(wp) == Ok::<Formula, OverflowError>(
            Formula::conjunction(wp, operation.condition()),
        ),
{
}

/// All the calls succeed if and only if every operation is supported.
pub proof fn lemma_check_all_succeeds(wp: Formula, operations: Seq<Operation>)
    ensures
        check_all(wp, operations) is Ok <==> forall|i: int|
            0 <= i < operations.len() ==> (#[trigger] operations[i]).supported(),
    decreases operations.len(),
{
    if operations.len() > 0 {
        let front = operations.drop_last();
        lemma_check_all_succeeds(wp, front);
        assert(forall|i: int| 0 <= i < front.len() ==> front[i] == operations[i]);
        if let Ok(precondition) = check_all(wp, front) {
            lemma_checked(operations.last(), precondition);
        }
        if check_all(wp, operations) is Ok {
            assert forall|i: int| 0 <= i < operations.len() implies (
            #[trigger] operations[i]).supported() by {
                if i < front.len() {
                    assert(front[i] == operations[i]);
                }
            }
        }
    }
}

/// The value of the precondition after at least one operation has been
/// checked: it has one where the first precondition and all the safety
/// formulas have a truth value, and is true where all of them are.
pub proof fn lemma_check_all_value(wp: Formula, operations: Seq<Operation>, env: Assignment)
    requires
        operations.len() > 0,
        check_all(wp, operations) is Ok,
    ensures
        eval(check_all(wp, operations).unwrap(), env) == if decided(wp, env) && forall|i: int|
            0 <= i < operations.len() ==> decided((#[trigger] operations[i]).condition(), env) {
            Some(
                Value::Truth(
                    holds(wp, env) && forall|i: int|
                        0 <= i < operations.len() ==> holds(
                            (#[trigger] operations[i]).condition(),
                            env,
                        ),
                ),
            )
        } else {
            None
        },
    decreases operations.len(),
{
    let front = operations.drop_last();
    let last = operations.last();
    let before = check_all(wp, front).unwrap();
    lemma_checked(last, before);
    assert(eval(check_all(wp, operations).unwrap(), env) == combine(
        BinaryOperator::And,
        eval(before, env),
        eval(last.condition(), env),
    ));
    assert(forall|i: int| 0 <= i < front.len() ==> front[i] == operations[i]);
    if front.len() > 0 {
        lemma_check_all_value(wp, front, env);
    }
    let all_decided = forall|i: int|
        0 <= i < operations.len() ==> decided((#[trigger] operations[i]).condition(), env);
    let front_decided = forall|i: int|
        0 <= i < front.len() ==> decided((#[trigger] front[i]).condition(), env);
    let all_hold = forall|i: int|
        0 <= i < operations.len() ==> holds((#[trigger] operations[i]).condition(), env);
    let front_hold = forall|i: int|
        0 <= i < front.len() ==> holds((#[trigger] front[i]).condition(), env);
    assert(all_decided == (front_decided && decided(last.condition(), env))) by {
        if front_decided && decided(last.condition(), env) {
            assert forall|i: int| 0 <= i < operations.len() implies decided(
                (#[trigger] operations[i]).condition(),
                env,
            ) by {
                if i < front.len() {
                    assert(front[i] == operations[i]);
                }
            }
        }
        if all_decided {
            assert(decided(operations[operations.len() - 1].condition(), env));
            assert forall|i: int| 0 <= i < front.len() implies decided(
                (#[trigger] front[i]).condition(),
                env,
            ) by {
                assert(front[i] == operations[i]);
            }
        }
    }
    assert(all_hold == (front_hold && holds(last.condition(), env))) by {
        if front_hold && holds(last.condition(), env) {
            assert forall|i: int| 0 <= i < operations.len() implies holds(
                (#[trigger] operations[i]).condition(),
                env,
            ) by {
                if i < front.len() {
                    assert(front[i] == operations[i]);
                }
            }
        }
        if all_hold {
            assert(holds(operations[operations.len() - 1].condition(), env));
            assert forall|i: int| 0 <= i < front.len() implies holds(
                (#[trigger] front[i]).condition(),
                env,
            ) by {
                assert(front[i] == operations[i]);
            }
        }
    }
}

/// Every operation of a sequence occurs in each sequence that holds the
/// same operations.
proof fn lemma_occurs(from: Seq<Operation>, to: Seq<Operation>, j: int)
    requires
        from.to_multiset() == to.to_multiset(),
        0 <= j < to.len(),
    ensures
        exists|i: int| 0 <= i < from.len() && from[i] == to[j],
{
    from.to_multiset_ensures();
    to.to_multiset_ensures();
    assert(to.contains(to[j]));
    assert(from.to_multiset().count(to[j]) > 0);
    assert(from.contains(to[j]));
}

/// What holds of every operation of a sequence holds of every operation of
/// each sequence that holds the same operations.
proof fn lemma_same_operations(from: Seq<Operation>, to: Seq<Operation>, env: Assignment)
    requires
        from.to_multiset() == to.to_multiset(),
    ensures
        (forall|i: int| 0 <= i < from.len() ==> (#[trigger] from[i]).supported()) ==> (forall|
            j: int,
        |
            0 <= j < to.len() ==> (#[trigger] to[j]).supported()),
        (forall|i: int| 0 <= i < from.len() ==> decided((#[trigger] from[i]).condition(), env))
            ==> (forall|j: int|
            0 <= j < to.len() ==> decided((#[trigger] to[j]).condition(), env)),
        (forall|i: int| 0 <= i < from.len() ==> holds((#[trigger] from[i]).condition(), env))
            ==> (forall|j: int| 0 <= j < to.len() ==> holds((#[trigger] to[j]).condition(), env)),
{
    assert forall|j: int| 0 <= j < to.len() implies exists|i: int|
        0 <= i < from.len() && from[i] == #[trigger] to[j] by {
        lemma_occurs(from, to, j);
    }
}

/// The order of the checks does not matter: where the checks of a sequence
/// of operations all succeed, so do those of every sequence that holds the
/// same operations, each as often, in another order, and the two resulting
/// preconditions have the same value under every assignment.
pub proof fn law_check_order(
    wp: Formula,
    first: Seq<Operation>,
    second: Seq<Operation>,
    env: Assignment,
)
    requires
        first.to_multiset() == second.to_multiset(),
        check_all(wp, first) is Ok,
    ensures
        check_all(wp, second) is Ok,
        eval(check_all(wp, first).unwrap(), env) == eval(check_all(wp, second).unwrap(), env),
{
    first.to_multiset_ensures();
    second.to_multiset_ensures();
    lemma_check_all_succeeds(wp, first);
    lemma_check_all_succeeds(wp, second);
    lemma_same_operations(first, second, env);
    lemma_same_operations(second, first, env);
    if first.len() > 0 {
        lemma_check_all_value(wp, first, env);
        lemma_check_all_value(wp, second, env);
    }
}

} // verus!
