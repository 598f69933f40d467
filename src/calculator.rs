//! A calculator that records each successful operation as data — its kind
//! and both operands — and can list or replay what it recorded.

use vstd::prelude::*;
use vstd::string::*;
use crate::checked::fits_i64;
use crate::text::{int_text, nat_text, push_int, push_nat};

verus! {

/// The kinds of operation the calculator records.
#[derive(Clone, Copy, Debug, PartialEq, Eq, Structural)]
pub enum OperationType {
    Addition,
    Subtraction,
    Multiplication,
}

/// The exact result of applying `t` to `x` and `y`.
pub open spec fn exact_result(t: OperationType, x: int, y: int) -> int {
    match t {
        OperationType::Addition => x + y,
        OperationType::Subtraction => x - y,
        OperationType::Multiplication => x * y,
    }
}

/// The sign that stands for `t`.
pub open spec fn sign_text(t: OperationType) -> Seq<char> {
    match t {
        OperationType::Addition => seq!['+'],
        OperationType::Subtraction => seq!['-'],
        OperationType::Multiplication => seq!['*'],
    }
}

impl OperationType {
    /// The sign of the operation: `+`, `-` or `*`.
    pub fn get_sign(&self) -> (r: &str)
        ensures
            r@ == sign_text(*self),
    {
        proof {
            reveal_strlit("+");
            reveal_strlit("-");
            reveal_strlit("*");
        }
        match self {
            OperationType::Addition => "+",
            OperationType::Subtraction => "-",
            OperationType::Multiplication => "*",
        }
    }

    /// The operation applied to `x` and `y`, or `None` when the result does not fit.
    pub fn perform(&self, x: i64, y: i64) -> (r: Option<i64>)
        ensures
            fits_i64(exact_result(*self, x as int, y as int)) <==> r is Some,
            r matches Some(n) ==> n == exact_result(*self, x as int, y as int),
    {
        match self {
            OperationType::Addition => x.checked_add(y),
            OperationType::Subtraction => x.checked_sub(y),
            OperationType::Multiplication => x.checked_mul(y),
        }
    }
}

/// An operation with its two operands.
#[derive(Clone, Copy, Debug, PartialEq, Eq, Structural)]
pub struct Operation {
    pub first_num: i64,
    pub second_num: i64,
    pub operation_type: OperationType,
}

impl Operation {
    /// The operation `operation_type` on `first_num` and `second_num`.
    pub fn new(first_num: i64, second_num: i64, operation_type: OperationType) -> (r: Operation)
        ensures
            r == (Operation { first_num, second_num, operation_type }),
    {
        Operation { first_num, second_num, operation_type }
    }
}

/// The line for `op` at position `index` (from 0) of a listing:
/// `"<index>: <first> <sign> <second> = <result>"` and a newline; nothing
/// for an operation whose result does not fit.
pub open spec fn operation_line(index: nat, op: Operation) -> Seq<char> {
    let v = exact_result(op.operation_type, op.first_num as int, op.second_num as int);
    if fits_i64(v) {
        nat_text(index) + seq![':', ' '] + int_text(op.first_num as int) + seq![' '] + sign_text(
            op.operation_type,
        ) + seq![' '] + int_text(op.second_num as int) + seq![' ', '=', ' '] + int_text(v)
            + seq!['\n']
    } else {
        Seq::empty()
    }
}

/// The listing of `ops`, one line per operation in order.
pub open spec fn operations_listing(ops: Seq<Operation>) -> Seq<char>
    decreases ops.len(),
{
    if ops.len() == 0 {
        Seq::empty()
    } else {
        operations_listing(ops.drop_last()) + operation_line((ops.len() - 1) as nat, ops.last())
    }
}

/// A calculator whose history is the list of its successful operations.
pub struct Calculator {
    pub history: Vec<Operation>,
}

impl Calculator {
    /// A calculator with an empty history.
    pub fn new() -> (r: Calculator)
        ensures
            r.history@ == Seq::<Operation>::empty(),
    {
        Calculator { history: Vec::new() }
    }

    /// Applies `operation_type` to `x` and `y` and records it when it succeeds.
    fn run(&mut self, operation_type: OperationType, x: i64, y: i64) -> (r: Option<i64>)
        ensures
            fits_i64(exact_result(operation_type, x as int, y as int)) <==> r is Some,
            match r {
                Some(n) => {
                    &&& n == exact_result(operation_type, x as int, y as int)
                    &&& final(self).history@ == old(self).history@.push(
                        Operation { first_num: x, second_num: y, operation_type },
                    )
                },
                None => final(self).history@ == old(self).history@,
            },
    {
        let result = operation_type.perform(x, y);
        if result.is_some() {
            self.history.push(Operation::new(x, y, operation_type));
        }
        result
    }

    /// `x + y`, recorded when it fits; `None` otherwise.
    pub fn addition(&mut self, x: i64, y: i64) -> (r: Option<i64>)
        ensures
            fits_i64(x + y) <==> r is Some,
            match r {
                Some(n) => {
                    &&& n == x + y
                    &&& final(self).history@ == old(self).history@.push(
                        Operation {
                            first_num: x,
                            second_num: y,
                            operation_type: OperationType::Addition,
                        },
                    )
                },
                None => final(self).history@ == old(self).history@,
            },
    {
        self.run(OperationType::Addition, x, y)
    }

    /// `x - y`, recorded when it fits; `None` otherwise.
    pub fn subtraction(&mut self, x: i64, y: i64) -> (r: Option<i64>)
        ensures
            fits_i64(x - y) <==> r is Some,
            match r {
                Some(n) => {
                    &&& n == x - y
                    &&& final(self).history@ == old(self).history@.push(
                        Operation {
                            first_num: x,
                            second_num: y,
                            operation_type: OperationType::Subtraction,
                        },
                    )
                },
                None => final(self).history@ == old(self).history@,
            },
    {
        self.run(OperationType::Subtraction, x, y)
    }

    /// `x * y`, recorded when it fits; `None` otherwise.
    pub fn multiplication(&mut self, x: i64, y: i64) -> (r: Option<i64>)
        ensures
            fits_i64(x * y) <==> r is Some,
            match r {
                Some(n) => {
                    &&& n == x * y
                    &&& final(self).history@ == old(self).history@.push(
                        Operation {
                            first_num: x,
                            second_num: y,
                            operation_type: OperationType::Multiplication,
                        },
                    )
                },
                None => final(self).history@ == old(self).history@,
            },
    {
        self.run(OperationType::Multiplication, x, y)
    }

    /// The history listed one operation per line, numbered from 0.
    pub fn show_history(&self) -> (r: String)
        ensures
            r@ == operations_listing(self.history@),
    {
        let mut result = String::new();
        let n = self.history.len();
        let mut index: usize = 0;
        assert(self.history@.take(0) =~= Seq::empty());
        while index < n
            invariant
                n == self.history@.len(),
                index <= n,
                result@ == operations_listing(self.history@.take(index as int)),
            decreases n - index,
        {
            let operation = self.history[index];
            let ghost before = result@;
            match operation.operation_type.perform(operation.first_num, operation.second_num) {
                Some(value) => {
                    proof {
                        reveal_strlit(": ");
                        reveal_strlit(" ");
                        reveal_strlit(" = ");
                        reveal_strlit("\n");
                    }
                    push_nat(&mut result, index as u64);
                    result.append(": ");
                    push_int(&mut result, operation.first_num);
                    result.append(" ");
                    result.append(operation.operation_type.get_sign());
                    result.append(" ");
                    push_int(&mut result, operation.second_num);
                    result.append(" = ");
                    push_int(&mut result, value);
                    result.append("\n");
                    assert(result@ =~= before + operation_line(index as nat, operation));
                },
                None => {
                    assert(result@ =~= before + operation_line(index as nat, operation));
                },
            }
            proof {
                let taken = self.history@.take(index + 1);
                assert(taken.drop_last() =~= self.history@.take(index as int));
            }
            index = index + 1;
        }
        assert(self.history@.take(n as int) =~= self.history@);
        result
    }

    /// Replays the operation at `operation_index` of the history, recording it
    /// again when it succeeds; `None` when there is no such operation.
    pub fn repeat(&mut self, operation_index: usize) -> (r: Option<i64>)
        ensures
            operation_index >= old(self).history@.len() ==> {
                &&& r is None
                &&& final(self).history@ == old(self).history@
            },
            operation_index < old(self).history@.len() ==> {
                let op = old(self).history@[operation_index as int];
                let v = exact_result(op.operation_type, op.first_num as int, op.second_num as int);
                &&& fits_i64(v) <==> r is Some
                &&& match r {
                    Some(n) => {
                        &&& n == v
                        &&& final(self).history@ == old(self).history@.push(op)
                    },
                    None => final(self).history@ == old(self).history@,
                }
            },
    {
        if operation_index >= self.history.len() {
            return None;
        }
        let operation = self.history[operation_index];
        match operation.operation_type {
            OperationType::Addition => self.addition(operation.first_num, operation.second_num),
            OperationType::Subtraction => {
                self.subtraction(operation.first_num, operation.second_num)
            },
            OperationType::Multiplication => {
                self.multiplication(operation.first_num, operation.second_num)
            },
        }
    }

    /// Empties the history.
    pub fn clear_history(&mut self)
        ensures
            final(self).history@ == Seq::<Operation>::empty(),
    {
        self.history.clear();
    }
}

} // verus!
