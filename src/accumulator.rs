//! A calculator over a running `i64` value that keeps a bounded, ordered
//! history of its successful operations.
//!
//! Every operation either succeeds, moves the value to its exact result and
//! records one entry, or fails with an error and changes nothing. When the
//! history is full, its oldest entry is evicted before the new one is added.

use vstd::prelude::*;
use vstd::string::*;
use std::collections::VecDeque;
use crate::checked::{
    abs, checked_add, checked_divide, checked_multiply, checked_subtract, fits_i64,
    lemma_checked_rem_is_trunc_rem, trunc_div, trunc_rem,
};
use crate::error::{is_invalid_for, CalculatorError};
use crate::text::{int_text, nat_text, push_int, push_nat};

verus! {

/// The history capacity of `Calculator::new`.
pub const DEFAULT_CAPACITY: usize = 100;

/// One successful operation: how it reads, and the value it produced.
pub struct HistoryEntry {
    pub description: String,
    pub result: i64,
}

impl View for HistoryEntry {
    type V = (Seq<char>, i64);

    open spec fn view(&self) -> (Seq<char>, i64) {
        (self.description@, self.result)
    }
}

/// `log` after recording `e` in a history bounded by `cap`: the oldest entry
/// leaves first when the history is already full.
pub open spec fn record(
    log: Seq<(Seq<char>, i64)>,
    cap: nat,
    e: (Seq<char>, i64),
) -> Seq<(Seq<char>, i64)> {
    if log.len() >= cap {
        log.drop_first().push(e)
    } else {
        log.push(e)
    }
}

/// `log` after recording each of `es` in turn, in a history bounded by `cap`.
pub open spec fn record_all(
    log: Seq<(Seq<char>, i64)>,
    cap: nat,
    es: Seq<(Seq<char>, i64)>,
) -> Seq<(Seq<char>, i64)>
    decreases es.len(),
{
    if es.len() == 0 {
        log
    } else {
        record(record_all(log, cap, es.drop_last()), cap, es.last())
    }
}

/// The line of the `k`-th entry, counting from 1, in the rendered history:
/// `"<k>. <description> = <result>"` and a newline.
pub open spec fn entry_line(k: nat, e: (Seq<char>, i64)) -> Seq<char> {
    nat_text(k) + seq!['.', ' '] + e.0 + seq![' ', '=', ' '] + int_text(e.1 as int) + seq!['\n']
}

/// The rendered history: one line per entry, oldest first.
pub open spec fn listing(log: Seq<(Seq<char>, i64)>) -> Seq<char>
    decreases log.len(),
{
    if log.len() == 0 {
        Seq::empty()
    } else {
        listing(log.drop_last()) + entry_line(log.len(), log.last())
    }
}

/// The text of a binary operation: `"<a> <symbol> <b>"`.
pub open spec fn binary_text(a: int, symbol: char, b: int) -> Seq<char> {
    int_text(a) + seq![' ', symbol, ' '] + int_text(b)
}

/// The text of a negation: `"neg(<a>)"`.
pub open spec fn negation_text(a: int) -> Seq<char> {
    seq!['n', 'e', 'g', '('] + int_text(a) + seq![')']
}

/// The text of a power: `"pow(<a>, <e>)"`.
pub open spec fn power_text(a: int, e: int) -> Seq<char> {
    seq!['p', 'o', 'w', '('] + int_text(a) + seq![',', ' '] + int_text(e) + seq![')']
}

/// The text of a factorial: `"<a>!"`.
pub open spec fn factorial_text(a: int) -> Seq<char> {
    int_text(a) + seq!['!']
}

/// `b` raised to the power `e`.
pub open spec fn pow(b: int, e: nat) -> int
    decreases e,
{
    if e == 0 {
        1
    } else {
        b * pow(b, (e - 1) as nat)
    }
}

/// `n!`.
pub open spec fn factorial_of(n: nat) -> nat
    decreases n,
{
    if n == 0 {
        1
    } else {
        n * factorial_of((n - 1) as nat)
    }
}

/// The largest `n` whose `n!` fits in an `i64`.
pub const MAX_FACTORIAL_INPUT: i64 = 20;

/// The running value, its history and the history's capacity.
pub struct Calculator {
    current: i64,
    history: VecDeque<HistoryEntry>,
    capacity: usize,
}

impl Calculator {
    /// The running value.
    pub closed spec fn value(&self) -> i64 {
        self.current
    }

    /// The history, oldest entry first.
    pub closed spec fn entries(&self) -> Seq<(Seq<char>, i64)> {
        self.history@.map_values(|e: HistoryEntry| e@)
    }

    /// The most entries the history holds.
    pub closed spec fn cap(&self) -> nat {
        self.capacity as nat
    }

    /// The capacity is positive and the history never exceeds it.
    pub open spec fn wf(&self) -> bool {
        &&& 0 < self.cap()
        &&& self.entries().len() <= self.cap()
    }

    /// `post` is `self` after a successful operation, described by `text`,
    /// that produced `n`.
    pub open spec fn committed(&self, post: Calculator, text: Seq<char>, n: i64) -> bool {
        &&& post.value() == n
        &&& post.cap() == self.cap()
        &&& post.entries() == record(self.entries(), self.cap(), (text, n))
    }

    /// `post` is `self` with nothing changed.
    pub open spec fn unchanged(&self, post: Calculator) -> bool {
        &&& post.value() == self.value()
        &&& post.cap() == self.cap()
        &&& post.entries() == self.entries()
    }

    /// A calculator at 0 with an empty history of the default capacity.
    pub fn new() -> (r: Calculator)
        ensures
            r.wf(),
            r.value() == 0,
            r.entries().len() == 0,
            r.cap() == DEFAULT_CAPACITY,
    {
        Calculator::with_capacity(DEFAULT_CAPACITY)
    }

    /// A calculator at 0 with an empty history that holds at most `capacity` entries.
    pub fn with_capacity(capacity: usize) -> (r: Calculator)
        requires
            capacity > 0,
        ensures
            r.wf(),
            r.value() == 0,
            r.entries().len() == 0,
            r.cap() == capacity,
    {
        let r = Calculator { current: 0, history: VecDeque::new(), capacity };
        assert(r.entries() =~= Seq::empty());
        r
    }

    /// The running value.
    pub fn current_value(&self) -> (r: i64)
        ensures
            r == self.value(),
    {
        self.current
    }

    /// The history, oldest entry first.
    pub fn history(&self) -> (r: &VecDeque<HistoryEntry>)
        ensures
            r@.map_values(|e: HistoryEntry| e@) == self.entries(),
    {
        &self.history
    }

    /// The history rendered one entry per line, numbered from 1, oldest first.
    pub fn history_as_string(&self) -> (r: String)
        ensures
            r@ == listing(self.entries()),
    {
        let mut s = String::new();
        let n = self.history.len();
        let mut i: usize = 0;
        assert(self.entries().take(0) =~= Seq::empty());
        while i < n
            invariant
                n == self.entries().len(),
                i <= n,
                s@ == listing(self.entries().take(i as int)),
            decreases n - i,
        {
            let entry = &self.history[i];
            let ghost before = s@;
            proof {
                reveal_strlit(". ");
                reveal_strlit(" = ");
                reveal_strlit("\n");
            }
            push_nat(&mut s, (i + 1) as u64);
            s.append(". ");
            s.append(entry.description.as_str());
            s.append(" = ");
            push_int(&mut s, entry.result);
            s.append("\n");
            proof {
                let taken = self.entries().take(i + 1);
                assert(taken.drop_last() =~= self.entries().take(i as int));
                assert(taken.last() == entry@);
                assert(s@ =~= before + entry_line((i + 1) as nat, entry@));
            }
            i = i + 1;
        }
        assert(self.entries().take(n as int) =~= self.entries());
        s
    }

    /// Sets the value to 0 and empties the history.
    pub fn clear(&mut self)
        requires
            old(self).wf(),
        ensures
            final(self).wf(),
            final(self).value() == 0,
            final(self).entries().len() == 0,
            final(self).cap() == old(self).cap(),
    {
        self.current = 0;
        self.history.clear();
        assert(self.entries() =~= Seq::empty());
    }

    /// Empties the history and keeps the value.
    pub fn clear_history(&mut self)
        requires
            old(self).wf(),
        ensures
            final(self).wf(),
            final(self).value() == old(self).value(),
            final(self).entries().len() == 0,
            final(self).cap() == old(self).cap(),
    {
        self.history.clear();
        assert(self.entries() =~= Seq::empty());
    }

    /// Moves the value to `n` and records `description`, evicting the oldest
    /// entry when the history is full.
    fn commit(&mut self, description: String, n: i64)
        requires
            old(self).wf(),
        ensures
            final(self).wf(),
            old(self).committed(*final(self), description@, n),
    {
        let ghost before = self.entries();
        let ghost text = description@;
        if self.history.len() >= self.capacity {
            self.history.pop_front();
        }
        self.history.push_back(HistoryEntry { description, result: n });
        self.current = n;
        assert(self.entries() =~= record(before, self.cap(), (text, n)));
    }

    /// The text of a binary operation on the running value and `operand`.
    fn describe_binary(&self, symbol: &str, operand: i64) -> (r: String)
        ensures
            r@ == int_text(self.value() as int) + seq![' '] + symbol@ + seq![' '] + int_text(
                operand as int,
            ),
    {
        let mut s = String::new();
        push_int(&mut s, self.current);
        proof {
            reveal_strlit(" ");
        }
        s.append(" ");
        s.append(symbol);
        s.append(" ");
        push_int(&mut s, operand);
        assert(s@ =~= int_text(self.value() as int) + seq![' '] + symbol@ + seq![' ']
            + int_text(operand as int));
        s
    }

    /// Commits the outcome of a binary operation on the running value and
    /// `operand`, or passes its error on with nothing changed.
    fn finish_binary(
        &mut self,
        symbol: &str,
        operand: i64,
        outcome: Result<i64, CalculatorError>,
    ) -> (r: Result<i64, CalculatorError>)
        requires
            old(self).wf(),
        ensures
            final(self).wf(),
            r == outcome,
            match r {
                Ok(n) => old(self).committed(
                    *final(self),
                    int_text(old(self).value() as int) + seq![' '] + symbol@ + seq![' ']
                        + int_text(operand as int),
                    n,
                ),
                Err(_) => old(self).unchanged(*final(self)),
            },
    {
        match outcome {
            Ok(n) => {
                let text = self.describe_binary(symbol, operand);
                self.commit(text, n);
                Ok(n)
            },
            Err(e) => Err(e),
        }
    }

    /// Adds `operand` to the running value; `Overflow` when the sum does not fit.
    pub fn add(&mut self, operand: i64) -> (r: Result<i64, CalculatorError>)
        requires
            old(self).wf(),
        ensures
            final(self).wf(),
            fits_i64(old(self).value() + operand) <==> r is Ok,
            match r {
                Ok(n) => {
                    &&& n == old(self).value() + operand
                    &&& old(self).committed(
                        *final(self),
                        binary_text(old(self).value() as int, '+', operand as int),
                        n,
                    )
                },
                Err(e) => {
                    &&& e == CalculatorError::Overflow
                    &&& old(self).unchanged(*final(self))
                },
            },
    {
        proof {
            reveal_strlit("+");
        }
        assert(binary_text(self.value() as int, '+', operand as int)
            =~= int_text(self.value() as int) + seq![' '] + "+"@ + seq![' '] + int_text(
            operand as int,
        ));
        let outcome = checked_add(self.current, operand);
        self.finish_binary("+", operand, outcome)
    }

    /// Subtracts `operand` from the running value; `Underflow` when the
    /// difference does not fit, whichever bound it passes.
    pub fn subtract(&mut self, operand: i64) -> (r: Result<i64, CalculatorError>)
        requires
            old(self).wf(),
        ensures
            final(self).wf(),
            fits_i64(old(self).value() - operand) <==> r is Ok,
            match r {
                Ok(n) => {
                    &&& n == old(self).value() - operand
                    &&& old(self).committed(
                        *final(self),
                        binary_text(old(self).value() as int, '-', operand as int),
                        n,
                    )
                },
                Err(e) => {
                    &&& e == CalculatorError::Underflow
                    &&& old(self).unchanged(*final(self))
                },
            },
    {
        proof {
            reveal_strlit("-");
        }
        assert(binary_text(self.value() as int, '-', operand as int)
            =~= int_text(self.value() as int) + seq![' '] + "-"@ + seq![' '] + int_text(
            operand as int,
        ));
        let outcome = checked_subtract(self.current, operand);
        self.finish_binary("-", operand, outcome)
    }

    /// Multiplies the running value by `operand`; `Overflow` when the product
    /// does not fit, whichever bound it passes.
    pub fn multiply(&mut self, operand: i64) -> (r: Result<i64, CalculatorError>)
        requires
            old(self).wf(),
        ensures
            final(self).wf(),
            fits_i64(old(self).value() * operand) <==> r is Ok,
            match r {
                Ok(n) => {
                    &&& n == old(self).value() * operand
                    &&& old(self).committed(
                        *final(self),
                        binary_text(old(self).value() as int, '×', operand as int),
                        n,
                    )
                },
                Err(e) => {
                    &&& e == CalculatorError::Overflow
                    &&& old(self).unchanged(*final(self))
                },
            },
    {
        proof {
            reveal_strlit("×");
        }
        assert(binary_text(self.value() as int, '×', operand as int)
            =~= int_text(self.value() as int) + seq![' '] + "×"@ + seq![' '] + int_text(
            operand as int,
        ));
        let outcome = checked_multiply(self.current, operand);
        self.finish_binary("×", operand, outcome)
    }

    /// Divides the running value by `operand`, rounding toward zero;
    /// `DivisionByZero` when `operand` is 0, and `Overflow` for `i64::MIN / -1`.
    pub fn divide(&mut self, operand: i64) -> (r: Result<i64, CalculatorError>)
        requires
            old(self).wf(),
        ensures
            final(self).wf(),
            (operand != 0 && !(old(self).value() == i64::MIN && operand == -1)) <==> r is Ok,
            match r {
                Ok(n) => {
                    &&& n == trunc_div(old(self).value() as int, operand as int)
                    &&& old(self).committed(
                        *final(self),
                        binary_text(old(self).value() as int, '÷', operand as int),
                        n,
                    )
                },
                Err(e) => {
                    &&& e == (if operand == 0 {
                        CalculatorError::DivisionByZero
                    } else {
                        CalculatorError::Overflow
                    })
                    &&& old(self).unchanged(*final(self))
                },
            },
    {
        proof {
            reveal_strlit("÷");
        }
        assert(binary_text(self.value() as int, '÷', operand as int)
            =~= int_text(self.value() as int) + seq![' '] + "÷"@ + seq![' '] + int_text(
            operand as int,
        ));
        let outcome = checked_divide(self.current, operand);
        self.finish_binary("÷", operand, outcome)
    }

    /// The remainder of the running value divided by `operand`, with the sign
    /// of the running value; `DivisionByZero` when `operand` is 0. The
    /// remainder always fits, `i64::MIN % -1` included (it is 0).
    pub fn modulo(&mut self, operand: i64) -> (r: Result<i64, CalculatorError>)
        requires
            old(self).wf(),
        ensures
            final(self).wf(),
            operand != 0 <==> r is Ok,
            match r {
                Ok(n) => {
                    &&& n == trunc_rem(old(self).value() as int, operand as int)
                    &&& old(self).committed(
                        *final(self),
                        binary_text(old(self).value() as int, '%', operand as int),
                        n,
                    )
                },
                Err(e) => {
                    &&& e == CalculatorError::DivisionByZero
                    &&& old(self).unchanged(*final(self))
                },
            },
    {
        proof {
            reveal_strlit("%");
        }
        assert(binary_text(self.value() as int, '%', operand as int)
            =~= int_text(self.value() as int) + seq![' '] + "%"@ + seq![' '] + int_text(
            operand as int,
        ));
        let outcome = if operand == 0 {
            Err(CalculatorError::DivisionByZero)
        } else if operand == -1 {
            assert(trunc_rem(self.value() as int, -1) == 0);
            Ok(0)
        } else {
            match self.current.checked_rem(operand) {
                Some(n) => {
                    proof {
                        lemma_checked_rem_is_trunc_rem(self.current, operand);
                    }
                    Ok(n)
                },
                None => {
                    assert(false);
                    Err(CalculatorError::Overflow)
                },
            }
        };
        self.finish_binary("%", operand, outcome)
    }

    /// Negates the running value; `Overflow` for `i64::MIN`, whose negation does not fit.
    pub fn negate(&mut self) -> (r: Result<i64, CalculatorError>)
        requires
            old(self).wf(),
        ensures
            final(self).wf(),
            old(self).value() != i64::MIN <==> r is Ok,
            match r {
                Ok(n) => {
                    &&& n == -old(self).value()
                    &&& old(self).committed(
                        *final(self),
                        negation_text(old(self).value() as int),
                        n,
                    )
                },
                Err(e) => {
                    &&& e == CalculatorError::Overflow
                    &&& old(self).unchanged(*final(self))
                },
            },
    {
        if self.current == i64::MIN {
            return Err(CalculatorError::Overflow);
        }
        let n = -self.current;
        proof {
            reveal_strlit("neg(");
            reveal_strlit(")");
        }
        let mut text = String::from_str("neg(");
        push_int(&mut text, self.current);
        text.append(")");
        assert(text@ =~= negation_text(self.value() as int));
        self.commit(text, n);
        Ok(n)
    }

    /// Raises the running value to the power `exp`; `Invalid` when `exp` is
    /// negative, and `Overflow` when the power does not fit, whichever bound
    /// it passes.
    pub fn power(&mut self, exp: i64) -> (r: Result<i64, CalculatorError>)
        requires
            old(self).wf(),
        ensures
            final(self).wf(),
            (exp >= 0 && fits_i64(pow(old(self).value() as int, exp as nat))) <==> r is Ok,
            match r {
                Ok(n) => {
                    &&& n == pow(old(self).value() as int, exp as nat)
                    &&& old(self).committed(
                        *final(self),
                        power_text(old(self).value() as int, exp as int),
                        n,
                    )
                },
                Err(e) => {
                    &&& if exp < 0 {
                        is_invalid_for(e, "negative exponent"@)
                    } else {
                        e == CalculatorError::Overflow
                    }
                    &&& old(self).unchanged(*final(self))
                },
            },
    {
        if exp < 0 {
            return Err(CalculatorError::Invalid(String::from_str("negative exponent")));
        }
        match checked_pow(self.current, exp as u64) {
            Some(n) => {
                proof {
                    reveal_strlit("pow(");
                    reveal_strlit(", ");
                    reveal_strlit(")");
                }
                let mut text = String::from_str("pow(");
                push_int(&mut text, self.current);
                text.append(", ");
                push_int(&mut text, exp);
                text.append(")");
                assert(text@ =~= power_text(self.value() as int, exp as int));
                self.commit(text, n);
                Ok(n)
            },
            None => Err(CalculatorError::Overflow),
        }
    }

    /// Replaces the running value by its factorial; `Invalid` when it is
    /// negative, and `Overflow` when it is above 20 (21! does not fit).
    pub fn factorial(&mut self) -> (r: Result<i64, CalculatorError>)
        requires
            old(self).wf(),
        ensures
            final(self).wf(),
            (0 <= old(self).value() <= MAX_FACTORIAL_INPUT) <==> r is Ok,
            match r {
                Ok(n) => {
                    &&& n == factorial_of(old(self).value() as nat)
                    &&& old(self).committed(
                        *final(self),
                        factorial_text(old(self).value() as int),
                        n,
                    )
                },
                Err(e) => {
                    &&& if old(self).value() < 0 {
                        is_invalid_for(e, "factorial of negative"@)
                    } else {
                        e == CalculatorError::Overflow
                    }
                    &&& old(self).unchanged(*final(self))
                },
            },
    {
        let m = self.current;
        if m < 0 {
            return Err(CalculatorError::Invalid(String::from_str("factorial of negative")));
        }
        if m > MAX_FACTORIAL_INPUT {
            return Err(CalculatorError::Overflow);
        }
        proof {
            lemma_factorial_of_twenty();
        }
        let mut acc: i64 = 1;
        let mut i: i64 = 1;
        while i <= m
            invariant
                0 <= m <= MAX_FACTORIAL_INPUT,
                1 <= i <= m + 1,
                acc == factorial_of((i - 1) as nat),
                factorial_of(20) == 2432902008176640000,
            decreases m + 1 - i,
        {
            proof {
                lemma_factorial_grows(i as nat, 20);
                assert(factorial_of(i as nat) == i * factorial_of((i - 1) as nat));
                assert(acc * i == i * acc) by (nonlinear_arith);
            }
            acc = acc * i;
            i = i + 1;
        }
        proof {
            reveal_strlit("!");
        }
        let mut text = String::new();
        push_int(&mut text, m);
        text.append("!");
        assert(text@ =~= factorial_text(self.value() as int));
        self.commit(text, acc);
        Ok(acc)
    }
}

/// `base` raised to `exp`, or `None` when the power does not fit.
fn checked_pow(base: i64, exp: u64) -> (r: Option<i64>)
    ensures
        fits_i64(pow(base as int, exp as nat)) <==> r is Some,
        r matches Some(n) ==> n == pow(base as int, exp as nat),
{
    if base == 0 {
        return if exp == 0 {
            Some(1)
        } else {
            Some(0)
        };
    }
    if base == 1 {
        proof {
            lemma_pow_one(exp as nat);
        }
        return Some(1);
    }
    if base == -1 {
        proof {
            lemma_pow_minus_one(exp as nat);
        }
        return if exp % 2 == 0 {
            Some(1)
        } else {
            Some(-1)
        };
    }
    let mut acc: i64 = 1;
    let mut i: u64 = 0;
    while i < exp
        invariant
            base < -1 || base > 1,
            i <= exp,
            acc == pow(base as int, i as nat),
        decreases exp - i,
    {
        match acc.checked_mul(base) {
            Some(n) => {
                assert(pow(base as int, (i + 1) as nat) == base * pow(base as int, i as nat));
                acc = n;
                i = i + 1;
            },
            None => {
                assert(pow(base as int, (i + 1) as nat) == base * pow(base as int, i as nat));
                proof {
                    lemma_pow_escapes(base as int, (i + 1) as nat, exp as nat);
                }
                return None;
            },
        }
    }
    Some(acc)
}

/// Every power of 1 is 1.
proof fn lemma_pow_one(e: nat)
    ensures
        pow(1, e) == 1,
    decreases e,
{
    if e > 0 {
        lemma_pow_one((e - 1) as nat);
    }
}

/// Powers of -1 alternate between 1 and -1.
proof fn lemma_pow_minus_one(e: nat)
    ensures
        pow(-1, e) == if e % 2 == 0 {
            1int
        } else {
            -1int
        },
    decreases e,
{
    if e > 0 {
        lemma_pow_minus_one((e - 1) as nat);
    }
}

/// Powers of a base of size at least 2 grow in size with the exponent.
proof fn lemma_pow_size(b: int, e: nat)
    requires
        b < -1 || b > 1,
    ensures
        abs(pow(b, e)) >= 1,
        e >= 1 ==> abs(pow(b, e)) >= 2 * abs(pow(b, (e - 1) as nat)),
    decreases e,
{
    if e > 0 {
        lemma_pow_size(b, (e - 1) as nat);
        let p = pow(b, (e - 1) as nat);
        assert(abs(b * p) == abs(b) * abs(p)) by (nonlinear_arith);
        assert(abs(b) * abs(p) >= 2 * abs(p)) by (nonlinear_arith)
            requires
                abs(b) >= 2,
                abs(p) >= 1,
        ;
    }
}

/// Once a power of a base of size at least 2 leaves the `i64` range, every
/// higher power stays out of it.
proof fn lemma_pow_escapes(b: int, k: nat, e: nat)
    requires
        b < -1 || b > 1,
        1 <= k <= e,
        !fits_i64(pow(b, k)),
    ensures
        !fits_i64(pow(b, e)),
    decreases e - k,
{
    if k < e {
        lemma_pow_size(b, (k + 1) as nat);
        lemma_pow_escapes_by_size(b, (k + 1) as nat, e);
    }
}

/// Powers of a base of size at least 2 never shrink in size.
proof fn lemma_pow_escapes_by_size(b: int, k: nat, e: nat)
    requires
        b < -1 || b > 1,
        k <= e,
        abs(pow(b, k)) > i64::MAX + 1,
    ensures
        !fits_i64(pow(b, e)),
    decreases e - k,
{
    if k < e {
        lemma_pow_size(b, (k + 1) as nat);
        lemma_pow_escapes_by_size(b, (k + 1) as nat, e);
    }
}

/// `20!`, the largest factorial that fits in an `i64`.
proof fn lemma_factorial_of_twenty()
    ensures
        factorial_of(20) == 2432902008176640000,
{
    assert(factorial_of(0) == 1);
    assert(factorial_of(1) == 1);
    assert(factorial_of(2) == 2);
    assert(factorial_of(3) == 6);
    assert(factorial_of(4) == 24);
    assert(factorial_of(5) == 120);
    assert(factorial_of(6) == 720);
    assert(factorial_of(7) == 5040);
    assert(factorial_of(8) == 40320);
    assert(factorial_of(9) == 362880);
    assert(factorial_of(10) == 3628800);
    assert(factorial_of(11) == 39916800);
    assert(factorial_of(12) == 479001600);
    assert(factorial_of(13) == 6227020800);
    assert(factorial_of(14) == 87178291200);
    assert(factorial_of(15) == 1307674368000);
    assert(factorial_of(16) == 20922789888000);
    assert(factorial_of(17) == 355687428096000);
    assert(factorial_of(18) == 6402373705728000);
    assert(factorial_of(19) == 121645100408832000);
    assert(factorial_of(20) == 2432902008176640000);
}

/// Factorials do not decrease.
proof fn lemma_factorial_grows(a: nat, b: nat)
    requires
        a <= b,
    ensures
        1 <= factorial_of(a) <= factorial_of(b),
    decreases b,
{
    if a < b {
        lemma_factorial_grows(a, (b - 1) as nat);
        let prev = factorial_of((b - 1) as nat);
        assert(prev <= b * prev) by (nonlinear_arith)
            requires
                b >= 1,
                prev >= 1,
        ;
    } else if a > 0 {
        lemma_factorial_grows((a - 1) as nat, (a - 1) as nat);
        assert(1 <= a * factorial_of((a - 1) as nat)) by (nonlinear_arith)
            requires
                a >= 1,
                factorial_of((a - 1) as nat) >= 1,
        ;
    }
}

/// The history is a bounded first-in first-out log. Every successful
/// operation of a `Calculator` records its entry by `record`; recording
/// entries one by one into an empty history of capacity `cap` leaves exactly the last
/// `cap` of them (all of them when there are fewer), oldest first. In
/// particular, after `cap + 1` entries the history holds `cap` of them and the
/// first one is gone.
pub proof fn lemma_history_keeps_latest(cap: nat, es: Seq<(Seq<char>, i64)>)
    requires
        cap > 0,
    ensures
        record_all(Seq::empty(), cap, es).len() == if es.len() <= cap {
            es.len()
        } else {
            cap
        },
        record_all(Seq::empty(), cap, es) == es.subrange(
            if es.len() <= cap {
                0
            } else {
                es.len() - cap
            },
            es.len() as int,
        ),
    decreases es.len(),
{
    if es.len() == 0 {
        assert(es.subrange(0, 0) =~= Seq::empty());
    } else {
        let k = es.len() as int;
        lemma_history_keeps_latest(cap, es.drop_last());
        let before = record_all(Seq::empty(), cap, es.drop_last());
        if k - 1 >= cap {
            assert(before.drop_first().push(es.last()) =~= es.subrange(k - cap, k));
        } else {
            assert(before.push(es.last()) =~= es.subrange(if k <= cap { 0 } else { k - cap }, k));
        }
    }
}

} // verus!
