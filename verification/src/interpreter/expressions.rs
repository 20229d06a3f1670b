use vstd::prelude::*;

use vstd::hash_map::StringHashMap;
use crate::interpreter::memory;
use crate::interpreter::memory::Fault;
use crate::interpreter::memory::MachV;
use crate::interpreter::memory::RunIo;
use crate::interpreter::memory::StepRes;
use crate::interpreter::memory::mach;
use crate::interpreter::memory::spec_read_input;

verus! {

// ---------------------------------------------------------------------------
// Expressions of the language
// ---------------------------------------------------------------------------

/// The kind of a leaf term: an integer constant, a read from the input, a
/// variable, or a boolean constant resolved to 0 or 1 at parse time.
#[derive(Clone, Copy, PartialEq, Eq, Structural, Debug)]
pub enum ExprType {
    ConstInt,
    ReadInt,
    Var,
    ConstBool,
}

/// The arithmetic operators.
#[derive(Clone, Copy, PartialEq, Eq, Structural, Debug)]
pub enum IntOp {
    Add,
    Sub,
    Mul,
    Div,
    Mod,
    Pow,
}

/// The relational operators.
#[derive(Clone, Copy, PartialEq, Eq, Structural, Debug)]
pub enum BoolOp {
    Equal,
    NotEqual,
    Lower,
    Greater,
    LowerEqual,
    GreaterEqual,
}

/// A leaf term, possibly negated: the grammar allows a leading minus on the
/// first term of an integer expression, which negates that term's value at
/// evaluation time.
#[derive(Clone, Debug)]
pub struct Expr {
    pub expr: ExprType,
    pub value: i32,
    pub name: String,
    pub negated: bool,
}

/// One application of an arithmetic operator to two terms; the grammar allows
/// at most one such application per integer expression.
#[derive(Clone, Debug)]
pub struct BinaryInt {
    pub left: Expr,
    pub op: IntOp,
    pub right: Expr,
}

/// One comparison of two terms.
#[derive(Clone, Debug)]
pub struct SingleBool {
    pub left: Expr,
    pub op: BoolOp,
    pub right: Expr,
}

/// An expression: a single term, one arithmetic application, or one
/// comparison.
#[derive(Clone, Debug)]
pub enum Expression {
    Ex(Expr),
    Bi(BinaryInt),
    Sb(SingleBool),
}

/// The mathematical content of a leaf term.
pub struct ExprV {
    pub expr: ExprType,
    pub value: i32,
    pub name: Seq<char>,
    pub negated: bool,
}

pub struct BinaryIntV {
    pub left: ExprV,
    pub op: IntOp,
    pub right: ExprV,
}

pub struct SingleBoolV {
    pub left: ExprV,
    pub op: BoolOp,
    pub right: ExprV,
}

pub enum ExpressionV {
    Ex(ExprV),
    Bi(BinaryIntV),
    Sb(SingleBoolV),
}

impl View for Expr {
    type V = ExprV;

    open spec fn view(&self) -> ExprV {
        ExprV { expr: self.expr, value: self.value, name: self.name@, negated: self.negated }
    }
}

impl View for BinaryInt {
    type V = BinaryIntV;

    open spec fn view(&self) -> BinaryIntV {
        BinaryIntV { left: self.left@, op: self.op, right: self.right@ }
    }
}

impl View for SingleBool {
    type V = SingleBoolV;

    open spec fn view(&self) -> SingleBoolV {
        SingleBoolV { left: self.left@, op: self.op, right: self.right@ }
    }
}

impl View for Expression {
    type V = ExpressionV;

    open spec fn view(&self) -> ExpressionV {
        match self {
            Expression::Ex(e) => ExpressionV::Ex(e@),
            Expression::Bi(b) => ExpressionV::Bi(b@),
            Expression::Sb(s) => ExpressionV::Sb(s@),
        }
    }
}

// ---------------------------------------------------------------------------
// Arithmetic on 32-bit values
// ---------------------------------------------------------------------------

/// Whether a number is representable as a signed 32-bit value.
pub open spec fn in_i32(v: int) -> bool {
    -0x8000_0000 <= v <= 0x7fff_ffff
}

/// The power by repeated multiplication, stopped with nothing when a partial
/// product leaves the 32-bit range.
pub open spec fn spec_pow_checked(base: i32, e: u32) -> Option<i32>
    decreases e,
{
    if e == 0 {
        Some(1)
    } else {
        match spec_pow_checked(base, (e - 1) as u32) {
            None => None,
            Some(p) => if in_i32(p * base) {
                Some((p * base) as i32)
            } else {
                None
            },
        }
    }
}

/// Once a partial product has left the 32-bit range, every later power is out
/// as well.
pub proof fn lemma_pow_checked_none(base: i32, k: u32, e: u32)
    requires
        k <= e,
        spec_pow_checked(base, k) is None,
    ensures
        spec_pow_checked(base, e) is None,
    decreases e - k,
{
    if e > k {
        lemma_pow_checked_none(base, k, (e - 1) as u32);
    }
}

/// What one arithmetic operator yields on two 32-bit values, with the host's
/// semantics: division truncates towards zero and the remainder takes the
/// dividend's sign.  Division and remainder by zero are faults; a result
/// outside the 32-bit range is an overflow fault; a negative exponent is a
/// fault.
pub open spec fn spec_apply_int_op(op: IntOp, a: i32, b: i32) -> Result<i32, Fault> {
    match op {
        IntOp::Add => if in_i32(a + b) {
            Ok((a + b) as i32)
        } else {
            Err(Fault::Overflow)
        },
        IntOp::Sub => if in_i32(a - b) {
            Ok((a - b) as i32)
        } else {
            Err(Fault::Overflow)
        },
        IntOp::Mul => if in_i32(a * b) {
            Ok((a * b) as i32)
        } else {
            Err(Fault::Overflow)
        },
        IntOp::Div => if b == 0 {
            Err(Fault::DivisionByZero)
        } else {
            match a.checked_div(b) {
                Some(v) => Ok(v),
                None => Err(Fault::Overflow),
            }
        },
        IntOp::Mod => if b == 0 {
            Err(Fault::DivisionByZero)
        } else {
            match a.checked_rem(b) {
                Some(v) => Ok(v),
                None => Err(Fault::Overflow),
            }
        },
        IntOp::Pow => if b < 0 {
            Err(Fault::NegativeExponent)
        } else {
            match spec_pow_checked(a, b as u32) {
                Some(v) => Ok(v),
                None => Err(Fault::Overflow),
            }
        },
    }
}

/// What one relational operator yields on two 32-bit values.
pub open spec fn spec_apply_bool_op(op: BoolOp, a: i32, b: i32) -> bool {
    match op {
        BoolOp::Equal => a == b,
        BoolOp::NotEqual => a != b,
        BoolOp::Lower => a < b,
        BoolOp::Greater => a > b,
        BoolOp::LowerEqual => a <= b,
        BoolOp::GreaterEqual => a >= b,
    }
}

/// The power of a 32-bit base by a non-negative exponent, by repeated
/// multiplication; overflow of a partial product is a fault.
pub fn pow_i32(base: i32, e: u32) -> (r: Result<i32, Fault>)
    ensures
        match spec_pow_checked(base, e) {
            Some(v) => r == Ok::<i32, Fault>(v),
            None => r == Err::<i32, Fault>(Fault::Overflow),
        },
{
    let mut acc: i32 = 1;
    let mut k: u32 = 0;
    while k < e
        invariant
            k <= e,
            spec_pow_checked(base, k) == Some(acc),
        decreases e - k,
    {
        match acc.checked_mul(base) {
            Some(v) => {
                acc = v;
                k += 1;
            },
            None => {
                proof {
                    lemma_pow_checked_none(base, (k + 1) as u32, e);
                }
                return Err(Fault::Overflow);
            },
        }
    }
    Ok(acc)
}

/// Applies one arithmetic operator, with the faults the language defines.
pub fn apply_int_op(op: IntOp, a: i32, b: i32) -> (r: Result<i32, Fault>)
    ensures
        r == spec_apply_int_op(op, a, b),
{
    match op {
        IntOp::Add => match a.checked_add(b) {
            Some(v) => Ok(v),
            None => Err(Fault::Overflow),
        },
        IntOp::Sub => match a.checked_sub(b) {
            Some(v) => Ok(v),
            None => Err(Fault::Overflow),
        },
        IntOp::Mul => match a.checked_mul(b) {
            Some(v) => Ok(v),
            None => Err(Fault::Overflow),
        },
        IntOp::Div => {
            if b == 0 {
                Err(Fault::DivisionByZero)
            } else {
                match a.checked_div(b) {
                    Some(v) => Ok(v),
                    None => Err(Fault::Overflow),
                }
            }
        },
        IntOp::Mod => {
            if b == 0 {
                Err(Fault::DivisionByZero)
            } else {
                match a.checked_rem(b) {
                    Some(v) => Ok(v),
                    None => Err(Fault::Overflow),
                }
            }
        },
        IntOp::Pow => {
            if b < 0 {
                Err(Fault::NegativeExponent)
            } else {
                pow_i32(a, b as u32)
            }
        },
    }
}

/// Applies one relational operator.
pub fn apply_bool_op(op: BoolOp, a: i32, b: i32) -> (r: bool)
    ensures
        r == spec_apply_bool_op(op, a, b),
{
    match op {
        BoolOp::Equal => a == b,
        BoolOp::NotEqual => a != b,
        BoolOp::Lower => a < b,
        BoolOp::Greater => a > b,
        BoolOp::LowerEqual => a <= b,
        BoolOp::GreaterEqual => a >= b,
    }
}

// ---------------------------------------------------------------------------
// Evaluation
// ---------------------------------------------------------------------------

/// What one leaf term evaluates to: constants yield their value, a variable
/// yields its current binding or faults when none was assigned, a read
/// consumes one input line; a negated term's value is negated, and the one
/// negation that cannot be represented is an overflow fault.
pub open spec fn spec_eval_term(t: ExprV, m: MachV) -> StepRes<i32> {
    let base = match t.expr {
        ExprType::ConstInt => StepRes::Val(t.value, m),
        ExprType::ConstBool => StepRes::Val(t.value, m),
        ExprType::Var => if m.vars.contains_key(t.name) {
            StepRes::Val(m.vars[t.name], m)
        } else {
            StepRes::Stop(Fault::UndefinedVar, m)
        },
        ExprType::ReadInt => spec_read_input(m),
    };
    if t.negated {
        match base {
            StepRes::Val(v, m2) => if v == -0x8000_0000 {
                StepRes::Stop(Fault::Overflow, m2)
            } else {
                StepRes::Val((-(v as int)) as i32, m2)
            },
            StepRes::Stop(f, m2) => StepRes::Stop(f, m2),
        }
    } else {
        base
    }
}

/// What an expression evaluates to.  Both operands of an arithmetic or
/// relational application are evaluated, left first, even when the left one
/// already determines the result; a comparison yields 1 when it holds and 0
/// otherwise.
pub open spec fn spec_eval_expr(e: ExpressionV, m: MachV) -> StepRes<i32> {
    match e {
        ExpressionV::Ex(t) => spec_eval_term(t, m),
        ExpressionV::Bi(b) => match spec_eval_term(b.left, m) {
            StepRes::Stop(f, m1) => StepRes::Stop(f, m1),
            StepRes::Val(l, m1) => match spec_eval_term(b.right, m1) {
                StepRes::Stop(f, m2) => StepRes::Stop(f, m2),
                StepRes::Val(rv, m2) => match spec_apply_int_op(b.op, l, rv) {
                    Ok(v) => StepRes::Val(v, m2),
                    Err(f) => StepRes::Stop(f, m2),
                },
            },
        },
        ExpressionV::Sb(sb) => match spec_eval_term(sb.left, m) {
            StepRes::Stop(f, m1) => StepRes::Stop(f, m1),
            StepRes::Val(l, m1) => match spec_eval_term(sb.right, m1) {
                StepRes::Stop(f, m2) => StepRes::Stop(f, m2),
                StepRes::Val(rv, m2) => StepRes::Val(
                    if spec_apply_bool_op(sb.op, l, rv) {
                        1
                    } else {
                        0
                    },
                    m2,
                ),
            },
        },
    }
}

impl Expr {
    /// Evaluates this leaf term against the variable store and the streams.
    pub fn exec(&self, map: &mut StringHashMap<i32>, io: &mut RunIo) -> (r: Result<i32, Fault>)
        ensures
            ({
                let mfin = mach(final(map)@, *final(io));
                match spec_eval_term(self@, mach(old(map)@, *old(io))) {
                    StepRes::Val(v, m2) => r == Ok::<i32, Fault>(v) && mfin == m2,
                    StepRes::Stop(f, m2) => r == Err::<i32, Fault>(f) && mfin == m2,
                }
            }),
    {
        let base: Result<i32, Fault> = match self.expr {
            ExprType::ConstInt => Ok(self.value),
            ExprType::ConstBool => Ok(self.value),
            ExprType::Var => match memory::read(map, &self.name) {
                Some(v) => Ok(v),
                None => Err(Fault::UndefinedVar),
            },
            ExprType::ReadInt => memory::read_input(io),
        };
        if self.negated {
            match base {
                Ok(v) => {
                    if v == i32::MIN {
                        Err(Fault::Overflow)
                    } else {
                        Ok(-v)
                    }
                },
                Err(f) => Err(f),
            }
        } else {
            base
        }
    }
}

impl BinaryInt {
    /// Evaluates one arithmetic application: left term, right term, operator.
    pub fn exec(&self, map: &mut StringHashMap<i32>, io: &mut RunIo) -> (r: Result<i32, Fault>)
        ensures
            ({
                let mfin = mach(final(map)@, *final(io));
                match spec_eval_expr(ExpressionV::Bi(self@), mach(old(map)@, *old(io))) {
                    StepRes::Val(v, m2) => r == Ok::<i32, Fault>(v) && mfin == m2,
                    StepRes::Stop(f, m2) => r == Err::<i32, Fault>(f) && mfin == m2,
                }
            }),
    {
        let l = match self.left.exec(map, io) {
            Ok(v) => v,
            Err(f) => {
                return Err(f);
            },
        };
        let rv = match self.right.exec(map, io) {
            Ok(v) => v,
            Err(f) => {
                return Err(f);
            },
        };
        apply_int_op(self.op, l, rv)
    }
}

impl SingleBool {
    /// Evaluates one comparison: left term, right term, operator; the result
    /// is 1 when the comparison holds, 0 otherwise.
    pub fn exec(&self, map: &mut StringHashMap<i32>, io: &mut RunIo) -> (r: Result<i32, Fault>)
        ensures
            ({
                let mfin = mach(final(map)@, *final(io));
                match spec_eval_expr(ExpressionV::Sb(self@), mach(old(map)@, *old(io))) {
                    StepRes::Val(v, m2) => r == Ok::<i32, Fault>(v) && mfin == m2,
                    StepRes::Stop(f, m2) => r == Err::<i32, Fault>(f) && mfin == m2,
                }
            }),
    {
        let l = match self.left.exec(map, io) {
            Ok(v) => v,
            Err(f) => {
                return Err(f);
            },
        };
        let rv = match self.right.exec(map, io) {
            Ok(v) => v,
            Err(f) => {
                return Err(f);
            },
        };
        if apply_bool_op(self.op, l, rv) {
            Ok(1)
        } else {
            Ok(0)
        }
    }
}

impl Expression {
    /// Evaluates this expression against the variable store and the streams.
    pub fn exec(&self, map: &mut StringHashMap<i32>, io: &mut RunIo) -> (r: Result<i32, Fault>)
        ensures
            ({
                let mfin = mach(final(map)@, *final(io));
                match spec_eval_expr(self@, mach(old(map)@, *old(io))) {
                    StepRes::Val(v, m2) => r == Ok::<i32, Fault>(v) && mfin == m2,
                    StepRes::Stop(f, m2) => r == Err::<i32, Fault>(f) && mfin == m2,
                }
            }),
    {
        match self {
            Expression::Ex(e) => e.exec(map, io),
            Expression::Bi(b) => b.exec(map, io),
            Expression::Sb(s) => s.exec(map, io),
        }
    }
}

} // verus!
