//! The mathematical model of evaluation.
//!
//! The interpreter's state is viewed as [`StateV`]: arenas of environment
//! frames, functions, classes and instances, plus the current frame index.
//! Environments form a chain through `enclosing` indices; bindings are
//! association sequences where the latest entry wins.  The spec functions
//! here define, for every statement and expression, the exact next state and
//! outcome, under a recursion budget that the executable interpreter
//! mirrors; running out of budget is itself a defined error.

use vstd::prelude::*;

use crate::error::EvaluationErrorType;
use crate::numbers::dec_digits;
use crate::parser::{ExprV, StmtV};
use crate::token::{truthy, ValueV};

verus! {

/// An evaluation error: kind and message text.
pub struct EvalErrV {
    pub tty: EvaluationErrorType,
    pub msg: Seq<char>,
}

/// The outcome of evaluating an expression (or of a pure operator).
pub enum ExprOut {
    Val(ValueV),
    Fault(EvalErrV),
}

/// The outcome of executing a statement.
pub enum StmtOut {
    Norm(Option<ValueV>),
    Ret(ValueV),
    Fault(EvalErrV),
}

/// The outcome of evaluating a list of expressions.
pub enum ListOut {
    Vals(Seq<ValueV>),
    Fault(EvalErrV),
}

/// The outcome of running a whole program.
pub enum ProgOut {
    Done(Option<ValueV>),
    Fault(EvalErrV),
}

/// One environment frame: its bindings (later entries shadow earlier ones)
/// and the index of the enclosing frame.
pub struct FrameV {
    pub vars: Seq<(Seq<char>, ValueV)>,
    pub enclosing: Option<int>,
}

/// A function value: parameters, body, captured environment frame, and
/// whether it is a class initializer.
pub struct FunV {
    pub name: Seq<char>,
    pub params: Seq<Seq<char>>,
    pub body: Seq<StmtV>,
    pub closure: int,
    pub is_initializer: bool,
}

/// A class: its name and its methods, by name (later entries win).
pub struct ClassV {
    pub name: Seq<char>,
    pub methods: Seq<(Seq<char>, FunV)>,
}

/// An instance: its class and its open field map.
pub struct InstV {
    pub class: int,
    pub fields: Seq<(Seq<char>, ValueV)>,
}

/// The whole interpreter state.
pub struct StateV {
    pub frames: Seq<FrameV>,
    pub funcs: Seq<FunV>,
    pub classes: Seq<ClassV>,
    pub insts: Seq<InstV>,
    pub cur: int,
}

/// Looks a name up in an association sequence; the latest entry wins.
pub open spec fn assoc_get<T>(s: Seq<(Seq<char>, T)>, name: Seq<char>) -> Option<T>
    decreases s.len(),
{
    if s.len() == 0 {
        None
    } else if s.last().0 == name {
        Some(s.last().1)
    } else {
        assoc_get(s.drop_last(), name)
    }
}

/// Looks a name up along the environment chain from frame `i`.
pub open spec fn lookup_in(frames: Seq<FrameV>, i: int, name: Seq<char>) -> Option<ValueV>
    decreases i,
{
    if 0 <= i < frames.len() {
        match assoc_get(frames[i].vars, name) {
            Some(v) => Some(v),
            None => match frames[i].enclosing {
                Some(j) => if 0 <= j < i {
                    lookup_in(frames, j, name)
                } else {
                    None
                },
                None => None,
            },
        }
    } else {
        None
    }
}

/// Assigns to the nearest enclosing binding of `name` from frame `i`;
/// `None` when no frame on the chain binds it.  Assignment never creates a
/// binding in a frame that lacks one.
pub open spec fn assign_in(frames: Seq<FrameV>, i: int, name: Seq<char>, v: ValueV) -> Option<
    Seq<FrameV>,
>
    decreases i,
{
    if 0 <= i < frames.len() {
        if assoc_get(frames[i].vars, name) is Some {
            Some(
                frames.update(
                    i,
                    FrameV { vars: frames[i].vars.push((name, v)), enclosing: frames[i].enclosing },
                ),
            )
        } else {
            match frames[i].enclosing {
                Some(j) => if 0 <= j < i {
                    assign_in(frames, j, name, v)
                } else {
                    None
                },
                None => None,
            }
        }
    } else {
        None
    }
}

/// Defines `name` in the current frame, shadowing any previous binding.
pub open spec fn st_define(st: StateV, name: Seq<char>, v: ValueV) -> StateV {
    StateV {
        frames: st.frames.update(
            st.cur,
            FrameV {
                vars: st.frames[st.cur].vars.push((name, v)),
                enclosing: st.frames[st.cur].enclosing,
            },
        ),
        ..st
    }
}

/// The budget-exhausted error.
pub open spec fn budget_err() -> EvalErrV {
    EvalErrV { tty: EvaluationErrorType::InvalidOperation, msg: "Evaluation budget exhausted"@ }
}

/// The undefined-variable error.
pub open spec fn undef_var_err(name: Seq<char>) -> EvalErrV {
    EvalErrV {
        tty: EvaluationErrorType::InvalidOperation,
        msg: "Undefined variable '"@ + name + "'"@,
    }
}

/// The undefined-property error.
pub open spec fn undef_prop_err(name: Seq<char>) -> EvalErrV {
    EvalErrV {
        tty: EvaluationErrorType::InvalidOperation,
        msg: "Undefined property '"@ + name + "'"@,
    }
}

/// An `InvalidTypeOperation` error.
pub open spec fn type_err(msg: Seq<char>) -> EvalErrV {
    EvalErrV { tty: EvaluationErrorType::InvalidTypeOperation, msg }
}

/// An `InvalidOperation` error.
pub open spec fn op_err(msg: Seq<char>) -> EvalErrV {
    EvalErrV { tty: EvaluationErrorType::InvalidOperation, msg }
}

/// The arity-mismatch error.
pub open spec fn arity_err(expected: nat, got: nat) -> EvalErrV {
    op_err(
        "Expected "@ + dec_digits(expected) + " arguments but got "@ + dec_digits(got),
    )
}

/// Truncated (toward zero) division of two machine integers, wrapping on
/// the one overflowing case.
pub open spec fn div_wrap(a: i64, b: i64) -> i64 {
    let x = a as int;
    let d = b as int;
    let q = if x == 0 {
        0int
    } else if x > 0 && d > 0 {
        x / d
    } else if x < 0 && d < 0 {
        (x * -1) / (d * -1)
    } else if x < 0 {
        ((x * -1) / d) * -1
    } else {
        (x / (d * -1)) * -1
    };
    if q > i64::MAX {
        i64::MIN
    } else {
        q as i64
    }
}

/// Truncated remainder of two machine integers, wrapping on the one
/// overflowing case.
pub open spec fn rem_wrap(a: i64, b: i64) -> i64 {
    if a == i64::MIN && b == -1 {
        0
    } else {
        let x = a as int;
        let d = b as int;
        let m = if x == 0 {
            0int
        } else if x > 0 && d > 0 {
            x % d
        } else if x < 0 && d < 0 {
            ((x * -1) % (d * -1)) * -1
        } else if x < 0 {
            ((x * -1) % d) * -1
        } else {
            x % (d * -1)
        };
        m as i64
    }
}

/// The unary operator table.
pub open spec fn sp_unary_op(op: crate::token::TokenType, v: ValueV) -> ExprOut {
    match op {
        crate::token::TokenType::Minus => match v {
            ValueV::Num(n) => ExprOut::Val(
                ValueV::Num(vstd::wrapping::i64_specs::wrapping_sub(0, n)),
            ),
            _ => ExprOut::Fault(type_err("Operands must be numbers"@)),
        },
        crate::token::TokenType::Not => ExprOut::Val(ValueV::Bool(!truthy(v))),
        _ => ExprOut::Fault(op_err("Unsupported unary operator"@)),
    }
}

/// The `+` operator: numbers add (wrapping), strings and arrays
/// concatenate; anything else is a type error.
pub open spec fn sp_add_values(a: ValueV, b: ValueV) -> ExprOut {
    match (a, b) {
        (ValueV::Num(x), ValueV::Num(y)) => ExprOut::Val(
            ValueV::Num(vstd::wrapping::i64_specs::wrapping_add(x, y)),
        ),
        (ValueV::Str(x), ValueV::Str(y)) => ExprOut::Val(ValueV::Str(x + y)),
        (ValueV::Arr(x), ValueV::Arr(y)) => ExprOut::Val(ValueV::Arr(x + y)),
        _ => ExprOut::Fault(type_err("Operands must be two numbers, two strings, or two arrays"@)),
    }
}

/// Arithmetic on two numbers, or the numbers-only type error.
pub open spec fn sp_numeric(a: ValueV, b: ValueV, r: i64) -> ExprOut {
    match (a, b) {
        (ValueV::Num(x), ValueV::Num(y)) => ExprOut::Val(ValueV::Num(r)),
        _ => ExprOut::Fault(type_err("Operands must be numbers"@)),
    }
}

/// Comparison of two numbers, or the numbers-only type error.
pub open spec fn sp_compare(a: ValueV, b: ValueV, r: bool) -> ExprOut {
    match (a, b) {
        (ValueV::Num(x), ValueV::Num(y)) => ExprOut::Val(ValueV::Bool(r)),
        _ => ExprOut::Fault(type_err("Operands must be numbers"@)),
    }
}

/// The binary operator table.  Division and modulo first test the right
/// operand against zero; equality is structural on data and
/// handle-identity on functions, classes and instances.
pub open spec fn sp_binary_op(op: crate::token::TokenType, a: ValueV, b: ValueV) -> ExprOut {
    match op {
        crate::token::TokenType::Plus => sp_add_values(a, b),
        crate::token::TokenType::Minus => match (a, b) {
            (ValueV::Num(x), ValueV::Num(y)) => sp_numeric(
                a,
                b,
                vstd::wrapping::i64_specs::wrapping_sub(x, y),
            ),
            _ => ExprOut::Fault(type_err("Operands must be numbers"@)),
        },
        crate::token::TokenType::Star => match (a, b) {
            (ValueV::Num(x), ValueV::Num(y)) => sp_numeric(
                a,
                b,
                vstd::wrapping::i64_specs::wrapping_mul(x, y),
            ),
            _ => ExprOut::Fault(type_err("Operands must be numbers"@)),
        },
        crate::token::TokenType::Slash => {
            if b == ValueV::Num(0) {
                ExprOut::Fault(
                    EvalErrV { tty: EvaluationErrorType::DivideByZero, msg: "Divide by zero"@ },
                )
            } else {
                match (a, b) {
                    (ValueV::Num(x), ValueV::Num(y)) => sp_numeric(a, b, div_wrap(x, y)),
                    _ => ExprOut::Fault(type_err("Operands must be numbers"@)),
                }
            }
        },
        crate::token::TokenType::Modulo => {
            if b == ValueV::Num(0) {
                ExprOut::Fault(
                    EvalErrV { tty: EvaluationErrorType::DivideByZero, msg: "Divide by zero"@ },
                )
            } else {
                match (a, b) {
                    (ValueV::Num(x), ValueV::Num(y)) => sp_numeric(a, b, rem_wrap(x, y)),
                    _ => ExprOut::Fault(type_err("Operands must be numbers"@)),
                }
            }
        },
        crate::token::TokenType::Greater => match (a, b) {
            (ValueV::Num(x), ValueV::Num(y)) => sp_compare(a, b, x > y),
            _ => ExprOut::Fault(type_err("Operands must be numbers"@)),
        },
        crate::token::TokenType::GreaterEqual => match (a, b) {
            (ValueV::Num(x), ValueV::Num(y)) => sp_compare(a, b, x >= y),
            _ => ExprOut::Fault(type_err("Operands must be numbers"@)),
        },
        crate::token::TokenType::Less => match (a, b) {
            (ValueV::Num(x), ValueV::Num(y)) => sp_compare(a, b, x < y),
            _ => ExprOut::Fault(type_err("Operands must be numbers"@)),
        },
        crate::token::TokenType::LessEqual => match (a, b) {
            (ValueV::Num(x), ValueV::Num(y)) => sp_compare(a, b, x <= y),
            _ => ExprOut::Fault(type_err("Operands must be numbers"@)),
        },
        crate::token::TokenType::EqualEqual => ExprOut::Val(ValueV::Bool(a == b)),
        crate::token::TokenType::NotEqual => ExprOut::Val(ValueV::Bool(a != b)),
        _ => ExprOut::Fault(op_err("Unsupported binary operator"@)),
    }
}

/// The parameter bindings of a call, in order.
pub open spec fn params_pairs(params: Seq<Seq<char>>, args: Seq<ValueV>) -> Seq<
    (Seq<char>, ValueV),
> {
    Seq::new(params.len(), |i: int| (params[i], args[i]))
}

/// The method table of a class body: each `fun` statement becomes a method
/// closing over frame `cur`; a method named `init` is an initializer.
pub open spec fn sp_methods(methods: Seq<StmtV>, cur: int) -> Seq<(Seq<char>, FunV)>
    decreases methods.len(),
{
    if methods.len() == 0 {
        Seq::empty()
    } else {
        let rest = sp_methods(methods.drop_last(), cur);
        match methods.last() {
            StmtV::Function { name, params, body } => rest.push(
                (
                    name,
                    FunV {
                        name,
                        params,
                        body,
                        closure: cur,
                        is_initializer: name == "init"@,
                    },
                ),
            ),
            _ => rest,
        }
    }
}

/// Reading a name off an instance: fields first, then a bound copy of a
/// class method whose closure gains a frame defining `this`.
pub open spec fn sp_inst_get(st: StateV, ii: int, name: Seq<char>) -> (StateV, ExprOut) {
    let inst = st.insts[ii];
    match assoc_get(inst.fields, name) {
        Some(v) => (st, ExprOut::Val(v)),
        None => {
            if 0 <= inst.class < st.classes.len() {
                match assoc_get(st.classes[inst.class].methods, name) {
                    Some(m) => {
                        let bframe = FrameV {
                            vars: seq![("this"@, ValueV::Inst(ii))],
                            enclosing: Some(m.closure),
                        };
                        let bound = FunV {
                            name: m.name,
                            params: m.params,
                            body: m.body,
                            closure: st.frames.len() as int,
                            is_initializer: m.is_initializer,
                        };
                        (
                            StateV {
                                frames: st.frames.push(bframe),
                                funcs: st.funcs.push(bound),
                                ..st
                            },
                            ExprOut::Val(ValueV::Fun(st.funcs.len() as int)),
                        )
                    },
                    None => (st, ExprOut::Fault(undef_prop_err(name))),
                }
            } else {
                (st, ExprOut::Fault(undef_prop_err(name)))
            }
        },
    }
}

/// The model of expression evaluation.
pub open spec fn sp_eval(st: StateV, e: ExprV, fuel: nat) -> (StateV, ExprOut)
    decreases fuel, 2int,
{
    if fuel == 0 {
        (st, ExprOut::Fault(budget_err()))
    } else {
        match e {
            ExprV::Literal(v) => (st, ExprOut::Val(v)),
            ExprV::Grouping(inner) => sp_eval(st, *inner, (fuel - 1) as nat),
            ExprV::Variable(name) => sp_lookup(st, name),
            ExprV::This => sp_lookup(st, "this"@),
            ExprV::Unary { operator, right } => sp_eval_unary(
                st,
                operator,
                *right,
                (fuel - 1) as nat,
            ),
            ExprV::Binary { left, operator, right } => sp_eval_binary(
                st,
                *left,
                operator,
                *right,
                (fuel - 1) as nat,
            ),
            ExprV::Logical { left, operator, right } => sp_eval_logical(
                st,
                *left,
                operator,
                *right,
                (fuel - 1) as nat,
            ),
            ExprV::Assign { name, value } => sp_eval_assign(st, name, *value, (fuel - 1) as nat),
            ExprV::Array(items) => sp_eval_array(st, items, (fuel - 1) as nat),
            ExprV::Index { array, index } => sp_eval_index(
                st,
                *array,
                *index,
                (fuel - 1) as nat,
            ),
            ExprV::Call { callee, paren: _, arguments } => sp_eval_call(
                st,
                *callee,
                arguments,
                (fuel - 1) as nat,
            ),
            ExprV::Get { object, name } => sp_eval_get(st, *object, name, (fuel - 1) as nat),
            ExprV::SetProp { object, name, value } => sp_eval_set(
                st,
                *object,
                name,
                *value,
                (fuel - 1) as nat,
            ),
        }
    }
}

/// Variable reference: the nearest binding along the chain.
pub open spec fn sp_lookup(st: StateV, name: Seq<char>) -> (StateV, ExprOut) {
    match lookup_in(st.frames, st.cur, name) {
        Some(v) => (st, ExprOut::Val(v)),
        None => (st, ExprOut::Fault(undef_var_err(name))),
    }
}

/// Unary expression.
pub open spec fn sp_eval_unary(st: StateV, op: crate::token::TokenType, r: ExprV, fuel: nat) -> (
    StateV,
    ExprOut,
)
    decreases fuel, 3int,
{
    let (st1, o) = sp_eval(st, r, fuel);
    match o {
        ExprOut::Fault(e) => (st1, ExprOut::Fault(e)),
        ExprOut::Val(v) => (st1, sp_unary_op(op, v)),
    }
}

/// Binary expression: left, then right, then the operator table.
pub open spec fn sp_eval_binary(
    st: StateV,
    l: ExprV,
    op: crate::token::TokenType,
    r: ExprV,
    fuel: nat,
) -> (StateV, ExprOut)
    decreases fuel, 3int,
{
    let (st1, lo) = sp_eval(st, l, fuel);
    match lo {
        ExprOut::Fault(e) => (st1, ExprOut::Fault(e)),
        ExprOut::Val(lv) => {
            let (st2, ro) = sp_eval(st1, r, fuel);
            match ro {
                ExprOut::Fault(e) => (st2, ExprOut::Fault(e)),
                ExprOut::Val(rv) => (st2, sp_binary_op(op, lv, rv)),
            }
        },
    }
}

/// Short-circuit `and` / `or`: the right operand is evaluated only when
/// the left does not decide the result.
pub open spec fn sp_eval_logical(
    st: StateV,
    l: ExprV,
    op: crate::token::TokenType,
    r: ExprV,
    fuel: nat,
) -> (StateV, ExprOut)
    decreases fuel, 3int,
{
    let (st1, lo) = sp_eval(st, l, fuel);
    match lo {
        ExprOut::Fault(e) => (st1, ExprOut::Fault(e)),
        ExprOut::Val(lv) => {
            if op == crate::token::TokenType::Or {
                if truthy(lv) {
                    (st1, ExprOut::Val(lv))
                } else {
                    sp_eval(st1, r, fuel)
                }
            } else {
                if !truthy(lv) {
                    (st1, ExprOut::Val(lv))
                } else {
                    sp_eval(st1, r, fuel)
                }
            }
        },
    }
}

/// Assignment: evaluate the right side, then update the nearest enclosing
/// binding; the value is the assignment's value.
pub open spec fn sp_eval_assign(st: StateV, name: Seq<char>, value: ExprV, fuel: nat) -> (
    StateV,
    ExprOut,
)
    decreases fuel, 3int,
{
    let (st1, o) = sp_eval(st, value, fuel);
    match o {
        ExprOut::Fault(e) => (st1, ExprOut::Fault(e)),
        ExprOut::Val(v) => match assign_in(st1.frames, st1.cur, name, v) {
            Some(frames) => (StateV { frames, ..st1 }, ExprOut::Val(v)),
            None => (st1, ExprOut::Fault(undef_var_err(name))),
        },
    }
}

/// Array literal: elements evaluate left to right.
pub open spec fn sp_eval_array(st: StateV, items: Seq<ExprV>, fuel: nat) -> (StateV, ExprOut)
    decreases fuel, 3int,
{
    let (st1, o) = sp_eval_list(st, items, fuel);
    match o {
        ListOut::Fault(e) => (st1, ExprOut::Fault(e)),
        ListOut::Vals(vs) => (st1, ExprOut::Val(ValueV::Arr(vs))),
    }
}

/// A list of expressions, left to right.
pub open spec fn sp_eval_list(st: StateV, es: Seq<ExprV>, fuel: nat) -> (StateV, ListOut)
    decreases fuel, 2int,
{
    if fuel == 0 {
        (st, ListOut::Fault(budget_err()))
    } else if es.len() == 0 {
        (st, ListOut::Vals(Seq::empty()))
    } else {
        let (st1, o) = sp_eval(st, es[0], (fuel - 1) as nat);
        match o {
            ExprOut::Fault(e) => (st1, ListOut::Fault(e)),
            ExprOut::Val(v) => {
                let (st2, rest) = sp_eval_list(st1, es.drop_first(), (fuel - 1) as nat);
                match rest {
                    ListOut::Fault(e) => (st2, ListOut::Fault(e)),
                    ListOut::Vals(vs) => (st2, ListOut::Vals(seq![v] + vs)),
                }
            },
        }
    }
}

/// Subscript read: the index must be a nonnegative number, the target an
/// array, and the index in range.
pub open spec fn sp_eval_index(st: StateV, a: ExprV, i: ExprV, fuel: nat) -> (StateV, ExprOut)
    decreases fuel, 3int,
{
    let (st1, ao) = sp_eval(st, a, fuel);
    match ao {
        ExprOut::Fault(e) => (st1, ExprOut::Fault(e)),
        ExprOut::Val(av) => {
            let (st2, io) = sp_eval(st1, i, fuel);
            match io {
                ExprOut::Fault(e) => (st2, ExprOut::Fault(e)),
                ExprOut::Val(iv) => match iv {
                    ValueV::Num(n) => if n >= 0 {
                        match av {
                            ValueV::Arr(items) => if n < items.len() {
                                (st2, ExprOut::Val(items[n as int]))
                            } else {
                                (
                                    st2,
                                    ExprOut::Fault(
                                        op_err(
                                            "Index "@ + dec_digits(n as nat)
                                                + " out of bounds"@,
                                        ),
                                    ),
                                )
                            },
                            _ => (st2, ExprOut::Fault(type_err("Can only index arrays"@))),
                        }
                    } else {
                        (
                            st2,
                            ExprOut::Fault(
                                type_err("Array index must be a non-negative number"@),
                            ),
                        )
                    },
                    _ => (
                        st2,
                        ExprOut::Fault(type_err("Array index must be a non-negative number"@)),
                    ),
                },
            }
        },
    }
}

/// Invocation: callee, then arguments left to right, then the call.
pub open spec fn sp_eval_call(st: StateV, callee: ExprV, args: Seq<ExprV>, fuel: nat) -> (
    StateV,
    ExprOut,
)
    decreases fuel, 3int,
{
    let (st1, co) = sp_eval(st, callee, fuel);
    match co {
        ExprOut::Fault(e) => (st1, ExprOut::Fault(e)),
        ExprOut::Val(cv) => {
            let (st2, ao) = sp_eval_list(st1, args, fuel);
            match ao {
                ListOut::Fault(e) => (st2, ExprOut::Fault(e)),
                ListOut::Vals(vs) => sp_call_value(st2, cv, vs, fuel),
            }
        },
    }
}

/// Property read.
pub open spec fn sp_eval_get(st: StateV, obj: ExprV, name: Seq<char>, fuel: nat) -> (
    StateV,
    ExprOut,
)
    decreases fuel, 3int,
{
    let (st1, oo) = sp_eval(st, obj, fuel);
    match oo {
        ExprOut::Fault(e) => (st1, ExprOut::Fault(e)),
        ExprOut::Val(ov) => match ov {
            ValueV::Inst(ii) => if 0 <= ii < st1.insts.len() {
                sp_inst_get(st1, ii, name)
            } else {
                (st1, ExprOut::Fault(undef_prop_err(name)))
            },
            _ => (st1, ExprOut::Fault(type_err("Only instances have properties"@))),
        },
    }
}

/// Property write: always writes a field; classes are open.
pub open spec fn sp_eval_set(st: StateV, obj: ExprV, name: Seq<char>, value: ExprV, fuel: nat) -> (
    StateV,
    ExprOut,
)
    decreases fuel, 3int,
{
    let (st1, oo) = sp_eval(st, obj, fuel);
    match oo {
        ExprOut::Fault(e) => (st1, ExprOut::Fault(e)),
        ExprOut::Val(ov) => {
            let (st2, vo) = sp_eval(st1, value, fuel);
            match vo {
                ExprOut::Fault(e) => (st2, ExprOut::Fault(e)),
                ExprOut::Val(v) => match ov {
                    ValueV::Inst(ii) => if 0 <= ii < st2.insts.len() {
                        let inst = st2.insts[ii];
                        (
                            StateV {
                                insts: st2.insts.update(
                                    ii,
                                    InstV { class: inst.class, fields: inst.fields.push((name, v)) },
                                ),
                                ..st2
                            },
                            ExprOut::Val(v),
                        )
                    } else {
                        (st2, ExprOut::Fault(type_err("Only instances have fields"@)))
                    },
                    _ => (st2, ExprOut::Fault(type_err("Only instances have fields"@))),
                },
            }
        },
    }
}

/// Calling a value: functions and classes are callable; anything else is
/// an error.  Calling a class creates an instance and runs `init` when the
/// class has one (the constructor's result is always the instance).
pub open spec fn sp_call_value(st: StateV, cv: ValueV, args: Seq<ValueV>, fuel: nat) -> (
    StateV,
    ExprOut,
)
    decreases fuel, 2int,
{
    if fuel == 0 {
        (st, ExprOut::Fault(budget_err()))
    } else {
        match cv {
            ValueV::Fun(fi) => if 0 <= fi < st.funcs.len() {
                sp_call_function(st, st.funcs[fi], args, (fuel - 1) as nat)
            } else {
                (st, ExprOut::Fault(op_err("Can only call functions and classes"@)))
            },
            ValueV::Class(ci) => if 0 <= ci < st.classes.len() {
                let ii = st.insts.len() as int;
                let st1 = StateV {
                    insts: st.insts.push(InstV { class: ci, fields: Seq::empty() }),
                    ..st
                };
                match assoc_get(st.classes[ci].methods, "init"@) {
                    Some(m) => {
                        let bframe = FrameV {
                            vars: seq![("this"@, ValueV::Inst(ii))],
                            enclosing: Some(m.closure),
                        };
                        let bound = FunV {
                            name: m.name,
                            params: m.params,
                            body: m.body,
                            closure: st1.frames.len() as int,
                            is_initializer: m.is_initializer,
                        };
                        let st2 = StateV {
                            frames: st1.frames.push(bframe),
                            funcs: st1.funcs.push(bound),
                            ..st1
                        };
                        let (st3, o) = sp_call_function(st2, bound, args, (fuel - 1) as nat);
                        match o {
                            ExprOut::Fault(e) => (st3, ExprOut::Fault(e)),
                            ExprOut::Val(_) => (st3, ExprOut::Val(ValueV::Inst(ii))),
                        }
                    },
                    None => (st1, ExprOut::Val(ValueV::Inst(ii))),
                }
            } else {
                (st, ExprOut::Fault(op_err("Can only call functions and classes"@)))
            },
            _ => (st, ExprOut::Fault(op_err("Can only call functions and classes"@))),
        }
    }
}

/// Calling a function: arity must match; parameters bind in a fresh frame
/// enclosing the closure; the body runs there; the current frame is
/// restored on every outcome.  An initializer returns `this` regardless of
/// the body's result.
pub open spec fn sp_call_function(st: StateV, f: FunV, args: Seq<ValueV>, fuel: nat) -> (
    StateV,
    ExprOut,
)
    decreases fuel, 1int,
{
    if fuel == 0 {
        (st, ExprOut::Fault(budget_err()))
    } else if args.len() != f.params.len() {
        (st, ExprOut::Fault(arity_err(f.params.len(), args.len())))
    } else {
        let frame = FrameV { vars: params_pairs(f.params, args), enclosing: Some(f.closure) };
        let st1 = StateV {
            frames: st.frames.push(frame),
            cur: st.frames.len() as int,
            ..st
        };
        let (st2, o) = sp_call_body(st1, f.body, (fuel - 1) as nat, ValueV::Null);
        let st3 = StateV { cur: st.cur, ..st2 };
        match o {
            ExprOut::Fault(e) => (st3, ExprOut::Fault(e)),
            ExprOut::Val(candidate) => {
                if f.is_initializer {
                    match lookup_in(st3.frames, f.closure, "this"@) {
                        Some(t) => (st3, ExprOut::Val(t)),
                        None => (st3, ExprOut::Val(ValueV::Null)),
                    }
                } else {
                    (st3, ExprOut::Val(candidate))
                }
            },
        }
    }
}

/// A function body: statements run in order; a `return` ends the call with
/// its value; otherwise the result is the last expression statement's
/// value, or null.
pub open spec fn sp_call_body(st: StateV, ss: Seq<StmtV>, fuel: nat, result: ValueV) -> (
    StateV,
    ExprOut,
)
    decreases fuel, 2int,
{
    if fuel == 0 {
        (st, ExprOut::Fault(budget_err()))
    } else if ss.len() == 0 {
        (st, ExprOut::Val(result))
    } else {
        let (st1, o) = sp_exec(st, ss[0], (fuel - 1) as nat);
        match o {
            StmtOut::Fault(e) => (st1, ExprOut::Fault(e)),
            StmtOut::Ret(v) => (st1, ExprOut::Val(v)),
            StmtOut::Norm(v) => sp_call_body(
                st1,
                ss.drop_first(),
                (fuel - 1) as nat,
                match v {
                    Some(x) => x,
                    None => result,
                },
            ),
        }
    }
}

/// The model of statement execution.
pub open spec fn sp_exec(st: StateV, s: StmtV, fuel: nat) -> (StateV, StmtOut)
    decreases fuel, 3int,
{
    if fuel == 0 {
        (st, StmtOut::Fault(budget_err()))
    } else {
        match s {
            StmtV::Expression(e) => {
                let (st1, o) = sp_eval(st, e, (fuel - 1) as nat);
                match o {
                    ExprOut::Fault(err) => (st1, StmtOut::Fault(err)),
                    ExprOut::Val(v) => (st1, StmtOut::Norm(Some(v))),
                }
            },
            StmtV::Var { name, initializer } => sp_exec_var(
                st,
                name,
                initializer,
                (fuel - 1) as nat,
            ),
            StmtV::Block(stmts) => sp_exec_block(
                st,
                FrameV { vars: Seq::empty(), enclosing: Some(st.cur) },
                stmts,
                (fuel - 1) as nat,
            ),
            StmtV::If { condition, then_branch, else_branch } => sp_exec_if(
                st,
                condition,
                *then_branch,
                else_branch,
                (fuel - 1) as nat,
            ),
            StmtV::While { condition, body } => sp_while(
                st,
                condition,
                *body,
                (fuel - 1) as nat,
                None,
            ),
            StmtV::Function { name, params, body } => {
                let f = FunV {
                    name,
                    params,
                    body,
                    closure: st.cur,
                    is_initializer: false,
                };
                let st1 = StateV { funcs: st.funcs.push(f), ..st };
                (
                    st_define(st1, name, ValueV::Fun(st.funcs.len() as int)),
                    StmtOut::Norm(None),
                )
            },
            StmtV::Return(e) => sp_exec_return(st, e, (fuel - 1) as nat),
            StmtV::Class { name, methods } => {
                let st1 = st_define(st, name, ValueV::Null);
                let c = ClassV { name, methods: sp_methods(methods, st1.cur) };
                let ci = st1.classes.len() as int;
                let st2 = StateV { classes: st1.classes.push(c), ..st1 };
                match assign_in(st2.frames, st2.cur, name, ValueV::Class(ci)) {
                    Some(frames) => (StateV { frames, ..st2 }, StmtOut::Norm(None)),
                    None => (st2, StmtOut::Fault(undef_var_err(name))),
                }
            },
        }
    }
}

/// Variable declaration: evaluate the initializer (null when absent) and
/// define the name in the current frame.
pub open spec fn sp_exec_var(st: StateV, name: Seq<char>, init: Option<ExprV>, fuel: nat) -> (
    StateV,
    StmtOut,
)
    decreases fuel, 4int,
{
    match init {
        Some(e) => {
            let (st1, o) = sp_eval(st, e, fuel);
            match o {
                ExprOut::Fault(err) => (st1, StmtOut::Fault(err)),
                ExprOut::Val(v) => (st_define(st1, name, v), StmtOut::Norm(None)),
            }
        },
        None => (st_define(st, name, ValueV::Null), StmtOut::Norm(None)),
    }
}

/// Block: a fresh frame is installed, the statements run, and the saved
/// frame is restored on every exit path.
pub open spec fn sp_exec_block(st: StateV, frame: FrameV, ss: Seq<StmtV>, fuel: nat) -> (
    StateV,
    StmtOut,
)
    decreases fuel, 4int,
{
    let st1 = StateV { frames: st.frames.push(frame), cur: st.frames.len() as int, ..st };
    let (st2, o) = sp_block_body(st1, ss, fuel, None);
    (StateV { cur: st.cur, ..st2 }, o)
}

/// The statements of a block, tracking the last statement value.
pub open spec fn sp_block_body(st: StateV, ss: Seq<StmtV>, fuel: nat, last: Option<ValueV>) -> (
    StateV,
    StmtOut,
)
    decreases fuel, 3int,
{
    if fuel == 0 {
        (st, StmtOut::Fault(budget_err()))
    } else if ss.len() == 0 {
        (st, StmtOut::Norm(last))
    } else {
        let (st1, o) = sp_exec(st, ss[0], (fuel - 1) as nat);
        match o {
            StmtOut::Fault(e) => (st1, StmtOut::Fault(e)),
            StmtOut::Ret(v) => (st1, StmtOut::Ret(v)),
            StmtOut::Norm(v) => sp_block_body(st1, ss.drop_first(), (fuel - 1) as nat, v),
        }
    }
}

/// Conditional: dispatch on the truthiness of the condition.
pub open spec fn sp_exec_if(
    st: StateV,
    cond: ExprV,
    then_b: StmtV,
    else_b: Option<Box<StmtV>>,
    fuel: nat,
) -> (StateV, StmtOut)
    decreases fuel, 4int,
{
    if fuel == 0 {
        (st, StmtOut::Fault(budget_err()))
    } else {
        let (st1, o) = sp_eval(st, cond, (fuel - 1) as nat);
        match o {
            ExprOut::Fault(e) => (st1, StmtOut::Fault(e)),
            ExprOut::Val(v) => {
                if truthy(v) {
                    sp_exec(st1, then_b, (fuel - 1) as nat)
                } else {
                    match else_b {
                        Some(b) => sp_exec(st1, *b, (fuel - 1) as nat),
                        None => (st1, StmtOut::Norm(None)),
                    }
                }
            },
        }
    }
}

/// Loop: the condition re-evaluates each iteration; a `return` in the body
/// propagates immediately; the loop's value is the last body value.
pub open spec fn sp_while(st: StateV, cond: ExprV, body: StmtV, fuel: nat, last: Option<ValueV>) -> (
    StateV,
    StmtOut,
)
    decreases fuel, 4int,
{
    if fuel == 0 {
        (st, StmtOut::Fault(budget_err()))
    } else {
        let (st1, o) = sp_eval(st, cond, (fuel - 1) as nat);
        match o {
            ExprOut::Fault(e) => (st1, StmtOut::Fault(e)),
            ExprOut::Val(cv) => {
                if !truthy(cv) {
                    (st1, StmtOut::Norm(last))
                } else {
                    let (st2, bo) = sp_exec(st1, body, (fuel - 1) as nat);
                    match bo {
                        StmtOut::Fault(e) => (st2, StmtOut::Fault(e)),
                        StmtOut::Ret(v) => (st2, StmtOut::Ret(v)),
                        StmtOut::Norm(v) => sp_while(st2, cond, body, (fuel - 1) as nat, v),
                    }
                }
            },
        }
    }
}

/// Return: evaluate the value (null when absent) and unwind to the call.
pub open spec fn sp_exec_return(st: StateV, e: Option<ExprV>, fuel: nat) -> (StateV, StmtOut)
    decreases fuel, 4int,
{
    match e {
        Some(expr) => {
            let (st1, o) = sp_eval(st, expr, fuel);
            match o {
                ExprOut::Fault(err) => (st1, StmtOut::Fault(err)),
                ExprOut::Val(v) => (st1, StmtOut::Ret(v)),
            }
        },
        None => (st, StmtOut::Ret(ValueV::Null)),
    }
}

/// The model of a whole program run: statements in order; a top-level
/// `return` ends the program with its value; otherwise the result is the
/// last statement's value.
pub open spec fn sp_interpret(st: StateV, ss: Seq<StmtV>, fuel: nat, last: Option<ValueV>) -> (
    StateV,
    ProgOut,
)
    decreases fuel,
{
    if fuel == 0 {
        (st, ProgOut::Fault(budget_err()))
    } else if ss.len() == 0 {
        (st, ProgOut::Done(last))
    } else {
        let (st1, o) = sp_exec(st, ss[0], (fuel - 1) as nat);
        match o {
            StmtOut::Fault(e) => (st1, ProgOut::Fault(e)),
            StmtOut::Ret(v) => (st1, ProgOut::Done(Some(v))),
            StmtOut::Norm(v) => sp_interpret(st1, ss.drop_first(), (fuel - 1) as nat, v),
        }
    }
}

} // verus!
