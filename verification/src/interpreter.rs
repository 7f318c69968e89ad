//! The tree-walking interpreter, proved against the model in `semantics`.
//!
//! Environments, functions, classes and instances live in arenas owned by
//! the [`Interpreter`]; values refer to them by index, which turns the
//! cyclic ownership of closures and bound methods into plain indices (the
//! state view is exactly [`StateV`]).  Every executable step is proved to
//! produce the state and outcome that the spec evaluator defines, under the
//! same recursion budget.

use vstd::prelude::*;
use vstd::string::StringExecFns;

use crate::error::{EvaluationError, EvaluationErrorType, VeonError};
use crate::numbers::{dec_digits, dec_u64, dec_usize};
use crate::parser::{clone_stmts, clone_strings, ExprV, StmtV, exprs_view, expr_view, lemma_exprs_view, lemma_stmts_view, opt_box_stmt_view, opt_expr_view, stmts_view, stmt_view, strs_view, Expr, Stmt};
use crate::semantics::{assoc_get, sp_block_body, sp_eval_array, assign_in, lookup_in, arity_err, budget_err, op_err, type_err, undef_prop_err, undef_var_err, st_define, sp_add_values, sp_binary_op, sp_call_body, sp_call_function, sp_call_value, sp_eval, sp_eval_assign, sp_eval_binary, sp_eval_call, sp_eval_get, sp_eval_index, sp_eval_list, sp_eval_logical, sp_eval_set, sp_eval_unary, sp_exec, sp_exec_block, sp_exec_if, sp_exec_return, sp_exec_var, sp_inst_get, sp_interpret, sp_methods, sp_while, params_pairs, ClassV, EvalErrV, ExprOut, FrameV, FunV, InstV, ListOut, ProgOut, StateV, StmtOut};
use crate::token::{clone_value, str_eq, truthy, value_eq, value_view, values_view, Value, ValueV};
use crate::token::{lemma_values_view, TokenType};

verus! {

broadcast use vstd::seq::group_seq_axioms, vstd::std_specs::vec::group_vec_axioms;

/// The recursion budget of one program run.
pub const EVAL_BUDGET: u64 = 0xFFFF_FFFF_FFFF_FFFF;

/// View of one binding list.
pub open spec fn pairs_view(s: Seq<(String, Value)>) -> Seq<(Seq<char>, ValueV)> {
    Seq::new(s.len(), |i: int| (s[i].0@, value_view(s[i].1)))
}

/// One environment frame: bindings and the enclosing frame index.
pub struct Environment {
    pub values: Vec<(String, Value)>,
    pub enclosing: Option<usize>,
}

/// View of a frame.
pub open spec fn frame_view(e: Environment) -> FrameV {
    FrameV {
        vars: pairs_view(e.values@),
        enclosing: match e.enclosing {
            Some(j) => Some(j as int),
            None => None,
        },
    }
}

/// View of the frame arena.
pub open spec fn envs_view(s: Seq<Environment>) -> Seq<FrameV> {
    Seq::new(s.len(), |i: int| frame_view(s[i]))
}

/// A function value: parameters, body, captured frame index, and the
/// initializer flag.
pub struct VeonFunction {
    pub name: String,
    pub params: Vec<String>,
    pub body: Vec<Stmt>,
    pub closure: usize,
    pub is_initializer: bool,
}

/// View of a function.
pub open spec fn fun_view(f: VeonFunction) -> FunV {
    FunV {
        name: f.name@,
        params: strs_view(f.params@),
        body: stmts_view(f.body@),
        closure: f.closure as int,
        is_initializer: f.is_initializer,
    }
}

/// View of the function arena.
pub open spec fn funs_view(s: Seq<VeonFunction>) -> Seq<FunV> {
    Seq::new(s.len(), |i: int| fun_view(s[i]))
}

/// View of a method table.
pub open spec fn methods_view(s: Seq<(String, VeonFunction)>) -> Seq<(Seq<char>, FunV)> {
    Seq::new(s.len(), |i: int| (s[i].0@, fun_view(s[i].1)))
}

/// A class: its name and methods.
pub struct VeonClass {
    pub name: String,
    pub methods: Vec<(String, VeonFunction)>,
}

/// View of a class.
pub open spec fn class_view(c: VeonClass) -> ClassV {
    ClassV { name: c.name@, methods: methods_view(c.methods@) }
}

/// View of the class arena.
pub open spec fn classes_view(s: Seq<VeonClass>) -> Seq<ClassV> {
    Seq::new(s.len(), |i: int| class_view(s[i]))
}

/// An instance: its class index and its open fields.
pub struct VeonInstance {
    pub class: usize,
    pub fields: Vec<(String, Value)>,
}

/// View of an instance.
pub open spec fn inst_view(i: VeonInstance) -> InstV {
    InstV { class: i.class as int, fields: pairs_view(i.fields@) }
}

/// View of the instance arena.
pub open spec fn insts_view(s: Seq<VeonInstance>) -> Seq<InstV> {
    Seq::new(s.len(), |i: int| inst_view(s[i]))
}

/// Whether `e` is the evaluation error `ev`.
pub open spec fn eval_err_is(e: VeonError, ev: EvalErrV) -> bool {
    &&& e matches VeonError::EvaluationError(ee)
    &&& e matches VeonError::EvaluationError(ee) ==> ee.tty == ev.tty && ee.msg@ == ev.msg
}

/// The view of an optional value.
pub open spec fn opt_value_view(o: Option<Value>) -> Option<ValueV> {
    match o {
        Some(v) => Some(value_view(v)),
        None => None,
    }
}

/// The two-channel result of a statement: ordinary completion with an
/// optional value, or an early `return` carrying its value.
pub enum Control {
    Value(Option<Value>),
    Return(Value),
}

/// How an expression step relates to the model's.
pub open spec fn eval_rel(sp: (StateV, ExprOut), r: Result<Value, VeonError>, post: StateV) -> bool {
    &&& post == sp.0
    &&& (match (r, sp.1) {
        (Ok(v), ExprOut::Val(vv)) => value_view(v) == vv,
        (Err(e), ExprOut::Fault(ev)) => eval_err_is(e, ev),
        _ => false,
    })
}

/// How a pure operator result relates to the model's.
pub open spec fn pure_rel(sp: ExprOut, r: Result<Value, VeonError>) -> bool {
    match (r, sp) {
        (Ok(v), ExprOut::Val(vv)) => value_view(v) == vv,
        (Err(e), ExprOut::Fault(ev)) => eval_err_is(e, ev),
        _ => false,
    }
}

/// How a statement step relates to the model's.
pub open spec fn stmt_rel(sp: (StateV, StmtOut), r: Result<Control, VeonError>, post: StateV) -> bool {
    &&& post == sp.0
    &&& (match (r, sp.1) {
        (Ok(Control::Value(x)), StmtOut::Norm(ov)) => opt_value_view(x) == ov,
        (Ok(Control::Return(v)), StmtOut::Ret(vv)) => value_view(v) == vv,
        (Err(e), StmtOut::Fault(ev)) => eval_err_is(e, ev),
        _ => false,
    })
}

/// How an argument-list step relates to the model's.
pub open spec fn list_rel(
    sp: (StateV, ListOut),
    r: Result<Vec<Value>, VeonError>,
    post: StateV,
) -> bool {
    &&& post == sp.0
    &&& (match (r, sp.1) {
        (Ok(vs), ListOut::Vals(vv)) => values_view(vs@) == vv,
        (Err(e), ListOut::Fault(ev)) => eval_err_is(e, ev),
        _ => false,
    })
}

/// How a whole run relates to the model's.
pub open spec fn prog_rel(
    sp: (StateV, ProgOut),
    r: Result<Option<Value>, VeonError>,
    post: StateV,
) -> bool {
    &&& post == sp.0
    &&& (match (r, sp.1) {
        (Ok(x), ProgOut::Done(ov)) => opt_value_view(x) == ov,
        (Err(e), ProgOut::Fault(ev)) => eval_err_is(e, ev),
        _ => false,
    })
}

/// Looks a name up in a binding list; the latest entry wins.
#[verifier::loop_isolation(false)]
pub fn list_get(values: &Vec<(String, Value)>, name: &str) -> (r: Option<Value>)
    ensures
        (match r {
            Some(v) => assoc_get(pairs_view(values@), name@) == Some(value_view(v)),
            None => assoc_get(pairs_view(values@), name@) is None,
        }),
{
    let ghost s = pairs_view(values@);
    proof {
        assert(s.take(values@.len() as int) =~= s);
    }
    let mut j: usize = values.len();
    while j > 0
        invariant
            j <= values@.len(),
            assoc_get(s, name@) == assoc_get(s.take(j as int), name@),
        decreases j,
    {
        if str_eq(values[j - 1].0.as_str(), name) {
            let v = clone_value(&values[j - 1].1);
            proof {
                assert(s.take(j as int).last() == (values@[j - 1].0@, value_view(values@[j - 1].1)));
            }
            return Some(v);
        }
        proof {
            assert(s.take(j as int).drop_last() =~= s.take(j - 1));
        }
        j = j - 1;
    }
    proof {
        assert(s.take(0) =~= Seq::<(Seq<char>, ValueV)>::empty());
    }
    None
}

impl Environment {
    /// A fresh global frame.
    pub fn new() -> (r: Environment)
        ensures
            frame_view(r) == (FrameV { vars: Seq::empty(), enclosing: None }),
    {
        let r = Environment { values: Vec::new(), enclosing: None };
        proof {
            assert(pairs_view(r.values@) =~= Seq::<(Seq<char>, ValueV)>::empty());
        }
        r
    }

    /// A fresh frame enclosed by frame `enclosing`.
    pub fn with_enclosing(enclosing: usize) -> (r: Environment)
        ensures
            frame_view(r) == (FrameV { vars: Seq::empty(), enclosing: Some(enclosing as int) }),
    {
        let r = Environment { values: Vec::new(), enclosing: Some(enclosing) };
        proof {
            assert(pairs_view(r.values@) =~= Seq::<(Seq<char>, ValueV)>::empty());
        }
        r
    }

    /// Defines a name in this frame, shadowing any previous binding.
    pub fn define(&mut self, name: String, value: Value)
        ensures
            frame_view(*final(self)) == (FrameV {
                vars: frame_view(*old(self)).vars.push((name@, value_view(value))),
                enclosing: frame_view(*old(self)).enclosing,
            }),
    {
        let ghost pre = self.values@;
        self.values.push((name, value));
        proof {
            assert(pairs_view(self.values@) =~= pairs_view(pre).push(
                (self.values@.last().0@, value_view(self.values@.last().1)),
            ));
        }
    }

    /// Reads a name along the chain from frame `frame`; an undefined
    /// variable is an error.
    #[verifier::loop_isolation(false)]
    pub fn get(envs: &Vec<Environment>, frame: usize, name: &str) -> (r: Result<Value, VeonError>)
        ensures
            (match r {
                Ok(v) => lookup_in(envs_view(envs@), frame as int, name@) == Some(value_view(v)),
                Err(e) => lookup_in(envs_view(envs@), frame as int, name@) is None && eval_err_is(
                    e,
                    undef_var_err(name@),
                ),
            }),
    {
        let ghost frames = envs_view(envs@);
        let mut i: usize = frame;
        loop
            invariant
                lookup_in(frames, frame as int, name@) == lookup_in(frames, i as int, name@),
            decreases i,
        {
            if i >= envs.len() {
                return Err(undefined_variable(name));
            }
            match list_get(&envs[i].values, name) {
                Some(v) => {
                    return Ok(v);
                }
                None => {
                    match envs[i].enclosing {
                        Some(j) => {
                            if j < i {
                                i = j;
                            } else {
                                return Err(undefined_variable(name));
                            }
                        }
                        None => {
                            return Err(undefined_variable(name));
                        }
                    }
                }
            }
        }
    }

    /// Assigns to the nearest enclosing binding along the chain from
    /// `frame`; assigning an undefined variable is an error and never
    /// creates a binding.
    #[verifier::loop_isolation(false)]
    pub fn assign(
        envs: &mut Vec<Environment>,
        frame: usize,
        name: &str,
        value: Value,
    ) -> (r: Result<(), VeonError>)
        ensures
            final(envs)@.len() == old(envs)@.len(),
            (match r {
                Ok(_) => assign_in(
                    envs_view(old(envs)@),
                    frame as int,
                    name@,
                    value_view(value),
                ) == Some(envs_view(final(envs)@)),
                Err(e) => assign_in(envs_view(old(envs)@), frame as int, name@, value_view(value))
                    is None && eval_err_is(e, undef_var_err(name@)) && final(envs)@ == old(envs)@,
            }),
    {
        let ghost frames = envs_view(envs@);
        let ghost vv = value_view(value);
        let mut i: usize = frame;
        loop
            invariant
                envs@ == old(envs)@,
                assign_in(frames, frame as int, name@, vv) == assign_in(frames, i as int, name@, vv),
            decreases i,
        {
            if i >= envs.len() {
                return Err(undefined_variable(name));
            }
            match list_get(&envs[i].values, name) {
                Some(_) => {
                    let ghost pre = envs@;
                    let n = String::from_str(name);
                    envs[i].values.push((n, value));
                    proof {
                        assert(pairs_view(envs@[i as int].values@) =~= pairs_view(
                            pre[i as int].values@,
                        ).push((name@, vv)));
                        assert(envs_view(envs@) =~= frames.update(
                            i as int,
                            FrameV {
                                vars: frames[i as int].vars.push((name@, vv)),
                                enclosing: frames[i as int].enclosing,
                            },
                        ));
                    }
                    return Ok(());
                }
                None => {
                    match envs[i].enclosing {
                        Some(j) => {
                            if j < i {
                                i = j;
                            } else {
                                return Err(undefined_variable(name));
                            }
                        }
                        None => {
                            return Err(undefined_variable(name));
                        }
                    }
                }
            }
        }
    }
}

/// The undefined-variable error for `name`.
fn undefined_variable(name: &str) -> (r: VeonError)
    ensures
        eval_err_is(r, undef_var_err(name@)),
{
    let mut msg = String::from_str("Undefined variable '");
    msg.append(name);
    msg.append("'");
    VeonError::EvaluationError(
        EvaluationError { msg, tty: EvaluationErrorType::InvalidOperation },
    )
}

/// The undefined-property error for `name`.
fn undefined_property(name: &str) -> (r: VeonError)
    ensures
        eval_err_is(r, undef_prop_err(name@)),
{
    let mut msg = String::from_str("Undefined property '");
    msg.append(name);
    msg.append("'");
    VeonError::EvaluationError(
        EvaluationError { msg, tty: EvaluationErrorType::InvalidOperation },
    )
}

/// Structural clone of a function.
fn clone_function(f: &VeonFunction) -> (r: VeonFunction)
    ensures
        fun_view(r) == fun_view(*f),
{
    VeonFunction {
        name: f.name.clone(),
        params: clone_strings(&f.params),
        body: clone_stmts(&f.body),
        closure: f.closure,
        is_initializer: f.is_initializer,
    }
}

/// Looks a method up in a class's table, returning a clone.
#[verifier::loop_isolation(false)]
fn find_method(methods: &Vec<(String, VeonFunction)>, name: &str) -> (r: Option<VeonFunction>)
    ensures
        (match r {
            Some(m) => assoc_get(methods_view(methods@), name@) == Some(fun_view(m)),
            None => assoc_get(methods_view(methods@), name@) is None,
        }),
{
    let ghost s = methods_view(methods@);
    proof {
        assert(s.take(methods@.len() as int) =~= s);
    }
    let mut j: usize = methods.len();
    while j > 0
        invariant
            j <= methods@.len(),
            assoc_get(s, name@) == assoc_get(s.take(j as int), name@),
        decreases j,
    {
        if str_eq(methods[j - 1].0.as_str(), name) {
            let m = clone_function(&methods[j - 1].1);
            proof {
                assert(s.take(j as int).last() == (
                    methods@[j - 1].0@,
                    fun_view(methods@[j - 1].1),
                ));
            }
            return Some(m);
        }
        proof {
            assert(s.take(j as int).drop_last() =~= s.take(j - 1));
        }
        j = j - 1;
    }
    proof {
        assert(s.take(0) =~= Seq::<(Seq<char>, FunV)>::empty());
    }
    None
}

impl VeonFunction {
    /// A bound copy of this method: its closure becomes a fresh frame
    /// defining `this` as the given instance over the original closure.
    pub fn bind(&self, instance: usize, envs: &mut Vec<Environment>) -> (r: VeonFunction)
        ensures
            final(envs)@.len() == old(envs)@.len() + 1,
            envs_view(final(envs)@) == envs_view(old(envs)@).push(
                FrameV {
                    vars: seq![("this"@, ValueV::Inst(instance as int))],
                    enclosing: Some(self.closure as int),
                },
            ),
            fun_view(r) == (FunV {
                name: self.name@,
                params: strs_view(self.params@),
                body: stmts_view(self.body@),
                closure: old(envs)@.len() as int,
                is_initializer: self.is_initializer,
            }),
    {
        let mut env = Environment::with_enclosing(self.closure);
        env.define(String::from_str("this"), Value::Instance(instance));
        let idx = envs.len();
        let ghost pre = envs@;
        envs.push(env);
        proof {
            assert(Seq::<(Seq<char>, ValueV)>::empty().push(
                ("this"@, ValueV::Inst(instance as int)),
            ) =~= seq![("this"@, ValueV::Inst(instance as int))]);
            assert(envs_view(envs@) =~= envs_view(pre).push(frame_view(envs@.last())));
        }
        VeonFunction {
            name: self.name.clone(),
            params: clone_strings(&self.params),
            body: clone_stmts(&self.body),
            closure: idx,
            is_initializer: self.is_initializer,
        }
    }
}

impl VeonInstance {
    /// A fresh instance of class `class` with no fields.
    pub fn new(class: usize) -> (r: VeonInstance)
        ensures
            inst_view(r) == (InstV { class: class as int, fields: Seq::empty() }),
    {
        let r = VeonInstance { class, fields: Vec::new() };
        proof {
            assert(pairs_view(r.fields@) =~= Seq::<(Seq<char>, ValueV)>::empty());
        }
        r
    }

    /// Writes a field; classes are open, so this always succeeds.
    pub fn set(&mut self, name: &str, value: Value)
        ensures
            inst_view(*final(self)) == (InstV {
                class: old(self).class as int,
                fields: inst_view(*old(self)).fields.push((name@, value_view(value))),
            }),
    {
        let ghost pre = self.fields@;
        let n = String::from_str(name);
        self.fields.push((n, value));
        proof {
            assert(pairs_view(self.fields@) =~= pairs_view(pre).push((name@, value_view(value))));
        }
    }
}

/// The interpreter: the four arenas and the current frame.
pub struct Interpreter {
    pub envs: Vec<Environment>,
    pub funcs: Vec<VeonFunction>,
    pub classes: Vec<VeonClass>,
    pub instances: Vec<VeonInstance>,
    pub environment: usize,
}

impl Interpreter {
    /// The state view.
    pub open spec fn stv(&self) -> StateV {
        StateV {
            frames: envs_view(self.envs@),
            funcs: funs_view(self.funcs@),
            classes: classes_view(self.classes@),
            insts: insts_view(self.instances@),
            cur: self.environment as int,
        }
    }

    /// Well-formedness: the current frame exists.
    pub open spec fn wf(&self) -> bool {
        self.environment < self.envs@.len()
    }

    /// A fresh interpreter with one empty global environment.
    pub fn new() -> (r: Interpreter)
        ensures
            r.wf(),
            r.stv() == (StateV {
                frames: seq![FrameV { vars: Seq::empty(), enclosing: None }],
                funcs: Seq::empty(),
                classes: Seq::empty(),
                insts: Seq::empty(),
                cur: 0,
            }),
    {
        let mut envs: Vec<Environment> = Vec::new();
        envs.push(Environment::new());
        let r = Interpreter {
            envs,
            funcs: Vec::new(),
            classes: Vec::new(),
            instances: Vec::new(),
            environment: 0,
        };
        proof {
            assert(envs_view(r.envs@) =~= seq![
                FrameV { vars: Seq::<(Seq<char>, ValueV)>::empty(), enclosing: None },
            ]);
            assert(funs_view(r.funcs@) =~= Seq::<FunV>::empty());
            assert(classes_view(r.classes@) =~= Seq::<ClassV>::empty());
            assert(insts_view(r.instances@) =~= Seq::<InstV>::empty());
        }
        r
    }

    /// An evaluation error with the given kind and message.
    fn runtime_error(&self, msg: &str, tty: EvaluationErrorType) -> (r: VeonError)
        ensures
            eval_err_is(r, EvalErrV { tty, msg: msg@ }),
    {
        VeonError::EvaluationError(EvaluationError { msg: String::from_str(msg), tty })
    }

    /// The budget-exhausted error.
    fn budget_error(&self) -> (r: VeonError)
        ensures
            eval_err_is(r, budget_err()),
    {
        self.runtime_error("Evaluation budget exhausted", EvaluationErrorType::InvalidOperation)
    }

    /// Truthiness of a value.
    pub fn is_truthy(&self, value: &Value) -> (r: bool)
        ensures
            r == truthy(value_view(*value)),
    {
        match value {
            Value::Boolean(b) => *b,
            Value::Null => false,
            Value::Void => false,
            Value::Number(n) => *n != 0,
            Value::String(s) => s.as_str().unicode_len() != 0,
            Value::Array(items) => items.len() != 0,
            Value::Function(_) => true,
            Value::Class(_) => true,
            Value::Instance(_) => true,
        }
    }

    /// The `+` operator: numbers add, strings and arrays concatenate.
    #[verifier::loop_isolation(false)]
    pub fn add_values(&self, left: &Value, right: &Value) -> (r: Result<Value, VeonError>)
        ensures
            pure_rel(sp_add_values(value_view(*left), value_view(*right)), r),
    {
        match (left, right) {
            (Value::Number(a), Value::Number(b)) => Ok(Value::Number(a.wrapping_add(*b))),
            (Value::String(a), Value::String(b)) => {
                let mut s = a.clone();
                s.append(b.as_str());
                Ok(Value::String(s))
            }
            (Value::Array(a), Value::Array(b)) => {
                let mut out: Vec<Value> = Vec::new();
                let mut j: usize = 0;
                while j < a.len()
                    invariant
                        j <= a@.len(),
                        out@.len() == j as int,
                        forall|k: int|
                            0 <= k < j ==> value_view(out@[k]) == value_view(#[trigger] a@[k]),
                    decreases a@.len() - j,
                {
                    let c = clone_value(&a[j]);
                    out.push(c);
                    j = j + 1;
                }
                let mut i: usize = 0;
                while i < b.len()
                    invariant
                        i <= b@.len(),
                        out@.len() == a@.len() + i as int,
                        forall|k: int|
                            0 <= k < a@.len() ==> value_view(out@[k]) == value_view(
                                #[trigger] a@[k],
                            ),
                        forall|k: int|
                            0 <= k < i ==> value_view(out@[a@.len() + k]) == value_view(
                                #[trigger] b@[k],
                            ),
                    decreases b@.len() - i,
                {
                    let c = clone_value(&b[i]);
                    out.push(c);
                    i = i + 1;
                }
                proof {
                    lemma_values_view(out@);
                    lemma_values_view(a@);
                    lemma_values_view(b@);
                    assert(values_view(out@) =~= values_view(a@) + values_view(b@));
                }
                Ok(Value::Array(out))
            }
            _ => Err(
                self.runtime_error(
                    "Operands must be two numbers, two strings, or two arrays",
                    EvaluationErrorType::InvalidTypeOperation,
                ),
            ),
        }
    }

    /// The binary operator table.
    #[verifier::rlimit(100)]
    pub fn binary_op(&self, op: TokenType, left: &Value, right: &Value) -> (r: Result<
        Value,
        VeonError,
    >)
        ensures
            pure_rel(sp_binary_op(op, value_view(*left), value_view(*right)), r),
    {
        match op {
            TokenType::Plus => self.add_values(left, right),
            TokenType::Minus => match (left, right) {
                (Value::Number(a), Value::Number(b)) => Ok(Value::Number(a.wrapping_sub(*b))),
                _ => Err(
                    self.runtime_error(
                        "Operands must be numbers",
                        EvaluationErrorType::InvalidTypeOperation,
                    ),
                ),
            },
            TokenType::Star => match (left, right) {
                (Value::Number(a), Value::Number(b)) => Ok(Value::Number(a.wrapping_mul(*b))),
                _ => Err(
                    self.runtime_error(
                        "Operands must be numbers",
                        EvaluationErrorType::InvalidTypeOperation,
                    ),
                ),
            },
            TokenType::Slash => {
                if value_eq(right, &Value::Number(0)) {
                    return Err(
                        self.runtime_error("Divide by zero", EvaluationErrorType::DivideByZero),
                    );
                }
                match (left, right) {
                    (Value::Number(a), Value::Number(b)) => {
                        let q = match a.checked_div(*b) {
                            Some(q) => q,
                            None => i64::MIN,
                        };
                        Ok(Value::Number(q))
                    }
                    _ => Err(
                        self.runtime_error(
                            "Operands must be numbers",
                            EvaluationErrorType::InvalidTypeOperation,
                        ),
                    ),
                }
            }
            TokenType::Modulo => {
                if value_eq(right, &Value::Number(0)) {
                    return Err(
                        self.runtime_error("Divide by zero", EvaluationErrorType::DivideByZero),
                    );
                }
                match (left, right) {
                    (Value::Number(a), Value::Number(b)) => {
                        let m = match a.checked_rem(*b) {
                            Some(m) => m,
                            None => 0,
                        };
                        Ok(Value::Number(m))
                    }
                    _ => Err(
                        self.runtime_error(
                            "Operands must be numbers",
                            EvaluationErrorType::InvalidTypeOperation,
                        ),
                    ),
                }
            }
            TokenType::Greater => match (left, right) {
                (Value::Number(a), Value::Number(b)) => Ok(Value::Boolean(*a > *b)),
                _ => Err(
                    self.runtime_error(
                        "Operands must be numbers",
                        EvaluationErrorType::InvalidTypeOperation,
                    ),
                ),
            },
            TokenType::GreaterEqual => match (left, right) {
                (Value::Number(a), Value::Number(b)) => Ok(Value::Boolean(*a >= *b)),
                _ => Err(
                    self.runtime_error(
                        "Operands must be numbers",
                        EvaluationErrorType::InvalidTypeOperation,
                    ),
                ),
            },
            TokenType::Less => match (left, right) {
                (Value::Number(a), Value::Number(b)) => Ok(Value::Boolean(*a < *b)),
                _ => Err(
                    self.runtime_error(
                        "Operands must be numbers",
                        EvaluationErrorType::InvalidTypeOperation,
                    ),
                ),
            },
            TokenType::LessEqual => match (left, right) {
                (Value::Number(a), Value::Number(b)) => Ok(Value::Boolean(*a <= *b)),
                _ => Err(
                    self.runtime_error(
                        "Operands must be numbers",
                        EvaluationErrorType::InvalidTypeOperation,
                    ),
                ),
            },
            TokenType::EqualEqual => Ok(Value::Boolean(value_eq(left, right))),
            TokenType::NotEqual => Ok(Value::Boolean(!value_eq(left, right))),
            _ => Err(
                self.runtime_error(
                    "Unsupported binary operator",
                    EvaluationErrorType::InvalidOperation,
                ),
            ),
        }
    }

    /// Evaluates one expression, as [`sp_eval`] says.
    #[verifier::rlimit(100)]
    #[verifier::spinoff_prover]
    fn evaluate(&mut self, expr: &Expr, fuel: u64) -> (r: Result<Value, VeonError>)
        requires
            old(self).wf(),
        ensures
            final(self).wf(),
            final(self).envs@.len() >= old(self).envs@.len(),
            eval_rel(sp_eval(old(self).stv(), expr_view(*expr), fuel as nat), r, final(self).stv()),
        decreases fuel, 2int,
    {
        if fuel == 0 {
            return Err(self.budget_error());
        }
        match expr {
            Expr::Literal(v) => {
                return Ok(clone_value(v));
            }
            Expr::Grouping(inner) => {
                return self.evaluate(inner, fuel - 1);
            }
            Expr::Variable(name) => {
                return Environment::get(&self.envs, self.environment, name.as_str());
            }
            Expr::This => {
                return Environment::get(&self.envs, self.environment, "this");
            }
            Expr::Unary { operator, right } => {
                return self.eval_unary(*operator, right, fuel - 1);
            }
            Expr::Binary { left, operator, right } => {
                return self.eval_binary(left, *operator, right, fuel - 1);
            }
            Expr::Logical { left, operator, right } => {
                return self.eval_logical(left, *operator, right, fuel - 1);
            }
            Expr::Assign { name, value } => {
                return self.eval_assign(name, value, fuel - 1);
            }
            Expr::Array(items) => {
                proof {
                    assert(sp_eval(old(self).stv(), expr_view(*expr), fuel as nat)
                        == sp_eval_array(
                        old(self).stv(),
                        exprs_view(items@),
                        (fuel - 1) as nat,
                    ));
                }
                let lr = self.evaluate_list(items, fuel - 1);
                proof {
                    let sp = sp_eval_list(
                        old(self).stv(),
                        exprs_view(items@),
                        (fuel - 1) as nat,
                    );
                    assert(sp_eval_array(old(self).stv(), exprs_view(items@), (fuel - 1) as nat)
                        == (match sp.1 {
                        ListOut::Fault(e) => (sp.0, ExprOut::Fault(e)),
                        ListOut::Vals(vs) => (sp.0, ExprOut::Val(ValueV::Arr(vs))),
                    }));
                }
                return match lr {
                    Ok(vs) => Ok(Value::Array(vs)),
                    Err(e) => Err(e),
                };
            }
            Expr::Index { array, index } => {
                return self.eval_index(array, index, fuel - 1);
            }
            Expr::Call { callee, paren: _, arguments } => {
                return self.eval_call(callee, arguments, fuel - 1);
            }
            Expr::Get { object, name } => {
                return self.eval_get(object, name, fuel - 1);
            }
            Expr::SetProp { object, name, value } => {
                return self.eval_set(object, name, value, fuel - 1);
            }
        }
    }

    /// Unary expression.
    fn eval_unary(&mut self, op: TokenType, right: &Expr, fuel: u64) -> (r: Result<
        Value,
        VeonError,
    >)
        requires
            old(self).wf(),
        ensures
            final(self).wf(),
            final(self).envs@.len() >= old(self).envs@.len(),
            eval_rel(
                sp_eval_unary(old(self).stv(), op, expr_view(*right), fuel as nat),
                r,
                final(self).stv(),
            ),
        decreases fuel, 3int,
    {
        let rv = match self.evaluate(right, fuel) {
            Ok(v) => v,
            Err(e) => {
                return Err(e);
            }
        };
        match op {
            TokenType::Minus => match rv {
                Value::Number(n) => Ok(Value::Number((0i64).wrapping_sub(n))),
                _ => Err(
                    self.runtime_error(
                        "Operands must be numbers",
                        EvaluationErrorType::InvalidTypeOperation,
                    ),
                ),
            },
            TokenType::Not => {
                let t = self.is_truthy(&rv);
                Ok(Value::Boolean(!t))
            }
            _ => Err(
                self.runtime_error(
                    "Unsupported unary operator",
                    EvaluationErrorType::InvalidOperation,
                ),
            ),
        }
    }

    /// Binary expression: left, right, then the operator table.
    fn eval_binary(&mut self, left: &Expr, op: TokenType, right: &Expr, fuel: u64) -> (r: Result<
        Value,
        VeonError,
    >)
        requires
            old(self).wf(),
        ensures
            final(self).wf(),
            final(self).envs@.len() >= old(self).envs@.len(),
            eval_rel(
                sp_eval_binary(old(self).stv(), expr_view(*left), op, expr_view(*right), fuel as nat),
                r,
                final(self).stv(),
            ),
        decreases fuel, 3int,
    {
        let lv = match self.evaluate(left, fuel) {
            Ok(v) => v,
            Err(e) => {
                return Err(e);
            }
        };
        let rv = match self.evaluate(right, fuel) {
            Ok(v) => v,
            Err(e) => {
                return Err(e);
            }
        };
        self.binary_op(op, &lv, &rv)
    }

    /// Short-circuit `and` / `or`.
    fn eval_logical(&mut self, left: &Expr, op: TokenType, right: &Expr, fuel: u64) -> (r: Result<
        Value,
        VeonError,
    >)
        requires
            old(self).wf(),
        ensures
            final(self).wf(),
            final(self).envs@.len() >= old(self).envs@.len(),
            eval_rel(
                sp_eval_logical(old(self).stv(), expr_view(*left), op, expr_view(*right), fuel as nat),
                r,
                final(self).stv(),
            ),
        decreases fuel, 3int,
    {
        let lv = match self.evaluate(left, fuel) {
            Ok(v) => v,
            Err(e) => {
                return Err(e);
            }
        };
        let t = self.is_truthy(&lv);
        if op == TokenType::Or {
            if t {
                return Ok(lv);
            }
        } else {
            if !t {
                return Ok(lv);
            }
        }
        self.evaluate(right, fuel)
    }

    /// Assignment.
    fn eval_assign(&mut self, name: &String, value: &Expr, fuel: u64) -> (r: Result<
        Value,
        VeonError,
    >)
        requires
            old(self).wf(),
        ensures
            final(self).wf(),
            final(self).envs@.len() >= old(self).envs@.len(),
            eval_rel(
                sp_eval_assign(old(self).stv(), name@, expr_view(*value), fuel as nat),
                r,
                final(self).stv(),
            ),
        decreases fuel, 3int,
    {
        let v = match self.evaluate(value, fuel) {
            Ok(v) => v,
            Err(e) => {
                return Err(e);
            }
        };
        let copy = clone_value(&v);
        match Environment::assign(&mut self.envs, self.environment, name.as_str(), copy) {
            Ok(_) => Ok(v),
            Err(e) => Err(e),
        }
    }

    /// A list of expressions, left to right.
    #[verifier::loop_isolation(false)]
    fn evaluate_list(&mut self, items: &Vec<Expr>, fuel: u64) -> (r: Result<Vec<Value>, VeonError>)
        requires
            old(self).wf(),
        ensures
            final(self).wf(),
            final(self).envs@.len() >= old(self).envs@.len(),
            list_rel(
                sp_eval_list(old(self).stv(), exprs_view(items@), fuel as nat),
                r,
                final(self).stv(),
            ),
        decreases fuel, 2int,
    {
        let ghost whole = sp_eval_list(old(self).stv(), exprs_view(items@), fuel as nat);
        proof {
            lemma_exprs_view(items@);
            assert(exprs_view(items@).skip(0) =~= exprs_view(items@));
        }
        let mut vals: Vec<Value> = Vec::new();
        let mut f: u64 = fuel;
        let mut k: usize = 0;
        proof {
            assert(values_view(vals@) =~= Seq::<ValueV>::empty());
        }
        loop
            invariant
                self.wf(),
                self.envs@.len() >= old(self).envs@.len(),
                k <= items@.len(),
                f <= fuel,
                (match sp_eval_list(self.stv(), exprs_view(items@).skip(k as int), f as nat) {
                    (st, ListOut::Vals(vs)) => whole == (
                        st,
                        ListOut::Vals(values_view(vals@) + vs),
                    ),
                    (st, ListOut::Fault(e)) => whole == (st, ListOut::Fault(e)),
                }),
            decreases fuel - f + (items@.len() - k), f,
        {
            if f == 0 {
                return Err(self.budget_error());
            }
            if k >= items.len() {
                proof {
                    assert(exprs_view(items@).skip(k as int) =~= Seq::<ExprV>::empty());
                    assert(values_view(vals@) + Seq::<ValueV>::empty() =~= values_view(vals@));
                }
                return Ok(vals);
            }
            let ghost pre = values_view(vals@);
            let v = match self.evaluate(&items[k], f - 1) {
                Ok(v) => v,
                Err(e) => {
                    return Err(e);
                }
            };
            proof {
                assert(exprs_view(items@).skip(k as int)[0] == expr_view(items@[k as int]));
                assert(exprs_view(items@).skip(k as int).drop_first() =~= exprs_view(items@).skip(
                    k as int + 1,
                ));
                lemma_values_view(vals@.push(v));
                lemma_values_view(vals@);
                assert(values_view(vals@.push(v)) =~= values_view(vals@).push(value_view(v)));
                match sp_eval_list(self.stv(), exprs_view(items@).skip(k as int + 1), (f - 1) as nat) {
                    (st, ListOut::Vals(vs)) => {
                        assert(pre + (seq![value_view(v)] + vs) =~= pre.push(value_view(v)) + vs);
                    }
                    (st, ListOut::Fault(e)) => {}
                }
            }
            vals.push(v);
            f = f - 1;
            k = k + 1;
        }
    }

    /// Subscript read.
    #[verifier::rlimit(100)]
    fn eval_index(&mut self, array: &Expr, index: &Expr, fuel: u64) -> (r: Result<
        Value,
        VeonError,
    >)
        requires
            old(self).wf(),
        ensures
            final(self).wf(),
            final(self).envs@.len() >= old(self).envs@.len(),
            eval_rel(
                sp_eval_index(old(self).stv(), expr_view(*array), expr_view(*index), fuel as nat),
                r,
                final(self).stv(),
            ),
        decreases fuel, 3int,
    {
        let av = match self.evaluate(array, fuel) {
            Ok(v) => v,
            Err(e) => {
                return Err(e);
            }
        };
        let iv = match self.evaluate(index, fuel) {
            Ok(v) => v,
            Err(e) => {
                return Err(e);
            }
        };
        let n: i64 = match iv {
            Value::Number(n) => {
                if n >= 0 {
                    n
                } else {
                    return Err(
                        self.runtime_error(
                            "Array index must be a non-negative number",
                            EvaluationErrorType::InvalidTypeOperation,
                        ),
                    );
                }
            }
            _ => {
                return Err(
                    self.runtime_error(
                        "Array index must be a non-negative number",
                        EvaluationErrorType::InvalidTypeOperation,
                    ),
                );
            }
        };
        match av {
            Value::Array(items) => {
                proof {
                    lemma_values_view(items@);
                }
                if (n as u64) < (items.len() as u64) {
                    Ok(clone_value(&items[n as usize]))
                } else {
                    let mut msg = String::from_str("Index ");
                    let d = dec_u64(n as u64);
                    msg.append(d.as_str());
                    msg.append(" out of bounds");
                    Err(
                        VeonError::EvaluationError(
                            EvaluationError { msg, tty: EvaluationErrorType::InvalidOperation },
                        ),
                    )
                }
            }
            _ => Err(
                self.runtime_error(
                    "Can only index arrays",
                    EvaluationErrorType::InvalidTypeOperation,
                ),
            ),
        }
    }

    /// Invocation.
    fn eval_call(&mut self, callee: &Expr, arguments: &Vec<Expr>, fuel: u64) -> (r: Result<
        Value,
        VeonError,
    >)
        requires
            old(self).wf(),
        ensures
            final(self).wf(),
            final(self).envs@.len() >= old(self).envs@.len(),
            eval_rel(
                sp_eval_call(old(self).stv(), expr_view(*callee), exprs_view(arguments@), fuel as nat),
                r,
                final(self).stv(),
            ),
        decreases fuel, 3int,
    {
        let cv = match self.evaluate(callee, fuel) {
            Ok(v) => v,
            Err(e) => {
                return Err(e);
            }
        };
        let args = match self.evaluate_list(arguments, fuel) {
            Ok(vs) => vs,
            Err(e) => {
                return Err(e);
            }
        };
        self.call_value(cv, args, fuel)
    }

    /// Property read.
    fn eval_get(&mut self, object: &Expr, name: &String, fuel: u64) -> (r: Result<
        Value,
        VeonError,
    >)
        requires
            old(self).wf(),
        ensures
            final(self).wf(),
            final(self).envs@.len() >= old(self).envs@.len(),
            eval_rel(
                sp_eval_get(old(self).stv(), expr_view(*object), name@, fuel as nat),
                r,
                final(self).stv(),
            ),
        decreases fuel, 3int,
    {
        let ov = match self.evaluate(object, fuel) {
            Ok(v) => v,
            Err(e) => {
                return Err(e);
            }
        };
        match ov {
            Value::Instance(ii) => {
                if ii < self.instances.len() {
                    self.instance_get(ii, name)
                } else {
                    Err(undefined_property(name.as_str()))
                }
            }
            _ => Err(
                self.runtime_error(
                    "Only instances have properties",
                    EvaluationErrorType::InvalidTypeOperation,
                ),
            ),
        }
    }

    /// Reading a name off an instance: a field, or a bound method.
    #[verifier::rlimit(100)]
    fn instance_get(&mut self, ii: usize, name: &String) -> (r: Result<Value, VeonError>)
        requires
            old(self).wf(),
            ii < old(self).instances@.len(),
        ensures
            final(self).wf(),
            final(self).envs@.len() >= old(self).envs@.len(),
            eval_rel(sp_inst_get(old(self).stv(), ii as int, name@), r, final(self).stv()),
    {
        match list_get(&self.instances[ii].fields, name.as_str()) {
            Some(v) => Ok(v),
            None => {
                let ci = self.instances[ii].class;
                if ci < self.classes.len() {
                    match find_method(&self.classes[ci].methods, name.as_str()) {
                        Some(m) => {
                            let bound = m.bind(ii, &mut self.envs);
                            let fi = self.funcs.len();
                            let ghost pre = self.funcs@;
                            self.funcs.push(bound);
                            proof {
                                assert(funs_view(self.funcs@) =~= funs_view(pre).push(
                                    fun_view(self.funcs@.last()),
                                ));
                            }
                            Ok(Value::Function(fi))
                        }
                        None => Err(undefined_property(name.as_str())),
                    }
                } else {
                    Err(undefined_property(name.as_str()))
                }
            }
        }
    }

    /// Property write.
    fn eval_set(&mut self, object: &Expr, name: &String, value: &Expr, fuel: u64) -> (r: Result<
        Value,
        VeonError,
    >)
        requires
            old(self).wf(),
        ensures
            final(self).wf(),
            final(self).envs@.len() >= old(self).envs@.len(),
            eval_rel(
                sp_eval_set(old(self).stv(), expr_view(*object), name@, expr_view(*value), fuel as nat),
                r,
                final(self).stv(),
            ),
        decreases fuel, 3int,
    {
        let ov = match self.evaluate(object, fuel) {
            Ok(v) => v,
            Err(e) => {
                return Err(e);
            }
        };
        let v = match self.evaluate(value, fuel) {
            Ok(v) => v,
            Err(e) => {
                return Err(e);
            }
        };
        match ov {
            Value::Instance(ii) => {
                if ii < self.instances.len() {
                    let copy = clone_value(&v);
                    let ghost pre = self.instances@;
                    self.instances[ii].set(name.as_str(), copy);
                    proof {
                        assert(insts_view(self.instances@) =~= insts_view(pre).update(
                            ii as int,
                            inst_view(self.instances@[ii as int]),
                        ));
                    }
                    Ok(v)
                } else {
                    Err(
                        self.runtime_error(
                            "Only instances have fields",
                            EvaluationErrorType::InvalidTypeOperation,
                        ),
                    )
                }
            }
            _ => Err(
                self.runtime_error(
                    "Only instances have fields",
                    EvaluationErrorType::InvalidTypeOperation,
                ),
            ),
        }
    }

    /// Calling a value: functions and classes only.
    #[verifier::rlimit(100)]
    fn call_value(&mut self, callee: Value, args: Vec<Value>, fuel: u64) -> (r: Result<
        Value,
        VeonError,
    >)
        requires
            old(self).wf(),
        ensures
            final(self).wf(),
            final(self).envs@.len() >= old(self).envs@.len(),
            eval_rel(
                sp_call_value(old(self).stv(), value_view(callee), values_view(args@), fuel as nat),
                r,
                final(self).stv(),
            ),
        decreases fuel, 2int,
    {
        if fuel == 0 {
            return Err(self.budget_error());
        }
        match callee {
            Value::Function(fi) => {
                if fi < self.funcs.len() {
                    let func = clone_function(&self.funcs[fi]);
                    self.call_function(func, args, fuel - 1)
                } else {
                    Err(
                        self.runtime_error(
                            "Can only call functions and classes",
                            EvaluationErrorType::InvalidOperation,
                        ),
                    )
                }
            }
            Value::Class(ci) => {
                if ci < self.classes.len() {
                    let ii = self.instances.len();
                    let ghost pre = self.instances@;
                    self.instances.push(VeonInstance::new(ci));
                    proof {
                        assert(insts_view(self.instances@) =~= insts_view(pre).push(
                            inst_view(self.instances@.last()),
                        ));
                    }
                    match find_method(&self.classes[ci].methods, "init") {
                        Some(m) => {
                            let bound = m.bind(ii, &mut self.envs);
                            let ghost fpre = self.funcs@;
                            let bound2 = clone_function(&bound);
                            self.funcs.push(bound);
                            proof {
                                assert(funs_view(self.funcs@) =~= funs_view(fpre).push(
                                    fun_view(self.funcs@.last()),
                                ));
                            }
                            match self.call_function(bound2, args, fuel - 1) {
                                Ok(_) => Ok(Value::Instance(ii)),
                                Err(e) => Err(e),
                            }
                        }
                        None => Ok(Value::Instance(ii)),
                    }
                } else {
                    Err(
                        self.runtime_error(
                            "Can only call functions and classes",
                            EvaluationErrorType::InvalidOperation,
                        ),
                    )
                }
            }
            _ => Err(
                self.runtime_error(
                    "Can only call functions and classes",
                    EvaluationErrorType::InvalidOperation,
                ),
            ),
        }
    }

    /// Calling a function: bind parameters in a fresh frame over the
    /// closure, run the body, restore the frame; an initializer yields
    /// `this`.
    #[verifier::rlimit(100)]
    #[verifier::loop_isolation(false)]
    fn call_function(&mut self, func: VeonFunction, args: Vec<Value>, fuel: u64) -> (r: Result<
        Value,
        VeonError,
    >)
        requires
            old(self).wf(),
        ensures
            final(self).wf(),
            final(self).envs@.len() >= old(self).envs@.len(),
            eval_rel(
                sp_call_function(
                    old(self).stv(),
                    fun_view(func),
                    values_view(args@),
                    fuel as nat,
                ),
                r,
                final(self).stv(),
            ),
        decreases fuel, 1int,
    {
        if fuel == 0 {
            return Err(self.budget_error());
        }
        proof {
            lemma_values_view(args@);
        }
        if args.len() != func.params.len() {
            let mut msg = String::from_str("Expected ");
            let d1 = dec_usize(func.params.len());
            msg.append(d1.as_str());
            msg.append(" arguments but got ");
            let d2 = dec_usize(args.len());
            msg.append(d2.as_str());
            return Err(
                VeonError::EvaluationError(
                    EvaluationError { msg, tty: EvaluationErrorType::InvalidOperation },
                ),
            );
        }
        let mut env = Environment::with_enclosing(func.closure);
        let mut j: usize = 0;
        while j < func.params.len()
            invariant
                j <= func.params@.len(),
                func.params@.len() == args@.len(),
                frame_view(env).enclosing == Some(func.closure as int),
                frame_view(env).vars =~= params_pairs(
                    strs_view(func.params@),
                    values_view(args@),
                ).take(j as int),
            decreases func.params@.len() - j,
        {
            let pname = func.params[j].clone();
            let arg = clone_value(&args[j]);
            env.define(pname, arg);
            proof {
                assert(frame_view(env).vars =~= params_pairs(
                    strs_view(func.params@),
                    values_view(args@),
                ).take(j + 1));
            }
            j = j + 1;
        }
        proof {
            assert(params_pairs(strs_view(func.params@), values_view(args@)).take(
                func.params@.len() as int,
            ) =~= params_pairs(strs_view(func.params@), values_view(args@)));
        }
        let previous = self.environment;
        let newidx = self.envs.len();
        let ghost epre = self.envs@;
        self.envs.push(env);
        self.environment = newidx;
        proof {
            assert(envs_view(self.envs@) =~= envs_view(epre).push(
                frame_view(self.envs@.last()),
            ));
        }
        let ghost whole = sp_call_body(
            self.stv(),
            stmts_view(func.body@),
            (fuel - 1) as nat,
            ValueV::Null,
        );
        proof {
            lemma_stmts_view(func.body@);
            assert(stmts_view(func.body@).skip(0) =~= stmts_view(func.body@));
        }
        let mut result = Value::Null;
        let mut f: u64 = fuel - 1;
        let mut k: usize = 0;
        loop
            invariant
                self.wf(),
                self.envs@.len() >= old(self).envs@.len(),
                previous < self.envs@.len(),
                k <= func.body@.len(),
                f < fuel,
                whole == sp_call_body(
                    self.stv(),
                    stmts_view(func.body@).skip(k as int),
                    f as nat,
                    value_view(result),
                ),
            decreases fuel - f + (func.body@.len() - k), f,
        {
            if f == 0 {
                self.environment = previous;
                return Err(self.budget_error());
            }
            if k >= func.body.len() {
                proof {
                    assert(stmts_view(func.body@).skip(k as int) =~= Seq::<StmtV>::empty());
                }
                break;
            }
            proof {
                assert(stmts_view(func.body@).skip(k as int)[0] == stmt_view(func.body@[k as int]));
                assert(stmts_view(func.body@).skip(k as int).drop_first() =~= stmts_view(
                    func.body@,
                ).skip(k as int + 1));
            }
            match self.execute(&func.body[k], f - 1) {
                Err(e) => {
                    self.environment = previous;
                    return Err(e);
                }
                Ok(Control::Return(v)) => {
                    self.environment = previous;
                    if func.is_initializer {
                        match Environment::get(&self.envs, func.closure, "this") {
                            Ok(t) => {
                                return Ok(t);
                            }
                            Err(_) => {
                                return Ok(Value::Null);
                            }
                        }
                    }
                    return Ok(v);
                }
                Ok(Control::Value(v)) => {
                    match v {
                        Some(x) => {
                            result = x;
                        }
                        None => {}
                    }
                }
            }
            f = f - 1;
            k = k + 1;
        }
        self.environment = previous;
        if func.is_initializer {
            match Environment::get(&self.envs, func.closure, "this") {
                Ok(t) => Ok(t),
                Err(_) => Ok(Value::Null),
            }
        } else {
            Ok(result)
        }
    }

    /// Executes one statement, as [`sp_exec`] says.
    #[verifier::rlimit(100)]
    fn execute(&mut self, stmt: &Stmt, fuel: u64) -> (r: Result<Control, VeonError>)
        requires
            old(self).wf(),
        ensures
            final(self).wf(),
            final(self).envs@.len() >= old(self).envs@.len(),
            stmt_rel(sp_exec(old(self).stv(), stmt_view(*stmt), fuel as nat), r, final(self).stv()),
        decreases fuel, 3int,
    {
        if fuel == 0 {
            return Err(self.budget_error());
        }
        match stmt {
            Stmt::Expression(e) => {
                match self.evaluate(e, fuel - 1) {
                    Ok(v) => Ok(Control::Value(Some(v))),
                    Err(err) => Err(err),
                }
            }
            Stmt::Var { name, initializer } => self.exec_var(name, initializer, fuel - 1),
            Stmt::Block(stmts) => self.execute_block(
                stmts,
                Environment::with_enclosing(self.environment),
                fuel - 1,
            ),
            Stmt::If { condition, then_branch, else_branch } => self.exec_if(
                condition,
                then_branch,
                else_branch,
                fuel - 1,
            ),
            Stmt::While { condition, body } => self.exec_while(condition, body, fuel - 1),
            Stmt::Function { name, params, body } => self.exec_function(name, params, body),
            Stmt::Return(e) => self.exec_return(e, fuel - 1),
            Stmt::Class { name, methods } => self.exec_class(name, methods),
        }
    }

    /// Variable declaration.
    fn exec_var(&mut self, name: &String, initializer: &Option<Expr>, fuel: u64) -> (r: Result<
        Control,
        VeonError,
    >)
        requires
            old(self).wf(),
        ensures
            final(self).wf(),
            final(self).envs@.len() >= old(self).envs@.len(),
            stmt_rel(
                sp_exec_var(old(self).stv(), name@, opt_expr_view(*initializer), fuel as nat),
                r,
                final(self).stv(),
            ),
        decreases fuel, 4int,
    {
        let v = match initializer {
            Some(e) => match self.evaluate(e, fuel) {
                Ok(v) => v,
                Err(err) => {
                    return Err(err);
                }
            },
            None => Value::Null,
        };
        let ghost pre = self.envs@;
        let idx = self.environment;
        self.envs[idx].define(name.clone(), v);
        proof {
            assert(envs_view(self.envs@) =~= envs_view(pre).update(
                idx as int,
                frame_view(self.envs@[idx as int]),
            ));
        }
        Ok(Control::Value(None))
    }

    /// Block execution: install the given frame, run, restore the saved
    /// frame on every exit path.
    #[verifier::rlimit(100)]
    #[verifier::loop_isolation(false)]
    fn execute_block(&mut self, statements: &Vec<Stmt>, environment: Environment, fuel: u64) -> (r:
        Result<Control, VeonError>)
        requires
            old(self).wf(),
        ensures
            final(self).wf(),
            final(self).envs@.len() >= old(self).envs@.len(),
            stmt_rel(
                sp_exec_block(
                    old(self).stv(),
                    frame_view(environment),
                    stmts_view(statements@),
                    fuel as nat,
                ),
                r,
                final(self).stv(),
            ),
        decreases fuel, 4int,
    {
        let previous = self.environment;
        let newidx = self.envs.len();
        let ghost epre = self.envs@;
        self.envs.push(environment);
        self.environment = newidx;
        proof {
            assert(envs_view(self.envs@) =~= envs_view(epre).push(
                frame_view(self.envs@.last()),
            ));
        }
        let ghost whole = sp_block_body(self.stv(), stmts_view(statements@), fuel as nat, None);
        proof {
            lemma_stmts_view(statements@);
            assert(stmts_view(statements@).skip(0) =~= stmts_view(statements@));
        }
        let mut last: Option<Value> = None;
        let mut f: u64 = fuel;
        let mut k: usize = 0;
        loop
            invariant
                self.wf(),
                self.envs@.len() >= old(self).envs@.len(),
                previous < self.envs@.len(),
                k <= statements@.len(),
                f <= fuel,
                whole == sp_block_body(
                    self.stv(),
                    stmts_view(statements@).skip(k as int),
                    f as nat,
                    opt_value_view(last),
                ),
            decreases fuel - f + (statements@.len() - k), f,
        {
            if f == 0 {
                self.environment = previous;
                return Err(self.budget_error());
            }
            if k >= statements.len() {
                proof {
                    assert(stmts_view(statements@).skip(k as int) =~= Seq::<StmtV>::empty());
                }
                break;
            }
            proof {
                assert(stmts_view(statements@).skip(k as int)[0] == stmt_view(
                    statements@[k as int],
                ));
                assert(stmts_view(statements@).skip(k as int).drop_first() =~= stmts_view(
                    statements@,
                ).skip(k as int + 1));
            }
            match self.execute(&statements[k], f - 1) {
                Err(e) => {
                    self.environment = previous;
                    return Err(e);
                }
                Ok(Control::Return(v)) => {
                    self.environment = previous;
                    return Ok(Control::Return(v));
                }
                Ok(Control::Value(v)) => {
                    last = v;
                }
            }
            f = f - 1;
            k = k + 1;
        }
        self.environment = previous;
        Ok(Control::Value(last))
    }

    /// Conditional.
    fn exec_if(
        &mut self,
        condition: &Expr,
        then_branch: &Stmt,
        else_branch: &Option<Box<Stmt>>,
        fuel: u64,
    ) -> (r: Result<Control, VeonError>)
        requires
            old(self).wf(),
        ensures
            final(self).wf(),
            final(self).envs@.len() >= old(self).envs@.len(),
            stmt_rel(
                sp_exec_if(
                    old(self).stv(),
                    expr_view(*condition),
                    stmt_view(*then_branch),
                    opt_box_stmt_view(*else_branch),
                    fuel as nat,
                ),
                r,
                final(self).stv(),
            ),
        decreases fuel, 4int,
    {
        if fuel == 0 {
            return Err(self.budget_error());
        }
        let cv = match self.evaluate(condition, fuel - 1) {
            Ok(v) => v,
            Err(e) => {
                return Err(e);
            }
        };
        if self.is_truthy(&cv) {
            self.execute(then_branch, fuel - 1)
        } else {
            match else_branch {
                Some(b) => self.execute(b, fuel - 1),
                None => Ok(Control::Value(None)),
            }
        }
    }

    /// Loop.
    #[verifier::rlimit(100)]
    #[verifier::loop_isolation(false)]
    fn exec_while(&mut self, condition: &Expr, body: &Stmt, fuel: u64) -> (r: Result<
        Control,
        VeonError,
    >)
        requires
            old(self).wf(),
        ensures
            final(self).wf(),
            final(self).envs@.len() >= old(self).envs@.len(),
            stmt_rel(
                sp_while(old(self).stv(), expr_view(*condition), stmt_view(*body), fuel as nat, None),
                r,
                final(self).stv(),
            ),
        decreases fuel, 4int,
    {
        let ghost whole = sp_while(old(self).stv(), expr_view(*condition), stmt_view(*body), fuel as nat, None);
        let mut last: Option<Value> = None;
        let mut f: u64 = fuel;
        loop
            invariant
                self.wf(),
                self.envs@.len() >= old(self).envs@.len(),
                f <= fuel,
                whole == sp_while(
                    self.stv(),
                    expr_view(*condition),
                    stmt_view(*body),
                    f as nat,
                    opt_value_view(last),
                ),
            decreases f,
        {
            if f == 0 {
                return Err(self.budget_error());
            }
            let cv = match self.evaluate(condition, f - 1) {
                Ok(v) => v,
                Err(e) => {
                    return Err(e);
                }
            };
            if !self.is_truthy(&cv) {
                return Ok(Control::Value(last));
            }
            match self.execute(body, f - 1) {
                Err(e) => {
                    return Err(e);
                }
                Ok(Control::Return(v)) => {
                    return Ok(Control::Return(v));
                }
                Ok(Control::Value(v)) => {
                    last = v;
                }
            }
            f = f - 1;
        }
    }

    /// Function declaration: the closure is the current frame.
    fn exec_function(&mut self, name: &String, params: &Vec<String>, body: &Vec<Stmt>) -> (r:
        Result<Control, VeonError>)
        requires
            old(self).wf(),
        ensures
            final(self).wf(),
            final(self).envs@.len() >= old(self).envs@.len(),
            ({
                let st = old(self).stv();
                let fv = FunV {
                    name: name@,
                    params: strs_view(params@),
                    body: stmts_view(body@),
                    closure: st.cur,
                    is_initializer: false,
                };
                let st1 = StateV { funcs: st.funcs.push(fv), ..st };
                &&& final(self).stv() == st_define(
                    st1,
                    name@,
                    ValueV::Fun(st.funcs.len() as int),
                )
                &&& r matches Ok(c) && c matches Control::Value(x) && x is None
            }),
    {
        let fi = self.funcs.len();
        let func = VeonFunction {
            name: name.clone(),
            params: clone_strings(params),
            body: clone_stmts(body),
            closure: self.environment,
            is_initializer: false,
        };
        let ghost fpre = self.funcs@;
        self.funcs.push(func);
        proof {
            assert(funs_view(self.funcs@) =~= funs_view(fpre).push(fun_view(self.funcs@.last())));
        }
        let ghost pre = self.envs@;
        let idx = self.environment;
        self.envs[idx].define(name.clone(), Value::Function(fi));
        proof {
            assert(envs_view(self.envs@) =~= envs_view(pre).update(
                idx as int,
                frame_view(self.envs@[idx as int]),
            ));
        }
        Ok(Control::Value(None))
    }

    /// Return.
    fn exec_return(&mut self, e: &Option<Expr>, fuel: u64) -> (r: Result<Control, VeonError>)
        requires
            old(self).wf(),
        ensures
            final(self).wf(),
            final(self).envs@.len() >= old(self).envs@.len(),
            stmt_rel(
                sp_exec_return(old(self).stv(), opt_expr_view(*e), fuel as nat),
                r,
                final(self).stv(),
            ),
        decreases fuel, 4int,
    {
        match e {
            Some(expr) => match self.evaluate(expr, fuel) {
                Ok(v) => Ok(Control::Return(v)),
                Err(err) => Err(err),
            },
            None => Ok(Control::Return(Value::Null)),
        }
    }

    /// Class declaration: define the name, build the method table closing
    /// over the current frame, then assign the finished class back.
    #[verifier::rlimit(100)]
    #[verifier::loop_isolation(false)]
    fn exec_class(&mut self, name: &String, methods: &Vec<Stmt>) -> (r: Result<
        Control,
        VeonError,
    >)
        requires
            old(self).wf(),
        ensures
            final(self).wf(),
            final(self).envs@.len() >= old(self).envs@.len(),
            ({
                let st = old(self).stv();
                let st1 = st_define(st, name@, ValueV::Null);
                let c = ClassV { name: name@, methods: sp_methods(stmts_view(methods@), st1.cur) };
                let ci = st1.classes.len() as int;
                let st2 = StateV { classes: st1.classes.push(c), ..st1 };
                match assign_in(st2.frames, st2.cur, name@, ValueV::Class(ci)) {
                    Some(frames) => final(self).stv() == (StateV { frames, ..st2 }) && (
                    r matches Ok(c2) && c2 matches Control::Value(x) && x is None),
                    None => final(self).stv() == st2 && (r matches Err(e) && eval_err_is(
                        e,
                        undef_var_err(name@),
                    )),
                }
            }),
    {
        let ghost pre = self.envs@;
        let idx = self.environment;
        self.envs[idx].define(name.clone(), Value::Null);
        proof {
            assert(envs_view(self.envs@) =~= envs_view(pre).update(
                idx as int,
                frame_view(self.envs@[idx as int]),
            ));
        }
        let mut table: Vec<(String, VeonFunction)> = Vec::new();
        let mut k: usize = 0;
        proof {
            assert(methods_view(table@) =~= Seq::<(Seq<char>, FunV)>::empty());
            assert(stmts_view(methods@).take(0) =~= Seq::<StmtV>::empty());
            lemma_stmts_view(methods@);
        }
        while k < methods.len()
            invariant
                k <= methods@.len(),
                methods_view(table@) =~= sp_methods(
                    stmts_view(methods@).take(k as int),
                    self.environment as int,
                ),
            decreases methods@.len() - k,
        {
            proof {
                assert(stmts_view(methods@).take(k as int + 1).drop_last() =~= stmts_view(
                    methods@,
                ).take(k as int));
                assert(stmts_view(methods@).take(k as int + 1).last() == stmt_view(
                    methods@[k as int],
                ));
            }
            match &methods[k] {
                Stmt::Function { name: mname, params, body } => {
                    let is_initializer = str_eq(mname.as_str(), "init");
                    let func = VeonFunction {
                        name: mname.clone(),
                        params: clone_strings(params),
                        body: clone_stmts(body),
                        closure: self.environment,
                        is_initializer,
                    };
                    let ghost tpre = table@;
                    table.push((mname.clone(), func));
                    proof {
                        assert(methods_view(table@) =~= methods_view(tpre).push(
                            (table@.last().0@, fun_view(table@.last().1)),
                        ));
                    }
                }
                _ => {}
            }
            k = k + 1;
        }
        proof {
            assert(stmts_view(methods@).take(stmts_view(methods@).len() as int) =~= stmts_view(
                methods@,
            ));
        }
        let ci = self.classes.len();
        let ghost cpre = self.classes@;
        self.classes.push(VeonClass { name: name.clone(), methods: table });
        proof {
            assert(classes_view(self.classes@) =~= classes_view(cpre).push(
                class_view(self.classes@.last()),
            ));
        }
        match Environment::assign(&mut self.envs, self.environment, name.as_str(), Value::Class(ci))
        {
            Ok(_) => Ok(Control::Value(None)),
            Err(e) => Err(e),
        }
    }

    /// Runs a program: statements in order, a top-level `return` yielding
    /// the program value, otherwise the last statement's value; exactly as
    /// [`sp_interpret`] says, with the budget [`EVAL_BUDGET`].
    #[verifier::rlimit(100)]
    #[verifier::loop_isolation(false)]
    pub fn interpret(&mut self, statements: &[Stmt]) -> (r: Result<Option<Value>, VeonError>)
        requires
            old(self).wf(),
        ensures
            final(self).wf(),
            final(self).envs@.len() >= old(self).envs@.len(),
            prog_rel(
                sp_interpret(old(self).stv(), stmts_view(statements@), EVAL_BUDGET as nat, None),
                r,
                final(self).stv(),
            ),
    {
        let ghost whole = sp_interpret(
            old(self).stv(),
            stmts_view(statements@),
            EVAL_BUDGET as nat,
            None,
        );
        proof {
            lemma_stmts_view(statements@);
            assert(stmts_view(statements@).skip(0) =~= stmts_view(statements@));
        }
        let mut last: Option<Value> = None;
        let mut f: u64 = EVAL_BUDGET;
        let mut k: usize = 0;
        loop
            invariant
                self.wf(),
                self.envs@.len() >= old(self).envs@.len(),
                k <= statements@.len(),
                whole == sp_interpret(
                    self.stv(),
                    stmts_view(statements@).skip(k as int),
                    f as nat,
                    opt_value_view(last),
                ),
            decreases (EVAL_BUDGET - f) + (statements@.len() - k), f,
        {
            if f == 0 {
                return Err(self.budget_error());
            }
            if k >= statements.len() {
                proof {
                    assert(statements@.skip(k as int) =~= Seq::<Stmt>::empty());
                }
                return Ok(last);
            }
            proof {
                assert(stmts_view(statements@).skip(k as int)[0] == stmt_view(
                    statements@[k as int],
                ));
                assert(stmts_view(statements@).skip(k as int).drop_first() =~= stmts_view(
                    statements@,
                ).skip(k as int + 1));
            }
            match self.execute(&statements[k], f - 1) {
                Err(e) => {
                    return Err(e);
                }
                Ok(Control::Return(v)) => {
                    return Ok(Some(v));
                }
                Ok(Control::Value(v)) => {
                    last = v;
                }
            }
            f = f - 1;
            k = k + 1;
        }
    }
}

} // verus!
