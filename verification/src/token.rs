//! Tokens and runtime values, together with their mathematical views.
//!
//! A runtime [`Value`] is either a plain datum (integer, string, boolean,
//! array, null, or the "no value" sentinel) or a handle into one of the
//! interpreter's arenas (function, class, instance).  Its view [`ValueV`]
//! replaces strings by character sequences and arrays by sequences, so that
//! spec-level equality of views is exactly the language's `==`: structural on
//! data, identity (arena handle) on functions, classes and instances.

use vstd::prelude::*;

verus! {

broadcast use vstd::seq::group_seq_axioms, vstd::std_specs::vec::group_vec_axioms;

/// The kind of a lexical token.
#[derive(Clone, Copy, PartialEq, Eq, Structural, Debug)]
pub enum TokenType {
    LeftParen,
    RightParen,
    LeftBrace,
    RightBrace,
    LeftBracket,
    RightBracket,
    Comma,
    Semicolon,
    Dot,
    Fun,
    Let,
    Class,
    This,
    If,
    Else,
    While,
    For,
    Return,
    And,
    Or,
    Identifier,
    Boolean,
    Number,
    String,
    Null,
    Plus,
    Minus,
    Star,
    Slash,
    QuestionMark,
    Greater,
    GreaterEqual,
    Less,
    LessEqual,
    Equal,
    EqualEqual,
    Modulo,
    Not,
    NotEqual,
    Eof,
}

/// A runtime value.  `Function`, `Class` and `Instance` carry indices into
/// the interpreter's arenas; `Void` is the sentinel for "no value produced".
#[derive(Debug)]
pub enum Value {
    String(String),
    Number(i64),
    Boolean(bool),
    Array(Vec<Value>),
    Function(usize),
    Class(usize),
    Instance(usize),
    Null,
    Void,
}

/// The mathematical view of a [`Value`].  `Void` stands for `Value::Void`.
#[verifier::ext_equal]
pub enum ValueV {
    Str(Seq<char>),
    Num(i64),
    Bool(bool),
    Arr(Seq<ValueV>),
    Fun(int),
    Class(int),
    Inst(int),
    Null,
    Void,
}

/// The view of a value: strings become character sequences, arrays become
/// sequences of views, arena handles become their indices.
pub open spec fn value_view(v: Value) -> ValueV
    decreases v,
{
    match v {
        Value::String(s) => ValueV::Str(s@),
        Value::Number(n) => ValueV::Num(n),
        Value::Boolean(b) => ValueV::Bool(b),
        Value::Array(items) => ValueV::Arr(values_view(items@)),
        Value::Function(i) => ValueV::Fun(i as int),
        Value::Class(i) => ValueV::Class(i as int),
        Value::Instance(i) => ValueV::Inst(i as int),
        Value::Null => ValueV::Null,
        Value::Void => ValueV::Void,
    }
}

/// Elementwise view of a sequence of values.
pub open spec fn values_view(s: Seq<Value>) -> Seq<ValueV>
    decreases s,
{
    if s.len() == 0 {
        Seq::empty()
    } else {
        values_view(s.subrange(0, s.len() - 1)).push(value_view(s[s.len() - 1]))
    }
}

/// `values_view` maps the sequence pointwise.
pub proof fn lemma_values_view(s: Seq<Value>)
    ensures
        values_view(s).len() == s.len(),
        forall|i: int| 0 <= i < s.len() ==> #[trigger] values_view(s)[i] == value_view(s[i]),
    decreases s.len(),
{
    if s.len() > 0 {
        lemma_values_view(s.subrange(0, s.len() - 1));
        assert forall|i: int| 0 <= i < s.len() implies #[trigger] values_view(s)[i] == value_view(
            s[i],
        ) by {
            if i < s.len() - 1 {
                assert(s.subrange(0, s.len() - 1)[i] == s[i]);
            }
        }
    }
}

/// Truthiness: `false`, null, the sentinel, zero, the empty string and the
/// empty array are falsy; everything else is truthy.
pub open spec fn truthy(v: ValueV) -> bool {
    match v {
        ValueV::Bool(b) => b,
        ValueV::Null => false,
        ValueV::Void => false,
        ValueV::Num(n) => n != 0,
        ValueV::Str(s) => s.len() > 0,
        ValueV::Arr(items) => items.len() > 0,
        ValueV::Fun(_) => true,
        ValueV::Class(_) => true,
        ValueV::Inst(_) => true,
    }
}

/// A lexical token: its kind, its literal payload (`Value::Void` for kinds
/// that carry none), and its 1-based source line.
#[derive(Debug)]
pub struct Token {
    pub tty: TokenType,
    pub value: Value,
    pub line: usize,
}

/// The mathematical view of a [`Token`].
pub struct TokenV {
    pub tty: TokenType,
    pub value: ValueV,
    pub line: nat,
}

/// The view of a token.
pub open spec fn token_view(t: Token) -> TokenV {
    TokenV { tty: t.tty, value: value_view(t.value), line: t.line as nat }
}

/// Elementwise view of a token sequence.
pub open spec fn tokens_view(s: Seq<Token>) -> Seq<TokenV> {
    Seq::new(s.len(), |i: int| token_view(s[i]))
}

/// String equality.
/// Relies on `str`'s `==` (`str::eq`): two string slices are equal exactly
/// when their character sequences are.
#[verifier::external_body]
pub fn str_eq(a: &str, b: &str) -> (r: bool)
    ensures
        r == (a@ == b@),
{
    a == b
}

/// Structural size of a value, used as a termination measure.
pub open spec fn value_size(v: Value) -> nat
    decreases v,
{
    match v {
        Value::Array(items) => 1 + values_size(items@),
        _ => 1,
    }
}

/// Total structural size of a sequence of values.
pub open spec fn values_size(s: Seq<Value>) -> nat
    decreases s,
{
    if s.len() == 0 {
        0
    } else {
        values_size(s.subrange(0, s.len() - 1)) + value_size(s[s.len() - 1])
    }
}

/// An element weighs no more than the whole sequence.
pub proof fn lemma_values_size_element(s: Seq<Value>, i: int)
    requires
        0 <= i < s.len(),
    ensures
        value_size(s[i]) <= values_size(s),
    decreases s.len(),
{
    if i == s.len() - 1 {
    } else {
        lemma_values_size_element(s.subrange(0, s.len() - 1), i);
        assert(s.subrange(0, s.len() - 1)[i] == s[i]);
    }
}

/// Structural clone of a value: the result has the same view.
#[verifier::loop_isolation(false)]
pub fn clone_value(v: &Value) -> (r: Value)
    ensures
        value_view(r) == value_view(*v),
    decreases value_size(*v),
{
    match v {
        Value::String(s) => Value::String(s.clone()),
        Value::Number(n) => Value::Number(*n),
        Value::Boolean(b) => Value::Boolean(*b),
        Value::Array(items) => {
            let mut out: Vec<Value> = Vec::new();
            let mut j: usize = 0;
            while j < items.len()
                invariant
                    j <= items.len(),
                    out@.len() == j as int,
                    forall|k: int|
                        0 <= k < j ==> value_view(out@[k]) == value_view(#[trigger] items@[k]),
                decreases items.len() - j,
            {
                proof {
                    lemma_values_size_element(items@, j as int);
                }
                let e = clone_value(&items[j]);
                out.push(e);
                j = j + 1;
            }
            proof {
                lemma_values_view(out@);
                lemma_values_view(items@);
                assert(values_view(out@) =~= values_view(items@));
            }
            Value::Array(out)
        }
        Value::Function(i) => Value::Function(*i),
        Value::Class(i) => Value::Class(*i),
        Value::Instance(i) => Value::Instance(*i),
        Value::Null => Value::Null,
        Value::Void => Value::Void,
    }
}

/// Language equality of two values: equality of their views, which is
/// structural on data and handle-identity on functions, classes, instances.
#[verifier::loop_isolation(false)]
pub fn value_eq(a: &Value, b: &Value) -> (r: bool)
    ensures
        r == (value_view(*a) == value_view(*b)),
    decreases value_size(*a),
{
    match (a, b) {
        (Value::String(x), Value::String(y)) => *x == *y,
        (Value::Number(x), Value::Number(y)) => *x == *y,
        (Value::Boolean(x), Value::Boolean(y)) => *x == *y,
        (Value::Array(x), Value::Array(y)) => {
            proof {
                lemma_values_view(x@);
                lemma_values_view(y@);
            }
            if x.len() != y.len() {
                return false;
            }
            let mut j: usize = 0;
            while j < x.len()
                invariant
                    j <= x@.len(),
                    x@.len() == y@.len(),
                    forall|k: int|
                        0 <= k < j ==> value_view(#[trigger] x@[k]) == value_view(y@[k]),
                    values_view(x@).len() == x@.len(),
                    values_view(y@).len() == y@.len(),
                    forall|k: int|
                        0 <= k < x@.len() ==> values_view(x@)[k] == value_view(#[trigger] x@[k]),
                    forall|k: int|
                        0 <= k < y@.len() ==> values_view(y@)[k] == value_view(#[trigger] y@[k]),
                decreases x@.len() - j,
            {
                proof {
                    lemma_values_size_element(x@, j as int);
                }
                if !value_eq(&x[j], &y[j]) {
                    proof {
                        assert(values_view(x@)[j as int] != values_view(y@)[j as int]);
                    }
                    return false;
                }
                j = j + 1;
            }
            proof {
                assert(values_view(x@) =~= values_view(y@));
            }
            true
        }
        (Value::Function(x), Value::Function(y)) => *x == *y,
        (Value::Class(x), Value::Class(y)) => *x == *y,
        (Value::Instance(x), Value::Instance(y)) => *x == *y,
        (Value::Null, Value::Null) => true,
        (Value::Void, Value::Void) => true,
        _ => false,
    }
}

impl PartialEq for Value {
    /// Language equality, so that tests may compare values with `==`.
    fn eq(&self, other: &Value) -> (r: bool) {
        value_eq(self, other)
    }
}

impl vstd::std_specs::cmp::PartialEqSpecImpl for Value {
    open spec fn obeys_eq_spec() -> bool {
        true
    }

    open spec fn eq_spec(&self, other: &Value) -> bool {
        value_view(*self) == value_view(*other)
    }
}

} // verus!
