//! General laws of the language, stated and proved against the models.

use vstd::prelude::*;

use crate::parser::{ExprV, StmtV};
use crate::scanner::{spec_scan, ScanOut};
use crate::semantics::{
    assign_in, assoc_get, lookup_in, params_pairs, sp_eval, sp_eval_logical, sp_exec_block,
    sp_interpret, ExprOut, FrameV, FunV, ProgOut, StateV,
};
use crate::token::{truthy, TokenType, TokenV, ValueV};

verus! {

broadcast use vstd::seq::group_seq_axioms;

/// Tokenization is total: for every finite input the model yields either a
/// token sequence ending in exactly one `Eof`, or a single error.  (The
/// executable lexer terminates on every input: each of its loops strictly
/// advances through the source.)
pub proof fn lemma_single_eof(src: Seq<char>, i: int, line: nat, acc: Seq<TokenV>)
    requires
        forall|k: int| 0 <= k < acc.len() ==> (#[trigger] acc[k].tty) != TokenType::Eof,
    ensures
        (match spec_scan(src, i, line, acc) {
            ScanOut::Toks(tv) => tv.len() >= 1 && tv[tv.len() - 1].tty == TokenType::Eof
                && (forall|k: int| 0 <= k < tv.len() - 1 ==> (#[trigger] tv[k].tty) != TokenType::Eof),
            ScanOut::Fail(_) => true,
        }),
    decreases src.len() - i, 2int,
{
    if i < 0 || i >= src.len() {
    } else {
        lemma_single_eof_step(src, i, line, acc);
    }
}

/// The inductive step of [`lemma_single_eof`], peeling one token.
proof fn lemma_single_eof_step(src: Seq<char>, i: int, line: nat, acc: Seq<TokenV>)
    requires
        0 <= i < src.len(),
        forall|k: int| 0 <= k < acc.len() ==> (#[trigger] acc[k].tty) != TokenType::Eof,
    ensures
        (match spec_scan(src, i, line, acc) {
            ScanOut::Toks(tv) => tv.len() >= 1 && tv[tv.len() - 1].tty == TokenType::Eof
                && (forall|k: int| 0 <= k < tv.len() - 1 ==> (#[trigger] tv[k].tty) != TokenType::Eof),
            ScanOut::Fail(_) => true,
        }),
    decreases src.len() - i, 1int,
{
    let c = src[i];
    if c == '"' {
        let k = crate::scanner::string_end(src, i + 1);
        if k < src.len() {
            crate::scanner::lemma_string_end_bounds(src, i + 1);
            let nl = line + crate::scanner::count_lines(src, i + 1, k);
            let t = TokenV {
                tty: TokenType::String,
                value: ValueV::Str(src.subrange(i + 1, k)),
                line: nl,
            };
            lemma_push_non_eof(acc, t);
            lemma_single_eof(src, k + 1, nl, acc.push(t));
        }
    } else if crate::numbers::is_digit(c) {
        let j = crate::scanner::number_end(src, i + 1);
        crate::scanner::lemma_number_end_bounds(src, i + 1);
        let text = src.subrange(i, j);
        if !(crate::numbers::digits_val(text) > i64::MAX) {
            let t = TokenV {
                tty: TokenType::Number,
                value: ValueV::Num(crate::numbers::digits_val(text) as i64),
                line,
            };
            lemma_push_non_eof(acc, t);
            lemma_single_eof(src, j, line, acc.push(t));
        }
    } else if crate::scanner::is_alpha(c) {
        let j = crate::scanner::ident_end(src, i + 1);
        crate::scanner::lemma_ident_end_bounds(src, i + 1);
        let text = src.subrange(i, j);
        let t0 = crate::scanner::ident_token(text);
        let t = TokenV { tty: t0.tty, value: t0.value, line };
        lemma_push_non_eof(acc, t);
        lemma_single_eof(src, j, line, acc.push(t));
    } else if c == '/' && i + 1 < src.len() && src[i + 1] == '/' {
        crate::scanner::lemma_comment_end_bounds(src, i + 2);
        lemma_single_eof(src, crate::scanner::comment_end(src, i + 2), line, acc);
    } else if c == '\n' {
        lemma_single_eof(src, i + 1, line + 1, acc);
    } else if c == ' ' || c == '\r' || c == '\t' {
        lemma_single_eof(src, i + 1, line, acc);
    } else {
        lemma_two_char(src, i, line, acc);
    }
}

/// The single- and double-character operator cases of the scan step.
proof fn lemma_two_char(src: Seq<char>, i: int, line: nat, acc: Seq<TokenV>)
    requires
        0 <= i < src.len(),
        forall|k: int| 0 <= k < acc.len() ==> (#[trigger] acc[k].tty) != TokenType::Eof,
        src[i] != '"',
        !crate::numbers::is_digit(src[i]),
        !crate::scanner::is_alpha(src[i]),
        src[i] != '\n',
        src[i] != ' ',
        src[i] != '\r',
        src[i] != '\t',
        !(src[i] == '/' && i + 1 < src.len() && src[i + 1] == '/'),
    ensures
        (match spec_scan(src, i, line, acc) {
            ScanOut::Toks(tv) => tv.len() >= 1 && tv[tv.len() - 1].tty == TokenType::Eof
                && (forall|k: int| 0 <= k < tv.len() - 1 ==> (#[trigger] tv[k].tty) != TokenType::Eof),
            ScanOut::Fail(_) => true,
        }),
    decreases src.len() - i, 0int,
{
    let c = src[i];
    if c == '(' || c == ')' || c == '{' || c == '}' || c == '[' || c == ']' || c == ',' || c == ';'
        || c == '.' || c == '+' || c == '-' || c == '*' || c == '/' || c == '%' || c == '?' {
        match spec_scan(src, i, line, acc) {
            ScanOut::Toks(_) => {
                let t = spec_scan_first_tok(src, i, line);
                lemma_push_non_eof(acc, t);
                lemma_single_eof(src, i + 1, line, acc.push(t));
            },
            ScanOut::Fail(_) => {},
        }
    } else if c == '>' || c == '<' || c == '=' || c == '!' {
        let t = spec_scan_first_tok(src, i, line);
        lemma_push_non_eof(acc, t);
        if i + 1 < src.len() && src[i + 1] == '=' {
            lemma_single_eof(src, i + 2, line, acc.push(t));
        } else {
            lemma_single_eof(src, i + 1, line, acc.push(t));
        }
    } else {
    }
}

/// The (non-`Eof`) token a scan step pushes for an operator character.
pub open spec fn spec_scan_first_tok(src: Seq<char>, i: int, line: nat) -> TokenV {
    let c = src[i];
    let two = i + 1 < src.len() && src[i + 1] == '=';
    let tty = if c == '(' {
        TokenType::LeftParen
    } else if c == ')' {
        TokenType::RightParen
    } else if c == '{' {
        TokenType::LeftBrace
    } else if c == '}' {
        TokenType::RightBrace
    } else if c == '[' {
        TokenType::LeftBracket
    } else if c == ']' {
        TokenType::RightBracket
    } else if c == ',' {
        TokenType::Comma
    } else if c == ';' {
        TokenType::Semicolon
    } else if c == '.' {
        TokenType::Dot
    } else if c == '+' {
        TokenType::Plus
    } else if c == '-' {
        TokenType::Minus
    } else if c == '*' {
        TokenType::Star
    } else if c == '/' {
        TokenType::Slash
    } else if c == '%' {
        TokenType::Modulo
    } else if c == '?' {
        TokenType::QuestionMark
    } else if c == '>' {
        if two {
            TokenType::GreaterEqual
        } else {
            TokenType::Greater
        }
    } else if c == '<' {
        if two {
            TokenType::LessEqual
        } else {
            TokenType::Less
        }
    } else if c == '=' {
        if two {
            TokenType::EqualEqual
        } else {
            TokenType::Equal
        }
    } else {
        if two {
            TokenType::NotEqual
        } else {
            TokenType::Not
        }
    };
    TokenV { tty, value: ValueV::Void, line }
}

/// Keyword classification never yields `Eof`, so every pushed token is a
/// proper token.
proof fn lemma_push_non_eof(acc: Seq<TokenV>, t: TokenV)
    requires
        forall|k: int| 0 <= k < acc.len() ==> (#[trigger] acc[k].tty) != TokenType::Eof,
        t.tty != TokenType::Eof,
    ensures
        forall|k: int|
            0 <= k < acc.push(t).len() ==> (#[trigger] acc.push(t)[k].tty) != TokenType::Eof,
{
}

/// Short-circuit: in `a or b` and `a and b`, when the left operand alone
/// decides the result, the outcome is the left value, the state is the
/// state after the left operand, and the right operand plays no part: any
/// two right operands give the same result.
pub proof fn lemma_short_circuit(st: StateV, l: ExprV, op: TokenType, r1: ExprV, r2: ExprV, fuel: nat)
    requires
        op == TokenType::Or || op == TokenType::And,
        ({
            match sp_eval(st, l, fuel) {
                (st1, ExprOut::Val(lv)) => if op == TokenType::Or {
                    truthy(lv)
                } else {
                    !truthy(lv)
                },
                _ => false,
            }
        }),
    ensures
        sp_eval_logical(st, l, op, r1, fuel) == sp_eval_logical(st, l, op, r2, fuel),
        sp_eval_logical(st, l, op, r1, fuel) == ({
            let (st1, o) = sp_eval(st, l, fuel);
            (st1, o)
        }),
{
}

/// Assignment does not shadow: a successful assignment leaves every frame's
/// name set unchanged (it only re-binds a name where it was already bound),
/// keeps every enclosing link, and keeps the number of frames.
pub proof fn lemma_assign_no_shadow(frames: Seq<FrameV>, i: int, name: Seq<char>, v: ValueV)
    requires
        assign_in(frames, i, name, v) is Some,
    ensures
        ({
            let frames2 = assign_in(frames, i, name, v)->Some_0;
            &&& frames2.len() == frames.len()
            &&& forall|k: int|
                0 <= k < frames.len() ==> (#[trigger] frames2[k].enclosing) == frames[k].enclosing
            &&& forall|k: int, n: Seq<char>|
                0 <= k < frames.len() ==> ((#[trigger] assoc_get(frames2[k].vars, n)) is Some
                    <==> assoc_get(frames[k].vars, n) is Some)
        }),
    decreases i,
{
    let frames2 = assign_in(frames, i, name, v)->Some_0;
    if 0 <= i < frames.len() {
        if assoc_get(frames[i].vars, name) is Some {
            assert forall|k: int, n: Seq<char>|
                0 <= k < frames.len() implies ((#[trigger] assoc_get(frames2[k].vars, n)) is Some
                <==> assoc_get(frames[k].vars, n) is Some) by {
                if k == i {
                    lemma_assoc_push(frames[i].vars, name, v, n);
                }
            }
        } else {
            match frames[i].enclosing {
                Some(j) => {
                    if 0 <= j < i {
                        lemma_assign_no_shadow(frames, j, name, v);
                    }
                },
                None => {},
            }
        }
    }
}

/// Pushing a binding re-binds exactly that name.
proof fn lemma_assoc_push(s: Seq<(Seq<char>, ValueV)>, name: Seq<char>, v: ValueV, n: Seq<char>)
    ensures
        assoc_get(s.push((name, v)), n) == if n == name {
            Some(v)
        } else {
            assoc_get(s, n)
        },
{
    assert(s.push((name, v)).drop_last() =~= s);
}

/// Appending frames never changes what an existing chain resolves.
pub proof fn lemma_lookup_push(frames: Seq<FrameV>, extra: FrameV, i: int, name: Seq<char>)
    requires
        i < frames.len(),
    ensures
        lookup_in(frames.push(extra), i, name) == lookup_in(frames, i, name),
    decreases i,
{
    if 0 <= i {
        match frames[i].enclosing {
            Some(j) => {
                if 0 <= j < i {
                    lemma_lookup_push(frames, extra, j, name);
                }
            },
            None => {},
        }
    }
}

/// Closure capture: calling a function enters a frame that encloses the
/// function's captured frame, and any name not rebound by a parameter
/// resolves there exactly as it does from the captured frame, regardless of
/// how long ago that frame's block completed.
pub proof fn lemma_closure_capture(st: StateV, f: FunV, args: Seq<ValueV>, name: Seq<char>, fuel: nat)
    requires
        0 <= f.closure < st.frames.len(),
        args.len() == f.params.len(),
        assoc_get(params_pairs(f.params, args), name) is None,
    ensures
        ({
            let frame = FrameV { vars: params_pairs(f.params, args), enclosing: Some(f.closure) };
            let st1 = StateV {
                frames: st.frames.push(frame),
                cur: st.frames.len() as int,
                ..st
            };
            lookup_in(st1.frames, st1.cur, name) == lookup_in(st.frames, f.closure, name)
        }),
{
    let frame = FrameV { vars: params_pairs(f.params, args), enclosing: Some(f.closure) };
    lemma_lookup_push(st.frames, frame, f.closure, name);
}

/// Scope isolation, at block entry and exit: inside a fresh block frame
/// every name initially resolves exactly as it did outside, and whatever
/// the block's statements do, the interpreter leaves the block with the
/// outer frame current again, so the block's own bindings are no longer
/// reachable.
pub proof fn lemma_scope_isolation(st: StateV, ss: Seq<StmtV>, fuel: nat, name: Seq<char>)
    requires
        0 <= st.cur < st.frames.len(),
    ensures
        ({
            let frame = FrameV { vars: Seq::empty(), enclosing: Some(st.cur) };
            let st1 = StateV {
                frames: st.frames.push(frame),
                cur: st.frames.len() as int,
                ..st
            };
            lookup_in(st1.frames, st1.cur, name) == lookup_in(st.frames, st.cur, name)
        }),
        sp_exec_block(
            st,
            FrameV { vars: Seq::empty(), enclosing: Some(st.cur) },
            ss,
            fuel,
        ).0.cur == st.cur,
{
    let frame = FrameV { vars: Seq::empty(), enclosing: Some(st.cur) };
    lemma_lookup_push(st.frames, frame, st.cur, name);
}

/// Determinism: the outcome of a run is a mathematical function of the
/// program and the starting state, so the same offending program produces
/// the same error kind (and message) on every run; in particular two
/// interpreters started alike agree exactly.
pub proof fn lemma_run_deterministic(
    st1: StateV,
    st2: StateV,
    ss1: Seq<StmtV>,
    ss2: Seq<StmtV>,
    fuel: nat,
)
    requires
        st1 == st2,
        ss1 == ss2,
    ensures
        sp_interpret(st1, ss1, fuel, None) == sp_interpret(st2, ss2, fuel, None),
        (match (sp_interpret(st1, ss1, fuel, None).1, sp_interpret(st2, ss2, fuel, None).1) {
            (ProgOut::Fault(e1), ProgOut::Fault(e2)) => e1.tty == e2.tty && e1.msg == e2.msg,
            (ProgOut::Done(v1), ProgOut::Done(v2)) => v1 == v2,
            _ => true,
        }),
{
}

} // verus!
