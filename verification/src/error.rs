//! Error types for the three pipeline stages.
//!
//! Each stage reports a record of a kind tag and a human-readable message.
//! The `render` methods produce the `[<KindTag>:<message>]` form that the
//! command-line driver prints; their contracts fix the exact character
//! sequence produced.

use vstd::prelude::*;
use vstd::string::StringExecFns;

verus! {

/// Kind tags for parser errors.
#[derive(Clone, Copy, PartialEq, Eq, Structural, Debug)]
pub enum ParserErrorType {
    InvalidExpression,
}

/// Kind tags for lexer errors.
#[derive(Clone, Copy, PartialEq, Eq, Structural, Debug)]
pub enum ScannerErrorType {
    InvalidToken,
}

/// Kind tags for evaluation errors.
#[derive(Clone, Copy, PartialEq, Eq, Structural, Debug)]
pub enum EvaluationErrorType {
    DivideByZero,
    InvalidOperation,
    InvalidTypeOperation,
}

/// A parser error: kind and message.
#[derive(Debug)]
pub struct ParserError {
    pub msg: String,
    pub tty: ParserErrorType,
}

/// A lexer error: kind and message.
#[derive(Debug)]
pub struct ScannerError {
    pub msg: String,
    pub tty: ScannerErrorType,
}

/// An evaluation error: kind and message.
#[derive(Debug)]
pub struct EvaluationError {
    pub msg: String,
    pub tty: EvaluationErrorType,
}

/// Any error of the pipeline.
#[derive(Debug)]
pub enum VeonError {
    ParserError(ParserError),
    ScannerError(ScannerError),
    EvaluationError(EvaluationError),
}

/// The tag text of a parser error kind.
pub open spec fn parser_tag(t: ParserErrorType) -> Seq<char> {
    "InvalidExpression"@
}

/// The tag text of a lexer error kind.
pub open spec fn scanner_tag(t: ScannerErrorType) -> Seq<char> {
    "InvalidToken"@
}

/// The tag text of an evaluation error kind.
pub open spec fn evaluation_tag(t: EvaluationErrorType) -> Seq<char> {
    match t {
        EvaluationErrorType::DivideByZero => "DivideByZero"@,
        EvaluationErrorType::InvalidOperation => "InvalidOperation"@,
        EvaluationErrorType::InvalidTypeOperation => "InvalidTypeOperation"@,
    }
}

/// `[<tag>:<msg>]`
pub open spec fn bracket_form(tag: Seq<char>, msg: Seq<char>) -> Seq<char> {
    "["@ + tag + ":"@ + msg + "]"@
}

impl ParserErrorType {
    /// The tag text, as a string.
    pub fn tag(&self) -> (r: String)
        ensures
            r@ == parser_tag(*self),
    {
        String::from_str("InvalidExpression")
    }
}

impl ScannerErrorType {
    /// The tag text, as a string.
    pub fn tag(&self) -> (r: String)
        ensures
            r@ == scanner_tag(*self),
    {
        String::from_str("InvalidToken")
    }
}

impl EvaluationErrorType {
    /// The tag text, as a string.
    pub fn tag(&self) -> (r: String)
        ensures
            r@ == evaluation_tag(*self),
    {
        match self {
            EvaluationErrorType::DivideByZero => String::from_str("DivideByZero"),
            EvaluationErrorType::InvalidOperation => String::from_str("InvalidOperation"),
            EvaluationErrorType::InvalidTypeOperation => String::from_str("InvalidTypeOperation"),
        }
    }
}

/// Builds `[<tag>:<msg>]`.
fn render_bracket(tag: String, msg: &String) -> (r: String)
    ensures
        r@ == bracket_form(tag@, msg@),
{
    let mut out = String::from_str("[");
    out.append(tag.as_str());
    out.append(":");
    out.append(msg.as_str());
    out.append("]");
    out
}

impl ParserError {
    /// `[<tag>:<msg>]`, as printed by the driver.
    pub fn render(&self) -> (r: String)
        ensures
            r@ == bracket_form(parser_tag(self.tty), self.msg@),
    {
        render_bracket(self.tty.tag(), &self.msg)
    }
}

impl ScannerError {
    /// `[<tag>:<msg>]`, as printed by the driver.
    pub fn render(&self) -> (r: String)
        ensures
            r@ == bracket_form(scanner_tag(self.tty), self.msg@),
    {
        render_bracket(self.tty.tag(), &self.msg)
    }
}

impl EvaluationError {
    /// `[<tag>:<msg>]`, as printed by the driver.
    pub fn render(&self) -> (r: String)
        ensures
            r@ == bracket_form(evaluation_tag(self.tty), self.msg@),
    {
        render_bracket(self.tty.tag(), &self.msg)
    }
}

/// The view of a whole-pipeline error: the rendered text it stands for.
pub open spec fn veon_error_text(e: VeonError) -> Seq<char> {
    match e {
        VeonError::ParserError(p) => "Error while parsing: "@ + bracket_form(
            parser_tag(p.tty),
            p.msg@,
        ),
        VeonError::ScannerError(s) => "Error while scanning: "@ + bracket_form(
            scanner_tag(s.tty),
            s.msg@,
        ),
        VeonError::EvaluationError(v) => "Error while evaluating: "@ + bracket_form(
            evaluation_tag(v.tty),
            v.msg@,
        ),
    }
}

impl VeonError {
    /// The full error line the driver prints on the error stream.
    pub fn render(&self) -> (r: String)
        ensures
            r@ == veon_error_text(*self),
    {
        match self {
            VeonError::ParserError(p) => {
                let mut out = String::from_str("Error while parsing: ");
                let inner = p.render();
                out.append(inner.as_str());
                out
            }
            VeonError::ScannerError(s) => {
                let mut out = String::from_str("Error while scanning: ");
                let inner = s.render();
                out.append(inner.as_str());
                out
            }
            VeonError::EvaluationError(v) => {
                let mut out = String::from_str("Error while evaluating: ");
                let inner = v.render();
                out.append(inner.as_str());
                out
            }
        }
    }
}

} // verus!
