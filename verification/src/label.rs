//! Provenance labels and annotation text.
//!
//! The classifier derives a short label from the shape of the expression a
//! fallible marker wraps: method invocations and plain-path calls get their
//! name back, bare paths are printed as written, and every other shape
//! collapses to one fixed generic label. The annotation attached on the
//! failure path is the label followed by the source file and the 1-based
//! line of the marker token.

use vstd::prelude::*;
use vstd::string::StrSliceExecFns;
use vstd::string::StringExecFns;
use crate::ast::Expr;
use crate::ast::SpecExpr;
use crate::ast::views_of_exprs;
use crate::ast::lemma_views_len;
use crate::ast::view_of_expr;

verus! {

/// The fixed label used for every expression shape the classifier does not
/// specifically recognize.
pub open spec fn generic_label() -> Seq<char> {
    "(.. some expr ..)"@
}

/// The suffix a call-shaped label carries: `()` without arguments, `(..)`
/// with at least one argument.
pub open spec fn spec_args_suffix(n_args: nat) -> Seq<char> {
    if n_args == 0 {
        "()"@
    } else {
        "(..)"@
    }
}

/// A path rendered as written in source: its segments joined by `::`.
pub open spec fn spec_join_path(segments: Seq<Seq<char>>) -> Seq<char>
    decreases segments,
{
    if segments.len() == 0 {
        Seq::empty()
    } else if segments.len() == 1 {
        segments[0]
    } else {
        segments[0] + "::"@ + spec_join_path(segments.subrange(1, segments.len() as int))
    }
}

/// The provenance label of the expression a marker wraps, by shape:
/// a method invocation gets `.name()` or `.name(..)`; a call through a
/// plain path gets `path()` or `path(..)`; a bare path is rendered as
/// written; everything else gets the one generic label.
pub open spec fn spec_classify(e: SpecExpr) -> Seq<char> {
    match e {
        SpecExpr::MethodCall { method, args, .. } => "."@ + method + spec_args_suffix(
            args.len(),
        ),
        SpecExpr::Call { callee, args } => match *callee {
            SpecExpr::PathRef { segments } => spec_join_path(segments) + spec_args_suffix(
                args.len(),
            ),
            _ => generic_label(),
        },
        SpecExpr::PathRef { segments } => spec_join_path(segments),
        _ => generic_label(),
    }
}

/// One decimal digit as text.
pub open spec fn spec_digit(d: nat) -> Seq<char> {
    if d == 0 {
        "0"@
    } else if d == 1 {
        "1"@
    } else if d == 2 {
        "2"@
    } else if d == 3 {
        "3"@
    } else if d == 4 {
        "4"@
    } else if d == 5 {
        "5"@
    } else if d == 6 {
        "6"@
    } else if d == 7 {
        "7"@
    } else if d == 8 {
        "8"@
    } else {
        "9"@
    }
}

/// A number in decimal, without leading zeros (a single `0` for zero).
pub open spec fn spec_decimal(n: nat) -> Seq<char>
    decreases n,
{
    if n < 10 {
        spec_digit(n)
    } else {
        spec_decimal(n / 10) + spec_digit(n % 10)
    }
}

/// The text of the annotation a rewritten marker attaches on failure:
/// the label, ` @ `, the source file, `::`, and the 1-based line.
pub open spec fn spec_annotation(label: Seq<char>, file: Seq<char>, line: u64) -> Seq<char> {
    label + " @ "@ + file + "::"@ + spec_decimal(line as nat)
}

/// Joins path segments with `::`, exactly as [`spec_join_path`] says.
pub fn join_path(segments: &Vec<String>) -> (r: String)
    ensures
        r@ == spec_join_path(segments.deep_view()),
{
    let r = join_path_from(segments, 0);
    proof {
        assert(segments.deep_view().subrange(0, segments.len() as int) =~= segments.deep_view());
    }
    r
}

/// Joins the segments from position `from` on.
fn join_path_from(segments: &Vec<String>, from: usize) -> (r: String)
    requires
        from <= segments.len(),
    ensures
        r@ == spec_join_path(
            segments.deep_view().subrange(from as int, segments.len() as int),
        ),
    decreases segments.len() - from,
{
    let ghost whole = segments.deep_view();
    let ghost tail = whole.subrange(from as int, segments.len() as int);
    if from == segments.len() {
        assert(tail =~= Seq::<Seq<char>>::empty());
        String::new()
    } else if from + 1 == segments.len() {
        let r = segments[from].clone();
        assert(tail.len() == 1 && tail[0] == whole[from as int]);
        r
    } else {
        let head = segments[from].clone();
        let rest = join_path_from(segments, from + 1);
        let r = head.concat("::").concat(rest.as_str());
        proof {
            assert(tail[0] == whole[from as int]);
            assert(tail.subrange(1, tail.len() as int) =~= whole.subrange(
                from + 1,
                segments.len() as int,
            ));
        }
        r
    }
}

/// The call-suffix for a given argument count.
fn args_suffix(n_args: usize) -> (r: &'static str)
    ensures
        r@ == spec_args_suffix(n_args as nat),
{
    if n_args == 0 {
        "()"
    } else {
        "(..)"
    }
}

/// The fixed generic label as text.
pub fn generic_label_text() -> (r: &'static str)
    ensures
        r@ == generic_label(),
{
    "(.. some expr ..)"
}

/// Derives the provenance label from the shape of `e`, exactly as
/// [`spec_classify`] says. Total: every shape gets some label.
pub fn classify(e: &Expr) -> (r: String)
    ensures
        r@ == spec_classify(e.deep_view()),
{
    match e {
        Expr::MethodCall { receiver, method, args } => {
            proof {
                lemma_views_len(args@);
                assert(e.deep_view() == SpecExpr::MethodCall {
                    receiver: Box::new(view_of_expr(**receiver)),
                    method: method@,
                    args: views_of_exprs(args@),
                });
            }
            let mut r = String::from_str(".");
            r.append(method.as_str());
            r.append(args_suffix(args.len()));
            r
        },
        Expr::Call { callee, args } => {
            proof {
                lemma_views_len(args@);
                assert(e.deep_view() == SpecExpr::Call {
                    callee: Box::new(view_of_expr(**callee)),
                    args: views_of_exprs(args@),
                });
            }
            match &**callee {
                Expr::PathRef { segments } => join_path(segments).concat(
                    args_suffix(args.len()),
                ),
                _ => String::from_str(generic_label_text()),
            }
        },
        Expr::PathRef { segments } => join_path(segments),
        _ => String::from_str(generic_label_text()),
    }
}

/// One decimal digit as text.
fn digit_text(d: u64) -> (r: &'static str)
    requires
        d < 10,
    ensures
        r@ == spec_digit(d as nat),
{
    if d == 0 {
        "0"
    } else if d == 1 {
        "1"
    } else if d == 2 {
        "2"
    } else if d == 3 {
        "3"
    } else if d == 4 {
        "4"
    } else if d == 5 {
        "5"
    } else if d == 6 {
        "6"
    } else if d == 7 {
        "7"
    } else if d == 8 {
        "8"
    } else {
        "9"
    }
}

/// Renders a number in decimal, exactly as [`spec_decimal`] says.
pub fn decimal(n: u64) -> (r: String)
    ensures
        r@ == spec_decimal(n as nat),
    decreases n,
{
    if n < 10 {
        String::from_str(digit_text(n))
    } else {
        let q = decimal(n / 10);
        q.concat(digit_text(n % 10))
    }
}

/// Builds the annotation text for a marker: `label @ file::line`, exactly
/// as [`spec_annotation`] says.
pub fn annotation(label: &str, file: &str, line: u64) -> (r: String)
    ensures
        r@ == spec_annotation(label@, file@, line),
{
    String::from_str(label).concat(" @ ").concat(file).concat("::").concat(
        decimal(line).as_str(),
    )
}

} // verus!
