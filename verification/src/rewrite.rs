//! The rewrite: one marker's replacement, the recursive walker, and the
//! per-unit dispatcher.
//!
//! Every fallible-marker expression in a code unit is replaced by an
//! equivalent marker whose wrapped expression first attaches a provenance
//! annotation on the failure path. The label is derived from the marker's
//! original wrapped expression, before that expression is itself rewritten;
//! the walker then descends into the rewritten child, so markers nested at
//! any depth are each rewritten exactly once.

use vstd::prelude::*;
use crate::ast::Expr;
use crate::ast::Item;
use crate::ast::Member;
use crate::ast::Method;
use crate::ast::SpecExpr;
use crate::ast::SpecItem;
use crate::ast::SpecMember;
use crate::ast::SpecMethod;
use crate::ast::lemma_views_len;
use crate::ast::lemma_views_elems;
use crate::ast::view_of_expr;
use crate::ast::view_of_item;
use crate::ast::view_of_member;
use crate::ast::view_of_method;
use crate::ast::views_of_exprs;
use crate::ast::views_of_members;
use crate::label::annotation;
use crate::label::classify;
use crate::label::spec_annotation;
use crate::label::spec_classify;

verus! {

/// The image of a rewritten tree: every marker wraps its (recursively
/// rewritten) child in an annotation node whose text is the label of the
/// original child plus the marker's own source position.
pub open spec fn spec_rewrite(e: SpecExpr, file: Seq<char>) -> SpecExpr
    decreases e,
{
    match e {
        SpecExpr::Marker { inner, line } => SpecExpr::Marker {
            inner: Box::new(
                SpecExpr::Annotate {
                    inner: Box::new(spec_rewrite(*inner, file)),
                    note: spec_annotation(spec_classify(*inner), file, line),
                },
            ),
            line,
        },
        SpecExpr::MethodCall { receiver, method, args } => SpecExpr::MethodCall {
            receiver: Box::new(spec_rewrite(*receiver, file)),
            method,
            args: spec_rewrite_all(args, file),
        },
        SpecExpr::Call { callee, args } => SpecExpr::Call {
            callee: Box::new(spec_rewrite(*callee, file)),
            args: spec_rewrite_all(args, file),
        },
        SpecExpr::PathRef { segments } => SpecExpr::PathRef { segments },
        SpecExpr::Annotate { inner, note } => SpecExpr::Annotate {
            inner: Box::new(spec_rewrite(*inner, file)),
            note,
        },
        SpecExpr::Other { children } => SpecExpr::Other {
            children: spec_rewrite_all(children, file),
        },
    }
}

/// The images of a list of rewritten trees, in order.
pub open spec fn spec_rewrite_all(es: Seq<SpecExpr>, file: Seq<char>) -> Seq<SpecExpr>
    decreases es,
{
    if es.len() == 0 {
        Seq::empty()
    } else {
        seq![spec_rewrite(es[0], file)] + spec_rewrite_all(
            es.subrange(1, es.len() as int),
            file,
        )
    }
}

/// Builds the replacement for one marker from its (already rewritten)
/// wrapped expression, the label derived from the original wrapped
/// expression, and the marker's source position. The replacement is again
/// a marker, so failure still aborts the enclosing unit; its wrapped
/// expression is the annotation node that attaches
/// `label @ file::line` on the failure path. Construction only: the
/// wrapped expression is taken over once and unchanged.
pub fn rewrite_rule(inner: Expr, label: &str, line: u64, file: &str) -> (r: Expr)
    ensures
        r.deep_view() == (SpecExpr::Marker {
            inner: Box::new(
                SpecExpr::Annotate {
                    inner: Box::new(inner.deep_view()),
                    note: spec_annotation(label@, file@, line),
                },
            ),
            line,
        }),
{
    let ghost inner_view = inner.deep_view();
    let note = annotation(label, file, line);
    let wrapped = Expr::Annotate { inner: Box::new(inner), note };
    proof {
        assert(wrapped.deep_view() == (SpecExpr::Annotate {
            inner: Box::new(inner_view),
            note: spec_annotation(label@, file@, line),
        }));
    }
    Expr::Marker { inner: Box::new(wrapped), line }
}

/// Rewrites every marker in the tree, exactly as [`spec_rewrite`] says:
/// each marker's label is derived from its wrapped expression before the
/// walker descends into it.
pub fn walk(e: Expr, file: &str) -> (r: Expr)
    ensures
        r.deep_view() == spec_rewrite(e.deep_view(), file@),
    decreases e,
{
    match e {
        Expr::Marker { inner, line } => {
            let label = classify(&inner);
            let walked = walk(*inner, file);
            rewrite_rule(walked, label.as_str(), line, file)
        },
        Expr::MethodCall { receiver, method, args } => {
            let new_receiver = Box::new(walk(*receiver, file));
            let new_args = walk_all(args, file);
            Expr::MethodCall { receiver: new_receiver, method, args: new_args }
        },
        Expr::Call { callee, args } => {
            let new_callee = Box::new(walk(*callee, file));
            let new_args = walk_all(args, file);
            Expr::Call { callee: new_callee, args: new_args }
        },
        Expr::PathRef { segments } => Expr::PathRef { segments },
        Expr::Annotate { inner, note } => Expr::Annotate {
            inner: Box::new(walk(*inner, file)),
            note,
        },
        Expr::Other { children } => Expr::Other { children: walk_all(children, file) },
    }
}

/// Rewrites every tree in the list, in order.
pub fn walk_all(es: Vec<Expr>, file: &str) -> (r: Vec<Expr>)
    ensures
        views_of_exprs(r@) == spec_rewrite_all(views_of_exprs(es@), file@),
    decreases es@,
{
    let ghost es0 = es@;
    let mut rest = es;
    if rest.len() == 0 {
        proof {
            lemma_views_len(es0);
        }
        rest
    } else {
        let head = rest.remove(0);
        let ghost tail0 = rest@;
        let new_head = walk(head, file);
        let mut new_rest = walk_all(rest, file);
        let ghost nr0 = new_rest@;
        new_rest.insert(0, new_head);
        proof {
            let views = views_of_exprs(es0);
            lemma_views_elems(es0);
            lemma_views_elems(tail0);
            lemma_views_elems(nr0);
            lemma_views_elems(new_rest@);
            lemma_rewrite_all_elems(views, file@);
            lemma_rewrite_all_elems(views_of_exprs(tail0), file@);
            assert(tail0 =~= es0.subrange(1, es0.len() as int));
            assert(new_rest@ =~= seq![new_head] + nr0);
            assert forall|i: int| 0 <= i < new_rest@.len() implies views_of_exprs(new_rest@)[i]
                == spec_rewrite_all(views, file@)[i] by {
                assert(spec_rewrite_all(views, file@)[i] == spec_rewrite(views[i], file@));
                assert(views[i] == view_of_expr(es0[i]));
                if i == 0 {
                    assert(new_rest@[0] == new_head);
                } else {
                    assert(new_rest@[i] == nr0[i - 1]);
                    assert(views_of_exprs(nr0)[i - 1] == view_of_expr(nr0[i - 1]));
                    assert(spec_rewrite_all(views_of_exprs(tail0), file@)[i - 1]
                        == spec_rewrite(views_of_exprs(tail0)[i - 1], file@));
                    assert(views_of_exprs(tail0)[i - 1] == view_of_expr(tail0[i - 1]));
                    assert(tail0[i - 1] == es0[i]);
                }
            };
            assert(views_of_exprs(new_rest@) =~= spec_rewrite_all(views, file@));
        }
        new_rest
    }
}

/// A rewritten list has the rewrite of each element, position by position.
pub proof fn lemma_rewrite_all_elems(es: Seq<SpecExpr>, file: Seq<char>)
    ensures
        spec_rewrite_all(es, file).len() == es.len(),
        forall|i: int|
            0 <= i < es.len() ==> #[trigger] spec_rewrite_all(es, file)[i] == spec_rewrite(
                es[i],
                file,
            ),
    decreases es,
{
    if es.len() > 0 {
        lemma_rewrite_all_elems(es.subrange(1, es.len() as int), file);
    }
}

/// The number of markers in a tree.
pub open spec fn spec_marker_count(e: SpecExpr) -> nat
    decreases e,
{
    match e {
        SpecExpr::Marker { inner, .. } => 1 + spec_marker_count(*inner),
        SpecExpr::MethodCall { receiver, args, .. } => spec_marker_count(*receiver)
            + spec_marker_count_all(args),
        SpecExpr::Call { callee, args } => spec_marker_count(*callee) + spec_marker_count_all(
            args,
        ),
        SpecExpr::PathRef { .. } => 0,
        SpecExpr::Annotate { inner, .. } => spec_marker_count(*inner),
        SpecExpr::Other { children } => spec_marker_count_all(children),
    }
}

/// The number of markers in a list of trees.
pub open spec fn spec_marker_count_all(es: Seq<SpecExpr>) -> nat
    decreases es,
{
    if es.len() == 0 {
        0
    } else {
        spec_marker_count(es[0]) + spec_marker_count_all(es.subrange(1, es.len() as int))
    }
}

/// Holds of a tree in which every marker's wrapped expression is an
/// annotation node: the shape every tree has after the rewrite.
pub open spec fn instrumented(e: SpecExpr) -> bool
    decreases e,
{
    match e {
        SpecExpr::Marker { inner, .. } => (*inner matches SpecExpr::Annotate { .. })
            && instrumented(*inner),
        SpecExpr::MethodCall { receiver, args, .. } => instrumented(*receiver)
            && instrumented_all(args),
        SpecExpr::Call { callee, args } => instrumented(*callee) && instrumented_all(args),
        SpecExpr::PathRef { .. } => true,
        SpecExpr::Annotate { inner, .. } => instrumented(*inner),
        SpecExpr::Other { children } => instrumented_all(children),
    }
}

/// Holds of a list of trees each of which is instrumented.
pub open spec fn instrumented_all(es: Seq<SpecExpr>) -> bool
    decreases es,
{
    es.len() == 0 || (instrumented(es[0]) && instrumented_all(es.subrange(1, es.len() as int)))
}

/// Every marker is rewritten exactly once: the rewritten tree holds
/// exactly as many markers as the original, and each of them wraps an
/// annotation node — none is left bare, none is picked up again.
pub proof fn lemma_rewrite_once(e: SpecExpr, file: Seq<char>)
    ensures
        spec_marker_count(spec_rewrite(e, file)) == spec_marker_count(e),
        instrumented(spec_rewrite(e, file)),
    decreases e,
{
    match e {
        SpecExpr::Marker { inner, line } => {
            lemma_rewrite_once(*inner, file);
            let note = spec_annotation(spec_classify(*inner), file, line);
            let ann = SpecExpr::Annotate {
                inner: Box::new(spec_rewrite(*inner, file)),
                note,
            };
            assert(spec_rewrite(e, file) == SpecExpr::Marker { inner: Box::new(ann), line });
            assert(spec_marker_count(ann) == spec_marker_count(*inner));
            assert(instrumented(ann));
        },
        SpecExpr::MethodCall { receiver, args, .. } => {
            lemma_rewrite_once(*receiver, file);
            lemma_rewrite_once_all(args, file);
        },
        SpecExpr::Call { callee, args } => {
            lemma_rewrite_once(*callee, file);
            lemma_rewrite_once_all(args, file);
        },
        SpecExpr::PathRef { .. } => {},
        SpecExpr::Annotate { inner, .. } => {
            lemma_rewrite_once(*inner, file);
        },
        SpecExpr::Other { children } => {
            lemma_rewrite_once_all(children, file);
        },
    }
}

/// List form of [`lemma_rewrite_once`].
pub proof fn lemma_rewrite_once_all(es: Seq<SpecExpr>, file: Seq<char>)
    ensures
        spec_marker_count_all(spec_rewrite_all(es, file)) == spec_marker_count_all(es),
        instrumented_all(spec_rewrite_all(es, file)),
    decreases es,
{
    if es.len() > 0 {
        let tail = es.subrange(1, es.len() as int);
        lemma_rewrite_once(es[0], file);
        lemma_rewrite_once_all(tail, file);
        let rw = spec_rewrite_all(es, file);
        assert(rw[0] == spec_rewrite(es[0], file));
        assert(rw.subrange(1, rw.len() as int) =~= spec_rewrite_all(tail, file));
    }
}

/// The image of a rewritten function-like member: the same name, every
/// statement of the body rewritten.
pub open spec fn spec_process_method(m: SpecMethod, file: Seq<char>) -> SpecMethod {
    SpecMethod { name: m.name, body: spec_rewrite_all(m.body, file) }
}

/// The image of a processed container member: function-like members have
/// their bodies rewritten; all others pass through unchanged.
pub open spec fn spec_process_member(m: SpecMember, file: Seq<char>) -> SpecMember {
    match m {
        SpecMember::Function(f) => SpecMember::Function(spec_process_method(f, file)),
        SpecMember::NotFunction => SpecMember::NotFunction,
    }
}

/// The image of a processed code unit: a single function has its body
/// rewritten; an impl-like container has every function-like member's body
/// rewritten independently; any other unit shape passes through unchanged.
pub open spec fn spec_process(it: SpecItem, file: Seq<char>) -> SpecItem {
    match it {
        SpecItem::Function(f) => SpecItem::Function(spec_process_method(f, file)),
        SpecItem::ImplBlock { members } => SpecItem::ImplBlock {
            members: Seq::new(members.len(), |i: int| spec_process_member(members[i], file)),
        },
        SpecItem::OtherItem => SpecItem::OtherItem,
    }
}

/// Rewrites the body of one function-like member.
fn process_method(m: Method, file: &str) -> (r: Method)
    ensures
        view_of_method(r) == spec_process_method(view_of_method(m), file@),
{
    let Method { name, body } = m;
    Method { name, body: walk_all(body, file) }
}

/// Processes one container member.
fn process_member(m: Member, file: &str) -> (r: Member)
    ensures
        view_of_member(r) == spec_process_member(view_of_member(m), file@),
{
    match m {
        Member::Function(f) => Member::Function(process_method(f, file)),
        Member::NotFunction => Member::NotFunction,
    }
}

/// The entry point: rewrites every marker in every function body the unit
/// contains, exactly as [`spec_process`] says. Total: a unit that carries
/// no function body comes back structurally unchanged.
pub fn process(item: Item, file: &str) -> (r: Item)
    ensures
        view_of_item(r) == spec_process(view_of_item(item), file@),
{
    match item {
        Item::Function(f) => Item::Function(process_method(f, file)),
        Item::ImplBlock { members } => {
            let ghost ms0 = members@;
            let mut rest = members;
            let mut done: Vec<Member> = Vec::new();
            while rest.len() > 0
                invariant
                    done@.len() + rest@.len() == ms0.len(),
                    rest@ == ms0.subrange(done@.len() as int, ms0.len() as int),
                    forall|i: int|
                        0 <= i < done@.len() ==> view_of_member(#[trigger] done@[i])
                            == spec_process_member(view_of_member(ms0[i]), file@),
                decreases rest@.len(),
            {
                let m = rest.remove(0);
                assert(m == ms0[done@.len() as int]);
                let p = process_member(m, file);
                done.push(p);
                proof {
                    assert(rest@ =~= ms0.subrange(done@.len() as int, ms0.len() as int));
                }
            }
            proof {
                assert(views_of_members(done@) =~= Seq::new(
                    views_of_members(ms0).len(),
                    |i: int| spec_process_member(views_of_members(ms0)[i], file@),
                ));
            }
            Item::ImplBlock { members: done }
        },
        Item::OtherItem => Item::OtherItem,
    }
}

} // verus!
