//! Expression trees and code units.
//!
//! [`Expr`] is the executable tree the rewrite runs on; [`SpecExpr`] is its
//! mathematical image, reached through [`DeepView`]. A code unit is either a
//! single function, a group of methods, or some other item that carries no
//! function body at all.

use vstd::prelude::*;

verus! {

/// Mathematical image of an expression node.
pub enum SpecExpr {
    /// A method invocation `target.name(args...)`.
    MethodCall { receiver: Box<SpecExpr>, method: Seq<char>, args: Seq<SpecExpr> },
    /// A free-function invocation `callee(args...)`.
    Call { callee: Box<SpecExpr>, args: Seq<SpecExpr> },
    /// A bare path reference `a::b::c`, with no call attached.
    PathRef { segments: Seq<Seq<char>> },
    /// A fallible-marker expression: evaluates `inner`, unwraps its success
    /// value, and on failure aborts the enclosing unit. `line` is the
    /// 1-based source line of the marker token.
    Marker { inner: Box<SpecExpr>, line: u64 },
    /// Instrumentation node: evaluates `inner` and, on failure, pushes
    /// `note` in front of the failure's annotation chain.
    Annotate { inner: Box<SpecExpr>, note: Seq<char> },
    /// Any other expression shape, kept only as the list of its child
    /// expressions in source order.
    Other { children: Seq<SpecExpr> },
}

/// An expression node, as handed in by the host's front end.
pub enum Expr {
    /// A method invocation `target.name(args...)`.
    MethodCall { receiver: Box<Expr>, method: String, args: Vec<Expr> },
    /// A free-function invocation `callee(args...)`.
    Call { callee: Box<Expr>, args: Vec<Expr> },
    /// A bare path reference `a::b::c`, with no call attached.
    PathRef { segments: Vec<String> },
    /// A fallible-marker expression at source line `line` (1-based).
    Marker { inner: Box<Expr>, line: u64 },
    /// Instrumentation node produced by the rewrite.
    Annotate { inner: Box<Expr>, note: String },
    /// Any other expression shape, with its child expressions.
    Other { children: Vec<Expr> },
}

/// The mathematical image of an expression node, defined structurally.
pub open spec fn view_of_expr(e: Expr) -> SpecExpr
    decreases e,
{
    match e {
        Expr::MethodCall { receiver, method, args } => SpecExpr::MethodCall {
            receiver: Box::new(view_of_expr(*receiver)),
            method: method@,
            args: views_of_exprs(args@),
        },
        Expr::Call { callee, args } => SpecExpr::Call {
            callee: Box::new(view_of_expr(*callee)),
            args: views_of_exprs(args@),
        },
        Expr::PathRef { segments } => SpecExpr::PathRef { segments: segments.deep_view() },
        Expr::Marker { inner, line } => SpecExpr::Marker {
            inner: Box::new(view_of_expr(*inner)),
            line,
        },
        Expr::Annotate { inner, note } => SpecExpr::Annotate {
            inner: Box::new(view_of_expr(*inner)),
            note: note@,
        },
        Expr::Other { children } => SpecExpr::Other {
            children: views_of_exprs(children@),
        },
    }
}

/// The images of a list of expression nodes, in order.
pub open spec fn views_of_exprs(es: Seq<Expr>) -> Seq<SpecExpr>
    decreases es,
{
    if es.len() == 0 {
        Seq::empty()
    } else {
        seq![view_of_expr(es[0])] + views_of_exprs(es.subrange(1, es.len() as int))
    }
}

impl DeepView for Expr {
    type V = SpecExpr;

    open spec fn deep_view(&self) -> SpecExpr {
        view_of_expr(*self)
    }
}

/// A function-like member of a code unit: a name and a body, the body a
/// sequence of statement expressions in source order.
pub struct Method {
    pub name: String,
    pub body: Vec<Expr>,
}

/// A member of an impl-like container: a function-like member, or one that
/// carries no function body (an associated constant or type, say).
pub enum Member {
    Function(Method),
    NotFunction,
}

/// A top-level code unit: a single function, an impl-like container of
/// members, or any other item shape.
pub enum Item {
    Function(Method),
    ImplBlock { members: Vec<Member> },
    OtherItem,
}

/// Mathematical image of a function-like member.
pub struct SpecMethod {
    pub name: Seq<char>,
    pub body: Seq<SpecExpr>,
}

/// Mathematical image of a container member.
pub enum SpecMember {
    Function(SpecMethod),
    NotFunction,
}

/// Mathematical image of a code unit.
pub enum SpecItem {
    Function(SpecMethod),
    ImplBlock { members: Seq<SpecMember> },
    OtherItem,
}

/// The image of a function-like member.
pub open spec fn view_of_method(m: Method) -> SpecMethod {
    SpecMethod { name: m.name@, body: views_of_exprs(m.body@) }
}

/// The image of a container member.
pub open spec fn view_of_member(m: Member) -> SpecMember {
    match m {
        Member::Function(f) => SpecMember::Function(view_of_method(f)),
        Member::NotFunction => SpecMember::NotFunction,
    }
}

/// The images of a list of container members, in order.
pub open spec fn views_of_members(ms: Seq<Member>) -> Seq<SpecMember> {
    Seq::new(ms.len(), |i: int| view_of_member(ms[i]))
}

/// The image of a code unit.
pub open spec fn view_of_item(it: Item) -> SpecItem {
    match it {
        Item::Function(f) => SpecItem::Function(view_of_method(f)),
        Item::ImplBlock { members } => SpecItem::ImplBlock {
            members: views_of_members(members@),
        },
        Item::OtherItem => SpecItem::OtherItem,
    }
}

/// A list of nodes and its image have the same length.
pub proof fn lemma_views_len(es: Seq<Expr>)
    ensures
        views_of_exprs(es).len() == es.len(),
    decreases es,
{
    if es.len() > 0 {
        lemma_views_len(es.subrange(1, es.len() as int));
    }
}

/// The image of a list of nodes is the list of the images, position by
/// position.
pub proof fn lemma_views_elems(es: Seq<Expr>)
    ensures
        views_of_exprs(es).len() == es.len(),
        forall|i: int|
            0 <= i < es.len() ==> #[trigger] views_of_exprs(es)[i] == view_of_expr(es[i]),
    decreases es,
{
    lemma_views_len(es);
    if es.len() > 0 {
        lemma_views_elems(es.subrange(1, es.len() as int));
    }
}

} // verus!
