//! A small evaluation model for expression trees.
//!
//! The rewrite's promises are about runtime behaviour: what a rewritten
//! tree does when its markers pass, and what failure a caller sees when
//! they do not. This module gives the trees that behaviour. An environment
//! assigns each base operation (a method invocation, a call, a bare path)
//! an outcome by name: a success value, or a failure carrying an
//! annotation chain (outermost note first) and a final causal message.
//! Evaluation is left-to-right; the first failure aborts the enclosing
//! tree and propagates, exactly as a fallible marker does. Failures are
//! otherwise opaque: evaluation never inspects a cause, it only passes it
//! through, and an annotation node prepends its one note. Every base
//! operation evaluated is also logged, in order, as an effect, so that
//! statements about duplicated side effects can be made.

use vstd::prelude::*;
use vstd::slice::slice_subrange;
use crate::ast::Expr;
use crate::ast::SpecExpr;
use crate::ast::lemma_views_elems;
use crate::ast::view_of_expr;
use crate::ast::views_of_exprs;
use crate::label::spec_join_path;
use crate::label::join_path;

verus! {

/// A propagating failure: the annotation chain, outermost note first, and
/// the final causal message.
#[verifier::ext_equal]
pub struct SpecFailure {
    pub notes: Seq<Seq<char>>,
    pub cause: Seq<char>,
}

/// The outcome of evaluating one tree or base operation.
#[verifier::ext_equal]
pub enum SpecOutcome {
    Pass { value: u64 },
    Fail { failure: SpecFailure },
}

/// What one evaluation did: its outcome, and the base operations it
/// performed, in order.
#[verifier::ext_equal]
pub struct SpecRun {
    pub outcome: SpecOutcome,
    pub effects: Seq<Seq<char>>,
}

/// What evaluating a list of trees did: the first failure, if any tree
/// failed, and the base operations performed up to that point.
#[verifier::ext_equal]
pub struct SpecListRun {
    pub failure: Option<SpecFailure>,
    pub effects: Seq<Seq<char>>,
}

/// An environment: outcomes of base operations, looked up by name.
#[verifier::ext_equal]
pub struct SpecEnv {
    pub entries: Seq<(Seq<char>, SpecOutcome)>,
}

/// The outcome a key is assigned: the first entry with that key decides;
/// a key with no entry passes with value zero.
pub open spec fn spec_lookup_entries(
    entries: Seq<(Seq<char>, SpecOutcome)>,
    key: Seq<char>,
) -> SpecOutcome
    decreases entries,
{
    if entries.len() == 0 {
        SpecOutcome::Pass { value: 0 }
    } else if entries[0].0 == key {
        entries[0].1
    } else {
        spec_lookup_entries(entries.subrange(1, entries.len() as int), key)
    }
}

/// The name under which a base operation's outcome is looked up: a method
/// invocation by its method name, a call through a plain path by the
/// rendered path, a bare path by the rendered path. A call through any
/// other callee shape has the empty name.
pub open spec fn spec_base_key(e: SpecExpr) -> Seq<char> {
    match e {
        SpecExpr::MethodCall { method, .. } => method,
        SpecExpr::Call { callee, .. } => match *callee {
            SpecExpr::PathRef { segments } => spec_join_path(segments),
            _ => Seq::empty(),
        },
        SpecExpr::PathRef { segments } => spec_join_path(segments),
        _ => Seq::empty(),
    }
}

/// Evaluates one tree under an environment.
pub open spec fn spec_eval(e: SpecExpr, env: SpecEnv) -> SpecRun
    decreases e,
{
    match e {
        SpecExpr::MethodCall { receiver, method, args } => {
            let r = spec_eval(*receiver, env);
            match r.outcome {
                SpecOutcome::Fail { .. } => r,
                SpecOutcome::Pass { .. } => {
                    let a = spec_eval_list(args, env);
                    match a.failure {
                        Option::Some(f) => SpecRun {
                            outcome: SpecOutcome::Fail { failure: f },
                            effects: r.effects + a.effects,
                        },
                        Option::None => SpecRun {
                            outcome: spec_lookup_entries(env.entries, method),
                            effects: r.effects + a.effects + seq![method],
                        },
                    }
                },
            }
        },
        SpecExpr::Call { callee, args } => {
            let key = spec_base_key(e);
            let r = spec_eval(*callee, env);
            match r.outcome {
                SpecOutcome::Fail { .. } => r,
                SpecOutcome::Pass { .. } => {
                    let a = spec_eval_list(args, env);
                    match a.failure {
                        Option::Some(f) => SpecRun {
                            outcome: SpecOutcome::Fail { failure: f },
                            effects: r.effects + a.effects,
                        },
                        Option::None => SpecRun {
                            outcome: spec_lookup_entries(env.entries, key),
                            effects: r.effects + a.effects + seq![key],
                        },
                    }
                },
            }
        },
        SpecExpr::PathRef { segments } => SpecRun {
            outcome: spec_lookup_entries(env.entries, spec_join_path(segments)),
            effects: Seq::empty(),
        },
        SpecExpr::Marker { inner, .. } => spec_eval(*inner, env),
        SpecExpr::Annotate { inner, note } => {
            let r = spec_eval(*inner, env);
            match r.outcome {
                SpecOutcome::Pass { .. } => r,
                SpecOutcome::Fail { failure } => SpecRun {
                    outcome: SpecOutcome::Fail {
                        failure: SpecFailure {
                            notes: seq![note] + failure.notes,
                            cause: failure.cause,
                        },
                    },
                    effects: r.effects,
                },
            }
        },
        SpecExpr::Other { children } => {
            let c = spec_eval_list(children, env);
            match c.failure {
                Option::Some(f) => SpecRun {
                    outcome: SpecOutcome::Fail { failure: f },
                    effects: c.effects,
                },
                Option::None => SpecRun {
                    outcome: SpecOutcome::Pass { value: 0 },
                    effects: c.effects,
                },
            }
        },
    }
}

/// Evaluates a list of trees, left to right, stopping at the first
/// failure.
pub open spec fn spec_eval_list(es: Seq<SpecExpr>, env: SpecEnv) -> SpecListRun
    decreases es,
{
    if es.len() == 0 {
        SpecListRun { failure: Option::None, effects: Seq::empty() }
    } else {
        let h = spec_eval(es[0], env);
        match h.outcome {
            SpecOutcome::Fail { failure } => SpecListRun {
                failure: Option::Some(failure),
                effects: h.effects,
            },
            SpecOutcome::Pass { .. } => {
                let t = spec_eval_list(es.subrange(1, es.len() as int), env);
                SpecListRun { failure: t.failure, effects: h.effects + t.effects }
            },
        }
    }
}

/// A propagating failure, as an executable value: the annotation chain,
/// outermost note first, and the final causal message.
pub struct Failure {
    pub notes: Vec<String>,
    pub cause: String,
}

/// The outcome of one base operation or one evaluation.
pub enum Outcome {
    Pass { value: u64 },
    Fail { failure: Failure },
}

/// What one evaluation did.
pub struct Run {
    pub outcome: Outcome,
    pub effects: Vec<String>,
}

/// What evaluating a list of trees did.
pub struct ListRun {
    pub failure: Option<Failure>,
    pub effects: Vec<String>,
}

/// One environment entry: a base operation's name and its outcome.
pub struct EnvEntry {
    pub key: String,
    pub outcome: Outcome,
}

/// An executable environment.
pub struct Env {
    pub entries: Vec<EnvEntry>,
}

/// The image of an executable failure.
pub open spec fn view_of_failure(f: Failure) -> SpecFailure {
    SpecFailure { notes: f.notes.deep_view(), cause: f.cause@ }
}

/// The image of an executable outcome.
pub open spec fn view_of_outcome(o: Outcome) -> SpecOutcome {
    match o {
        Outcome::Pass { value } => SpecOutcome::Pass { value },
        Outcome::Fail { failure } => SpecOutcome::Fail { failure: view_of_failure(failure) },
    }
}

/// The image of an executable run.
pub open spec fn view_of_run(r: Run) -> SpecRun {
    SpecRun { outcome: view_of_outcome(r.outcome), effects: r.effects.deep_view() }
}

/// The image of an executable list run.
pub open spec fn view_of_list_run(lr: ListRun) -> SpecListRun {
    SpecListRun {
        failure: match lr.failure {
            Option::Some(f) => Option::Some(view_of_failure(f)),
            Option::None => Option::None,
        },
        effects: lr.effects.deep_view(),
    }
}

/// The image of a list of environment entries.
pub open spec fn views_of_entries(entries: Seq<EnvEntry>) -> Seq<(Seq<char>, SpecOutcome)> {
    Seq::new(entries.len(), |i: int| (entries[i].key@, view_of_outcome(entries[i].outcome)))
}

/// The image of an executable environment.
pub open spec fn view_of_env(env: Env) -> SpecEnv {
    SpecEnv { entries: views_of_entries(env.entries@) }
}

/// Copies a list of notes.
fn clone_notes(notes: &Vec<String>) -> (r: Vec<String>)
    ensures
        r.deep_view() == notes.deep_view(),
{
    let mut r: Vec<String> = Vec::new();
    let mut i: usize = 0;
    while i < notes.len()
        invariant
            i <= notes.len(),
            r.len() == i,
            forall|j: int| 0 <= j < i ==> r@[j]@ == notes@[j]@,
        decreases notes.len() - i,
    {
        r.push(notes[i].clone());
        i = i + 1;
    }
    proof {
        assert(r.deep_view() =~= notes.deep_view());
    }
    r
}

/// Copies a failure.
fn clone_failure(f: &Failure) -> (r: Failure)
    ensures
        view_of_failure(r) == view_of_failure(*f),
{
    Failure { notes: clone_notes(&f.notes), cause: f.cause.clone() }
}

/// Copies an outcome.
fn clone_outcome(o: &Outcome) -> (r: Outcome)
    ensures
        view_of_outcome(r) == view_of_outcome(*o),
{
    match o {
        Outcome::Pass { value } => Outcome::Pass { value: *value },
        Outcome::Fail { failure } => Outcome::Fail { failure: clone_failure(failure) },
    }
}

/// Appends copies of `b`'s strings to `a`.
fn concat_strings(a: Vec<String>, b: &Vec<String>) -> (r: Vec<String>)
    ensures
        r.deep_view() == a.deep_view() + b.deep_view(),
{
    let ghost a0 = a;
    let mut r = a;
    let mut i: usize = 0;
    while i < b.len()
        invariant
            i <= b.len(),
            r.len() == a0.len() + i,
            forall|j: int| 0 <= j < a0.len() ==> r@[j] == a0@[j],
            forall|j: int| 0 <= j < i ==> r@[a0.len() + j]@ == b@[j]@,
        decreases b.len() - i,
    {
        r.push(b[i].clone());
        i = i + 1;
    }
    proof {
        assert(r.deep_view() =~= a0.deep_view() + b.deep_view());
    }
    r
}

/// Looks a key up among the entries from position `from` on.
fn lookup_from(entries: &Vec<EnvEntry>, from: usize, key: &String) -> (r: Outcome)
    requires
        from <= entries.len(),
    ensures
        view_of_outcome(r) == spec_lookup_entries(
            views_of_entries(entries@).subrange(from as int, entries.len() as int),
            key@,
        ),
    decreases entries.len() - from,
{
    let ghost whole = views_of_entries(entries@);
    let ghost tail = whole.subrange(from as int, entries.len() as int);
    if from == entries.len() {
        proof {
            assert(tail =~= Seq::<(Seq<char>, SpecOutcome)>::empty());
        }
        Outcome::Pass { value: 0 }
    } else {
        proof {
            assert(tail[0] == whole[from as int]);
            assert(tail.subrange(1, tail.len() as int) =~= whole.subrange(
                from + 1,
                entries.len() as int,
            ));
        }
        let entry = &entries[from];
        if entry.key == *key {
            clone_outcome(&entry.outcome)
        } else {
            lookup_from(entries, from + 1, key)
        }
    }
}

/// The outcome the environment assigns to a name, exactly as
/// [`spec_lookup_entries`] says: first entry wins, an unnamed operation
/// passes with value zero.
pub fn lookup(env: &Env, key: &String) -> (r: Outcome)
    ensures
        view_of_outcome(r) == spec_lookup_entries(view_of_env(*env).entries, key@),
{
    let r = lookup_from(&env.entries, 0, key);
    proof {
        assert(views_of_entries(env.entries@).subrange(0, env.entries.len() as int)
            =~= views_of_entries(env.entries@));
    }
    r
}

/// Evaluates one tree under an environment, exactly as [`spec_eval`]
/// says.
pub fn eval(e: &Expr, env: &Env) -> (r: Run)
    ensures
        view_of_run(r) == spec_eval(e.deep_view(), view_of_env(*env)),
    decreases e,
{
    let ghost envv = view_of_env(*env);
    match e {
        Expr::MethodCall { receiver, method, args } => {
            proof {
                assert(e.deep_view() == SpecExpr::MethodCall {
                    receiver: Box::new(view_of_expr(**receiver)),
                    method: method@,
                    args: views_of_exprs(args@),
                });
            }
            let r = eval(&**receiver, env);
            match r.outcome {
                Outcome::Fail { failure } => Run {
                    outcome: Outcome::Fail { failure },
                    effects: r.effects,
                },
                Outcome::Pass { .. } => {
                    let a = eval_list(args.as_slice(), env);
                    match a.failure {
                        Option::Some(f) => Run {
                            outcome: Outcome::Fail { failure: f },
                            effects: concat_strings(r.effects, &a.effects),
                        },
                        Option::None => {
                            let mut effects = concat_strings(r.effects, &a.effects);
                            effects.push(method.clone());
                            Run { outcome: lookup(env, method), effects }
                        },
                    }
                },
            }
        },
        Expr::Call { callee, args } => {
            proof {
                assert(e.deep_view() == SpecExpr::Call {
                    callee: Box::new(view_of_expr(**callee)),
                    args: views_of_exprs(args@),
                });
            }
            let key = match &**callee {
                Expr::PathRef { segments } => join_path(segments),
                _ => String::new(),
            };
            proof {
                assert(key@ == spec_base_key(e.deep_view()));
            }
            let r = eval(&**callee, env);
            match r.outcome {
                Outcome::Fail { failure } => Run {
                    outcome: Outcome::Fail { failure },
                    effects: r.effects,
                },
                Outcome::Pass { .. } => {
                    let a = eval_list(args.as_slice(), env);
                    match a.failure {
                        Option::Some(f) => Run {
                            outcome: Outcome::Fail { failure: f },
                            effects: concat_strings(r.effects, &a.effects),
                        },
                        Option::None => {
                            let mut effects = concat_strings(r.effects, &a.effects);
                            effects.push(key.clone());
                            Run { outcome: lookup(env, &key), effects }
                        },
                    }
                },
            }
        },
        Expr::PathRef { segments } => {
            let key = join_path(segments);
            Run { outcome: lookup(env, &key), effects: Vec::new() }
        },
        Expr::Marker { inner, line } => {
            proof {
                assert(e.deep_view() == SpecExpr::Marker {
                    inner: Box::new(view_of_expr(**inner)),
                    line: *line,
                });
            }
            eval(&**inner, env)
        },
        Expr::Annotate { inner, note } => {
            proof {
                assert(e.deep_view() == SpecExpr::Annotate {
                    inner: Box::new(view_of_expr(**inner)),
                    note: note@,
                });
            }
            let r = eval(&**inner, env);
            match r.outcome {
                Outcome::Pass { value } => Run {
                    outcome: Outcome::Pass { value },
                    effects: r.effects,
                },
                Outcome::Fail { failure } => {
                    let Failure { mut notes, cause } = failure;
                    let ghost notes0 = notes.deep_view();
                    notes.insert(0, note.clone());
                    proof {
                        assert(notes.deep_view() =~= seq![note@] + notes0);
                    }
                    Run {
                        outcome: Outcome::Fail { failure: Failure { notes, cause } },
                        effects: r.effects,
                    }
                },
            }
        },
        Expr::Other { children } => {
            proof {
                assert(e.deep_view() == SpecExpr::Other {
                    children: views_of_exprs(children@),
                });
            }
            let c = eval_list(children.as_slice(), env);
            match c.failure {
                Option::Some(f) => Run {
                    outcome: Outcome::Fail { failure: f },
                    effects: c.effects,
                },
                Option::None => Run {
                    outcome: Outcome::Pass { value: 0 },
                    effects: c.effects,
                },
            }
        },
    }
}

/// Evaluates the trees of a list, left to right, stopping at the first
/// failure, exactly as [`spec_eval_list`] says.
pub fn eval_list(es: &[Expr], env: &Env) -> (r: ListRun)
    ensures
        view_of_list_run(r) == spec_eval_list(views_of_exprs(es@), view_of_env(*env)),
    decreases es@,
{
    let ghost views = views_of_exprs(es@);
    proof {
        lemma_views_elems(es@);
    }
    if es.len() == 0 {
        ListRun { failure: Option::None, effects: Vec::new() }
    } else {
        let h = eval(&es[0], env);
        proof {
            assert(views[0] == view_of_expr(es@[0]));
        }
        match h.outcome {
            Outcome::Fail { failure } => ListRun {
                failure: Option::Some(failure),
                effects: h.effects,
            },
            Outcome::Pass { .. } => {
                let rest = slice_subrange(es, 1, es.len());
                let t = eval_list(rest, env);
                proof {
                    assert(views_of_exprs(rest@) =~= views.subrange(1, views.len() as int))
                        by {
                        lemma_views_elems(rest@);
                        assert(rest@ =~= es@.subrange(1, es@.len() as int));
                        assert forall|j: int| 0 <= j < rest@.len() implies views_of_exprs(
                            rest@,
                        )[j] == views.subrange(1, views.len() as int)[j] by {
                            assert(views_of_exprs(rest@)[j] == view_of_expr(rest@[j]));
                            assert(views[j + 1] == view_of_expr(es@[j + 1]));
                        }
                    }
                }
                ListRun {
                    failure: t.failure,
                    effects: concat_strings(h.effects, &t.effects),
                }
            },
        }
    }
}

} // verus!
