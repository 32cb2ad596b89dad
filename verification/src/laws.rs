//! The proved statements about the rewrite.
//!
//! All of them are about uninstrumented trees: trees as the host hands
//! them in, before any annotation node has been planted. For such trees
//! the rewrite is success-path transparent, performs exactly the base
//! operations of the original in the original order, and, on a failing
//! run, prepends to the propagating failure exactly one annotation per
//! marker the failure crosses, outermost marker first.

use vstd::prelude::*;
use crate::ast::SpecExpr;
use crate::eval::SpecEnv;
use crate::eval::SpecFailure;
use crate::eval::SpecOutcome;
use crate::eval::spec_base_key;
use crate::eval::spec_eval;
use crate::eval::spec_eval_list;
use crate::eval::spec_lookup_entries;
use crate::label::spec_annotation;
use crate::label::spec_classify;
use crate::rewrite::spec_rewrite;
use crate::rewrite::spec_rewrite_all;

verus! {

/// Holds of a tree that carries no annotation node: the shape of every
/// tree the host hands in.
pub open spec fn uninstrumented(e: SpecExpr) -> bool
    decreases e,
{
    match e {
        SpecExpr::MethodCall { receiver, args, .. } => uninstrumented(*receiver)
            && uninstrumented_all(args),
        SpecExpr::Call { callee, args } => uninstrumented(*callee) && uninstrumented_all(args),
        SpecExpr::PathRef { .. } => true,
        SpecExpr::Marker { inner, .. } => uninstrumented(*inner),
        SpecExpr::Annotate { .. } => false,
        SpecExpr::Other { children } => uninstrumented_all(children),
    }
}

/// Holds of a list of trees none of which carries an annotation node.
pub open spec fn uninstrumented_all(es: Seq<SpecExpr>) -> bool
    decreases es,
{
    es.len() == 0 || (uninstrumented(es[0]) && uninstrumented_all(
        es.subrange(1, es.len() as int),
    ))
}

/// The annotations the rewritten tree adds to a failing run, outermost
/// marker first: one note per marker the failure crosses on its way out,
/// each note the label of that marker's original wrapped expression plus
/// the marker's own position.
pub open spec fn spec_added_notes(e: SpecExpr, env: SpecEnv, file: Seq<char>) -> Seq<Seq<char>>
    decreases e,
{
    match e {
        SpecExpr::Marker { inner, line } => match spec_eval(*inner, env).outcome {
            SpecOutcome::Fail { .. } => seq![
                spec_annotation(spec_classify(*inner), file, line),
            ] + spec_added_notes(*inner, env, file),
            SpecOutcome::Pass { .. } => Seq::empty(),
        },
        SpecExpr::MethodCall { receiver, args, .. } => match spec_eval(*receiver, env).outcome {
            SpecOutcome::Fail { .. } => spec_added_notes(*receiver, env, file),
            SpecOutcome::Pass { .. } => spec_added_notes_list(args, env, file),
        },
        SpecExpr::Call { callee, args } => match spec_eval(*callee, env).outcome {
            SpecOutcome::Fail { .. } => spec_added_notes(*callee, env, file),
            SpecOutcome::Pass { .. } => spec_added_notes_list(args, env, file),
        },
        SpecExpr::PathRef { .. } => Seq::empty(),
        SpecExpr::Annotate { inner, .. } => spec_added_notes(*inner, env, file),
        SpecExpr::Other { children } => spec_added_notes_list(children, env, file),
    }
}

/// The annotations added along a list of trees: those of the first
/// failing tree, if any.
pub open spec fn spec_added_notes_list(
    es: Seq<SpecExpr>,
    env: SpecEnv,
    file: Seq<char>,
) -> Seq<Seq<char>>
    decreases es,
{
    if es.len() == 0 {
        Seq::empty()
    } else {
        match spec_eval(es[0], env).outcome {
            SpecOutcome::Fail { .. } => spec_added_notes(es[0], env, file),
            SpecOutcome::Pass { .. } => spec_added_notes_list(
                es.subrange(1, es.len() as int),
                env,
                file,
            ),
        }
    }
}

/// The number of markers a failing run crosses on its way out of the
/// tree.
pub open spec fn spec_markers_crossed(e: SpecExpr, env: SpecEnv) -> nat
    decreases e,
{
    match e {
        SpecExpr::Marker { inner, .. } => match spec_eval(*inner, env).outcome {
            SpecOutcome::Fail { .. } => 1 + spec_markers_crossed(*inner, env),
            SpecOutcome::Pass { .. } => 0,
        },
        SpecExpr::MethodCall { receiver, args, .. } => match spec_eval(*receiver, env).outcome {
            SpecOutcome::Fail { .. } => spec_markers_crossed(*receiver, env),
            SpecOutcome::Pass { .. } => spec_markers_crossed_list(args, env),
        },
        SpecExpr::Call { callee, args } => match spec_eval(*callee, env).outcome {
            SpecOutcome::Fail { .. } => spec_markers_crossed(*callee, env),
            SpecOutcome::Pass { .. } => spec_markers_crossed_list(args, env),
        },
        SpecExpr::PathRef { .. } => 0,
        SpecExpr::Annotate { inner, .. } => spec_markers_crossed(*inner, env),
        SpecExpr::Other { children } => spec_markers_crossed_list(children, env),
    }
}

/// The number of markers crossed along a list of trees.
pub open spec fn spec_markers_crossed_list(es: Seq<SpecExpr>, env: SpecEnv) -> nat
    decreases es,
{
    if es.len() == 0 {
        0
    } else {
        match spec_eval(es[0], env).outcome {
            SpecOutcome::Fail { .. } => spec_markers_crossed(es[0], env),
            SpecOutcome::Pass { .. } => spec_markers_crossed_list(
                es.subrange(1, es.len() as int),
                env,
            ),
        }
    }
}

/// One annotation per crossed marker: the added chain has exactly as many
/// notes as the failure crossed markers.
pub proof fn lemma_added_notes_count(e: SpecExpr, env: SpecEnv, file: Seq<char>)
    ensures
        spec_added_notes(e, env, file).len() == spec_markers_crossed(e, env),
    decreases e,
{
    match e {
        SpecExpr::Marker { inner, .. } => {
            lemma_added_notes_count(*inner, env, file);
        },
        SpecExpr::MethodCall { receiver, args, .. } => {
            lemma_added_notes_count(*receiver, env, file);
            lemma_added_notes_count_list(args, env, file);
        },
        SpecExpr::Call { callee, args } => {
            lemma_added_notes_count(*callee, env, file);
            lemma_added_notes_count_list(args, env, file);
        },
        SpecExpr::PathRef { .. } => {},
        SpecExpr::Annotate { inner, .. } => {
            lemma_added_notes_count(*inner, env, file);
        },
        SpecExpr::Other { children } => {
            lemma_added_notes_count_list(children, env, file);
        },
    }
}

/// List form of [`lemma_added_notes_count`].
pub proof fn lemma_added_notes_count_list(es: Seq<SpecExpr>, env: SpecEnv, file: Seq<char>)
    ensures
        spec_added_notes_list(es, env, file).len() == spec_markers_crossed_list(es, env),
    decreases es,
{
    if es.len() > 0 {
        lemma_added_notes_count(es[0], env, file);
        lemma_added_notes_count_list(es.subrange(1, es.len() as int), env, file);
    }
}

/// The central statement: rewriting changes nothing about a run except
/// the annotation chain of a propagating failure. The rewritten tree
/// performs exactly the base operations of the original, in the original
/// order; a passing run passes with the same value; a failing run fails
/// with the same cause, with the added notes of the crossed markers in
/// front of the original chain, outermost marker first.
pub proof fn lemma_rewrite_run(e: SpecExpr, env: SpecEnv, file: Seq<char>)
    requires
        uninstrumented(e),
    ensures
        spec_eval(spec_rewrite(e, file), env).effects == spec_eval(e, env).effects,
        (match spec_eval(e, env).outcome {
            SpecOutcome::Pass { value } => spec_eval(spec_rewrite(e, file), env).outcome
                == SpecOutcome::Pass { value },
            SpecOutcome::Fail { failure } => spec_eval(spec_rewrite(e, file), env).outcome
                == SpecOutcome::Fail {
                failure: SpecFailure {
                    notes: spec_added_notes(e, env, file) + failure.notes,
                    cause: failure.cause,
                },
            },
        }),
    decreases e,
{
    let orig = spec_eval(e, env);
    let new = spec_eval(spec_rewrite(e, file), env);
    let goal = (match orig.outcome {
        SpecOutcome::Pass { value } => new.outcome == SpecOutcome::Pass { value },
        SpecOutcome::Fail { failure } => new.outcome == SpecOutcome::Fail {
            failure: SpecFailure {
                notes: spec_added_notes(e, env, file) + failure.notes,
                cause: failure.cause,
            },
        },
    });
    match e {
        SpecExpr::Marker { inner, line } => {
            lemma_rewrite_run(*inner, env, file);
            let note = spec_annotation(spec_classify(*inner), file, line);
            let rw_inner = spec_rewrite(*inner, file);
            let ann = SpecExpr::Annotate { inner: Box::new(rw_inner), note };
            assert(spec_rewrite(e, file) == SpecExpr::Marker { inner: Box::new(ann), line });
            assert(new == spec_eval(ann, env));
            match spec_eval(*inner, env).outcome {
                SpecOutcome::Pass { .. } => {},
                SpecOutcome::Fail { failure } => {
                    let added_inner = spec_added_notes(*inner, env, file);
                    assert(spec_eval(rw_inner, env).outcome == SpecOutcome::Fail {
                        failure: SpecFailure {
                            notes: added_inner + failure.notes,
                            cause: failure.cause,
                        },
                    });
                    assert(spec_eval(ann, env).outcome == SpecOutcome::Fail {
                        failure: SpecFailure {
                            notes: seq![note] + (added_inner + failure.notes),
                            cause: failure.cause,
                        },
                    });
                    assert(spec_added_notes(e, env, file) == seq![note] + added_inner);
                    assert(seq![note] + (added_inner + failure.notes) =~= (seq![note]
                        + added_inner) + failure.notes);
                    assert(new.outcome == SpecOutcome::Fail {
                        failure: SpecFailure {
                            notes: spec_added_notes(e, env, file) + failure.notes,
                            cause: failure.cause,
                        },
                    });
                },
            }
            assert(goal);
        },
        SpecExpr::MethodCall { receiver, method, args } => {
            lemma_rewrite_run(*receiver, env, file);
            let rw_recv = spec_rewrite(*receiver, file);
            let rw_args = spec_rewrite_all(args, file);
            let rw = SpecExpr::MethodCall {
                receiver: Box::new(rw_recv),
                method,
                args: rw_args,
            };
            assert(spec_rewrite(e, file) == rw);
            assert(new == spec_eval(rw, env));
            let r_orig = spec_eval(*receiver, env);
            let r_new = spec_eval(rw_recv, env);
            match r_orig.outcome {
                SpecOutcome::Fail { .. } => {
                    assert(orig == r_orig);
                    assert(new == r_new);
                    assert(spec_added_notes(e, env, file) == spec_added_notes(
                        *receiver,
                        env,
                        file,
                    ));
                },
                SpecOutcome::Pass { .. } => {
                    lemma_rewrite_run_list(args, env, file);
                    let a_orig = spec_eval_list(args, env);
                    let a_new = spec_eval_list(rw_args, env);
                    assert(spec_added_notes(e, env, file) == spec_added_notes_list(
                        args,
                        env,
                        file,
                    ));
                    match a_orig.failure {
                        Option::Some(f) => {
                            assert(orig.outcome == SpecOutcome::Fail { failure: f });
                            assert(a_new.failure == Option::Some(
                                SpecFailure {
                                    notes: spec_added_notes_list(args, env, file) + f.notes,
                                    cause: f.cause,
                                },
                            ));
                        },
                        Option::None => {
                            assert(a_new.failure is None);
                            assert(new.outcome == spec_lookup_entries(env.entries, method));
                            assert(orig.outcome == spec_lookup_entries(env.entries, method));
                            match orig.outcome {
                                SpecOutcome::Pass { .. } => {},
                                SpecOutcome::Fail { failure } => {
                                    assert(spec_added_notes(e, env, file) + failure.notes
                                        =~= failure.notes);
                                },
                            }
                        },
                    }
                },
            }
            assert(goal);
        },
        SpecExpr::Call { callee, args } => {
            lemma_rewrite_run(*callee, env, file);
            let rw_callee = spec_rewrite(*callee, file);
            let rw_args = spec_rewrite_all(args, file);
            let rw = SpecExpr::Call { callee: Box::new(rw_callee), args: rw_args };
            assert(spec_rewrite(e, file) == rw);
            assert(new == spec_eval(rw, env));
            assert(spec_base_key(rw) == spec_base_key(e)) by {
                match *callee {
                    SpecExpr::MethodCall { .. } => {},
                    SpecExpr::Call { .. } => {},
                    SpecExpr::PathRef { .. } => {},
                    SpecExpr::Marker { .. } => {},
                    SpecExpr::Annotate { .. } => {},
                    SpecExpr::Other { .. } => {},
                }
            }
            let r_orig = spec_eval(*callee, env);
            let r_new = spec_eval(rw_callee, env);
            match r_orig.outcome {
                SpecOutcome::Fail { .. } => {
                    assert(orig == r_orig);
                    assert(new == r_new);
                    assert(spec_added_notes(e, env, file) == spec_added_notes(
                        *callee,
                        env,
                        file,
                    ));
                },
                SpecOutcome::Pass { .. } => {
                    lemma_rewrite_run_list(args, env, file);
                    let a_orig = spec_eval_list(args, env);
                    let a_new = spec_eval_list(rw_args, env);
                    assert(spec_added_notes(e, env, file) == spec_added_notes_list(
                        args,
                        env,
                        file,
                    ));
                    match a_orig.failure {
                        Option::Some(f) => {
                            assert(orig.outcome == SpecOutcome::Fail { failure: f });
                            assert(a_new.failure == Option::Some(
                                SpecFailure {
                                    notes: spec_added_notes_list(args, env, file) + f.notes,
                                    cause: f.cause,
                                },
                            ));
                        },
                        Option::None => {
                            assert(a_new.failure is None);
                            assert(new.outcome == spec_lookup_entries(
                                env.entries,
                                spec_base_key(e),
                            ));
                            assert(orig.outcome == spec_lookup_entries(
                                env.entries,
                                spec_base_key(e),
                            ));
                            match orig.outcome {
                                SpecOutcome::Pass { .. } => {},
                                SpecOutcome::Fail { failure } => {
                                    assert(spec_added_notes(e, env, file) + failure.notes
                                        =~= failure.notes);
                                },
                            }
                        },
                    }
                },
            }
            assert(goal);
        },
        SpecExpr::PathRef { .. } => {
            assert(goal);
        },
        SpecExpr::Annotate { .. } => {},
        SpecExpr::Other { children } => {
            lemma_rewrite_run_list(children, env, file);
            assert(goal);
        },
    }
}

/// List form of [`lemma_rewrite_run`], for the trees of call arguments
/// and of the children of an unrecognized shape.
pub proof fn lemma_rewrite_run_list(es: Seq<SpecExpr>, env: SpecEnv, file: Seq<char>)
    requires
        uninstrumented_all(es),
    ensures
        spec_eval_list(spec_rewrite_all(es, file), env).effects == spec_eval_list(
            es,
            env,
        ).effects,
        spec_eval_list(es, env).failure is None ==> spec_added_notes_list(es, env, file)
            == Seq::<Seq<char>>::empty(),
        (match spec_eval_list(es, env).failure {
            Option::None => spec_eval_list(spec_rewrite_all(es, file), env).failure
                is None,
            Option::Some(f) => spec_eval_list(spec_rewrite_all(es, file), env).failure
                == Option::Some(
                SpecFailure {
                    notes: spec_added_notes_list(es, env, file) + f.notes,
                    cause: f.cause,
                },
            ),
        }),
    decreases es,
{
    if es.len() > 0 {
        let tail = es.subrange(1, es.len() as int);
        lemma_rewrite_run(es[0], env, file);
        lemma_rewrite_run_list(tail, env, file);
        let rw = spec_rewrite_all(es, file);
        assert(rw[0] == spec_rewrite(es[0], file));
        assert(rw.subrange(1, rw.len() as int) =~= spec_rewrite_all(tail, file));
    }
}

/// Success-path transparency: when a tree's run passes, the rewritten
/// tree's run is indistinguishable from it — the same value comes back
/// and the same base operations run, in the same order.
pub proof fn lemma_success_path_transparent(e: SpecExpr, env: SpecEnv, file: Seq<char>)
    requires
        uninstrumented(e),
        (spec_eval(e, env).outcome is Pass),
    ensures
        spec_eval(spec_rewrite(e, file), env).outcome == spec_eval(e, env).outcome,
        spec_eval(spec_rewrite(e, file), env).effects == spec_eval(e, env).effects,
{
    lemma_rewrite_run(e, env, file);
}

/// No duplicated evaluation: rewriting never changes which base
/// operations a run performs, how often, or in what order — on passing
/// and on failing runs alike.
pub proof fn lemma_effects_preserved(e: SpecExpr, env: SpecEnv, file: Seq<char>)
    requires
        uninstrumented(e),
    ensures
        spec_eval(spec_rewrite(e, file), env).effects == spec_eval(e, env).effects,
{
    lemma_rewrite_run(e, env, file);
}

/// Propagation count: when the original run fails with a bare cause (an
/// empty annotation chain), the rewritten run's chain holds exactly one
/// note per crossed marker — never more, never fewer.
pub proof fn lemma_propagation_count(e: SpecExpr, env: SpecEnv, file: Seq<char>)
    requires
        uninstrumented(e),
        (match spec_eval(e, env).outcome {
            SpecOutcome::Fail { failure } => failure.notes.len() == 0,
            SpecOutcome::Pass { .. } => false,
        }),
    ensures
        (match spec_eval(spec_rewrite(e, file), env).outcome {
            SpecOutcome::Fail { failure } => failure.notes.len() == spec_markers_crossed(
                e,
                env,
            ),
            SpecOutcome::Pass { .. } => false,
        }),
{
    lemma_rewrite_run(e, env, file);
    lemma_added_notes_count(e, env, file);
}

/// Position accuracy: the note a marker's replacement attaches carries
/// the marker's own line, not that of any enclosing construct, and the
/// label of the marker's own wrapped expression, taken before that
/// expression was itself rewritten.
pub proof fn lemma_note_position(inner: SpecExpr, line: u64, file: Seq<char>)
    ensures
        (spec_rewrite(SpecExpr::Marker { inner: Box::new(inner), line }, file)
            == SpecExpr::Marker {
            inner: Box::new(
                SpecExpr::Annotate {
                    inner: Box::new(spec_rewrite(inner, file)),
                    note: spec_annotation(spec_classify(inner), file, line),
                },
            ),
            line,
        }),
{
    let m = SpecExpr::Marker { inner: Box::new(inner), line };
    assert(spec_rewrite(m, file) == SpecExpr::Marker {
        inner: Box::new(
            SpecExpr::Annotate {
                inner: Box::new(spec_rewrite(inner, file)),
                note: spec_annotation(spec_classify(inner), file, line),
            },
        ),
        line,
    });
}

/// Nesting: a marker directly wrapping another marker contributes its own
/// note first, then the inner marker's, each exactly once, ahead of
/// whatever the doubly wrapped tree itself added.
pub proof fn lemma_nested_markers(
    x: SpecExpr,
    inner_line: u64,
    outer_line: u64,
    env: SpecEnv,
    file: Seq<char>,
)
    requires
        (spec_eval(x, env).outcome is Fail),
    ensures
        ({
            let inner_marker = SpecExpr::Marker { inner: Box::new(x), line: inner_line };
            let outer_marker = SpecExpr::Marker {
                inner: Box::new(inner_marker),
                line: outer_line,
            };
            spec_added_notes(outer_marker, env, file) == seq![
                spec_annotation(spec_classify(inner_marker), file, outer_line),
                spec_annotation(spec_classify(x), file, inner_line),
            ] + spec_added_notes(x, env, file)
        }),
{
    let inner_marker = SpecExpr::Marker { inner: Box::new(x), line: inner_line };
    let outer_marker = SpecExpr::Marker { inner: Box::new(inner_marker), line: outer_line };
    let note_outer = spec_annotation(spec_classify(inner_marker), file, outer_line);
    let note_inner = spec_annotation(spec_classify(x), file, inner_line);
    assert(spec_eval(inner_marker, env) == spec_eval(x, env));
    assert(spec_added_notes(inner_marker, env, file) == seq![note_inner] + spec_added_notes(
        x,
        env,
        file,
    ));
    assert(spec_added_notes(outer_marker, env, file) == seq![note_outer] + (seq![note_inner]
        + spec_added_notes(x, env, file)));
    assert(seq![note_outer] + (seq![note_inner] + spec_added_notes(x, env, file))
        =~= seq![note_outer, note_inner] + spec_added_notes(x, env, file));
}

} // verus!
