use auto_context::ast::{Expr, Item, Member, Method};
use auto_context::eval::{eval, eval_list, lookup, Env, EnvEntry, Failure, Outcome, Run};
use auto_context::label::{annotation, classify, decimal, generic_label_text, join_path};
use auto_context::rewrite::{process, walk, walk_all};

fn s(t: &str) -> String {
    t.to_string()
}

fn path(segs: &[&str]) -> Expr {
    Expr::PathRef { segments: segs.iter().map(|x| x.to_string()).collect() }
}

fn method_call(receiver: Expr, name: &str, args: Vec<Expr>) -> Expr {
    Expr::MethodCall { receiver: Box::new(receiver), method: s(name), args }
}

fn call(callee: Expr, args: Vec<Expr>) -> Expr {
    Expr::Call { callee: Box::new(callee), args }
}

fn marker(inner: Expr, line: u64) -> Expr {
    Expr::Marker { inner: Box::new(inner), line }
}

fn other(children: Vec<Expr>) -> Expr {
    Expr::Other { children }
}

fn bare_failure(cause: &str) -> Outcome {
    Outcome::Fail { failure: Failure { notes: Vec::new(), cause: s(cause) } }
}

fn env(entries: Vec<(&str, Outcome)>) -> Env {
    Env {
        entries: entries
            .into_iter()
            .map(|(k, o)| EnvEntry { key: s(k), outcome: o })
            .collect(),
    }
}

fn expect_failure(run: Run) -> Failure {
    match run.outcome {
        Outcome::Fail { failure } => failure,
        Outcome::Pass { .. } => panic!("expected a failure"),
    }
}

/// Renders a failure the way the annotatable-failure abstraction does:
/// the outermost note first, then a "Caused by:" block with indices from
/// zero, ending in the causal message.
fn render(f: &Failure) -> String {
    let mut out = f.notes[0].clone();
    out.push_str("\n\nCaused by:");
    let mut idx: usize = 0;
    for n in f.notes[1..].iter() {
        out.push_str(&format!("\n    {}: {}", idx, n));
        idx += 1;
    }
    out.push_str(&format!("\n    {}: {}", idx, f.cause));
    out
}

fn body_of(member: &Member) -> &Vec<Expr> {
    match member {
        Member::Function(f) => &f.body,
        Member::NotFunction => panic!("expected a function-like member"),
    }
}

#[test]
fn test_all() {
    let file = "tests/src/lib.rs";
    let impl_item = Item::ImplBlock {
        members: vec![
            Member::Function(Method { name: s("fail"), body: vec![other(vec![])] }),
            Member::Function(Method {
                name: s("method_call"),
                body: vec![
                    marker(method_call(path(&["self"]), "fail", vec![]), 14),
                    other(vec![]),
                ],
            }),
            Member::Function(Method {
                name: s("function_call"),
                body: vec![
                    marker(method_call(other(vec![]), "method_call", vec![]), 20),
                    other(vec![]),
                ],
            }),
            Member::Function(Method {
                name: s("identifier"),
                body: vec![marker(path(&["res"]), 27), other(vec![])],
            }),
        ],
    };
    let free_fn = Item::Function(Method {
        name: s("some_expression"),
        body: vec![marker(other(vec![path(&["res"])]), 36), other(vec![])],
    });

    let rewritten_impl = process(impl_item, file);
    let rewritten_free = process(free_fn, file);
    let members = match rewritten_impl {
        Item::ImplBlock { members } => members,
        _ => panic!("expected the impl-like unit back"),
    };
    let free_body = match rewritten_free {
        Item::Function(f) => f.body,
        _ => panic!("expected the function unit back"),
    };

    let env1 = env(vec![("fail", bare_failure("fail"))]);
    let run1 = eval_list(body_of(&members[1]).as_slice(), &env1);
    let f1 = run1.failure.expect("method_call should fail");
    assert_eq!(f1.notes, vec![s(".fail() @ tests/src/lib.rs::14")]);

    let env2 = env(vec![("method_call", Outcome::Fail { failure: f1 })]);
    let run2 = eval_list(body_of(&members[2]).as_slice(), &env2);
    let f2 = run2.failure.expect("function_call should fail");

    let env3 = env(vec![("res", Outcome::Fail { failure: f2 })]);
    let run3 = eval_list(body_of(&members[3]).as_slice(), &env3);
    let f3 = run3.failure.expect("identifier should fail");

    let env4 = env(vec![("res", Outcome::Fail { failure: f3 })]);
    let run4 = eval_list(free_body.as_slice(), &env4);
    let f4 = run4.failure.expect("some_expression should fail");

    assert_eq!(
        f4.notes,
        vec![
            s("(.. some expr ..) @ tests/src/lib.rs::36"),
            s("res @ tests/src/lib.rs::27"),
            s(".method_call() @ tests/src/lib.rs::20"),
            s(".fail() @ tests/src/lib.rs::14"),
        ]
    );
    assert_eq!(f4.cause, s("fail"));
    assert_eq!(
        render(&f4),
        "(.. some expr ..) @ tests/src/lib.rs::36\n\nCaused by:\n    0: res @ tests/src/lib.rs::27\n    1: .method_call() @ tests/src/lib.rs::20\n    2: .fail() @ tests/src/lib.rs::14\n    3: fail"
    );
}

#[test]
fn classify_method_call_no_args() {
    assert_eq!(classify(&method_call(path(&["self"]), "method_call", vec![])), ".method_call()");
    assert_eq!(classify(&method_call(path(&["self"]), "fail", vec![])), ".fail()");
}

#[test]
fn classify_method_call_with_args() {
    let e = method_call(path(&["self"]), "push", vec![path(&["x"])]);
    assert_eq!(classify(&e), ".push(..)");
}

#[test]
fn classify_free_call() {
    let e = call(path(&["some", "func"]), vec![path(&["x"])]);
    assert_eq!(classify(&e), "some::func(..)");
    let e = call(path(&["Test", "function_call"]), vec![]);
    assert_eq!(classify(&e), "Test::function_call()");
}

#[test]
fn classify_bare_identifier() {
    assert_eq!(classify(&path(&["res"])), "res");
    assert_eq!(classify(&path(&["a", "b", "c"])), "a::b::c");
}

#[test]
fn classify_other_shapes_share_one_label() {
    let tuple_index = other(vec![path(&["res"])]);
    assert_eq!(classify(&tuple_index), "(.. some expr ..)");
    assert_eq!(classify(&other(vec![])), generic_label_text());
    let computed_callee = call(other(vec![]), vec![]);
    assert_eq!(classify(&computed_callee), generic_label_text());
}

#[test]
fn join_path_renders_segments() {
    assert_eq!(join_path(&vec![s("a"), s("b"), s("c")]), "a::b::c");
    assert_eq!(join_path(&vec![s("x")]), "x");
    assert_eq!(join_path(&Vec::new()), "");
}

#[test]
fn decimal_renders_lines() {
    assert_eq!(decimal(0), "0");
    assert_eq!(decimal(7), "7");
    assert_eq!(decimal(10), "10");
    assert_eq!(decimal(123), "123");
    assert_eq!(decimal(u64::MAX), "18446744073709551615");
}

#[test]
fn annotation_has_label_file_and_line() {
    assert_eq!(annotation("res", "tests/src/lib.rs", 27), "res @ tests/src/lib.rs::27");
    assert_eq!(annotation(".fail()", "a.rs", 1), ".fail() @ a.rs::1");
}

#[test]
fn position_is_the_marker_line() {
    // The marker sits on line 9; the statement around it spans other
    // lines, which never show up in the note.
    let e = other(vec![marker(method_call(path(&["x"]), "go", vec![]), 9)]);
    let rewritten = walk(e, "lib.rs");
    let env1 = env(vec![("go", bare_failure("down"))]);
    let f = expect_failure(eval(&rewritten, &env1));
    assert_eq!(f.notes, vec![s(".go() @ lib.rs::9")]);
}

#[test]
fn nested_markers_annotate_outer_first() {
    // A marker wrapping a method call one of whose arguments carries its
    // own marker: both notes appear, outer marker first, each once.
    let e = marker(
        method_call(path(&["a"]), "outer", vec![marker(path(&["b"]), 2)]),
        1,
    );
    let rewritten = walk(e, "f.rs");
    let env1 = env(vec![("b", bare_failure("boom"))]);
    let f = expect_failure(eval(&rewritten, &env1));
    assert_eq!(f.notes, vec![s(".outer(..) @ f.rs::1"), s("b @ f.rs::2")]);
    assert_eq!(f.cause, s("boom"));
}

#[test]
fn directly_nested_markers_count_once_each() {
    // Three markers stacked on one failing path: exactly three notes and
    // one cause.
    let e = marker(marker(marker(path(&["x"]), 3), 2), 1);
    let rewritten = walk(e, "f.rs");
    let env1 = env(vec![("x", bare_failure("fail"))]);
    let f = expect_failure(eval(&rewritten, &env1));
    assert_eq!(f.notes.len(), 3);
    assert_eq!(f.cause, s("fail"));
    // The inner markers wrap markers, so their labels fall back to the
    // generic one; the innermost wraps the identifier.
    assert_eq!(
        f.notes,
        vec![
            s("(.. some expr ..) @ f.rs::1"),
            s("(.. some expr ..) @ f.rs::2"),
            s("x @ f.rs::3"),
        ]
    );
}

#[test]
fn success_path_is_transparent() {
    let e = marker(
        method_call(path(&["conn"]), "send", vec![marker(path(&["msg"]), 5)]),
        4,
    );
    let env1 = env(vec![("send", Outcome::Pass { value: 7 })]);
    let before = eval(&e, &env1);
    let rewritten = walk(e, "f.rs");
    let after = eval(&rewritten, &env1);
    match (before.outcome, after.outcome) {
        (Outcome::Pass { value: a }, Outcome::Pass { value: b }) => {
            assert_eq!(a, 7);
            assert_eq!(b, 7);
        },
        _ => panic!("both runs should pass"),
    }
    assert_eq!(before.effects, after.effects);
}

#[test]
fn effects_run_once_before_and_after() {
    // The wrapped call's side effect happens exactly once per run,
    // whether or not the tree was rewritten, and whether it fails.
    let envs = [
        env(vec![("write", bare_failure("disk full"))]),
        env(vec![("write", Outcome::Pass { value: 1 })]),
    ];
    for env1 in envs {
        let e = marker(method_call(path(&["logger"]), "write", vec![path(&["msg"])]), 3);
        let before = eval(&e, &env1);
        let rewritten = walk(e, "f.rs");
        let after = eval(&rewritten, &env1);
        assert_eq!(before.effects, after.effects);
        let hits = after.effects.iter().filter(|k| *k == "write").count();
        assert_eq!(hits, 1);
    }
}

#[test]
fn walk_all_rewrites_each_statement() {
    let body = vec![
        marker(path(&["a"]), 1),
        other(vec![]),
        marker(path(&["b"]), 2),
    ];
    let rewritten = walk_all(body, "f.rs");
    assert_eq!(rewritten.len(), 3);
    let env1 = env(vec![("b", bare_failure("late"))]);
    let run = eval_list(rewritten.as_slice(), &env1);
    let f = run.failure.expect("the third statement should fail");
    assert_eq!(f.notes, vec![s("b @ f.rs::2")]);
}

#[test]
fn process_leaves_other_units_alone() {
    match process(Item::OtherItem, "f.rs") {
        Item::OtherItem => {},
        _ => panic!("a unit without function bodies passes through unchanged"),
    }
    let unit = Item::ImplBlock {
        members: vec![Member::NotFunction],
    };
    match process(unit, "f.rs") {
        Item::ImplBlock { members } => {
            assert!(matches!(members[0], Member::NotFunction));
            assert_eq!(members.len(), 1);
        },
        _ => panic!("the impl-like unit should come back"),
    }
}

#[test]
fn process_keeps_method_names() {
    let unit = Item::Function(Method {
        name: s("run"),
        body: vec![marker(path(&["r"]), 12)],
    });
    match process(unit, "f.rs") {
        Item::Function(f) => {
            assert_eq!(f.name, s("run"));
            assert_eq!(f.body.len(), 1);
            match &f.body[0] {
                Expr::Marker { inner, line } => {
                    assert_eq!(*line, 12);
                    match &**inner {
                        Expr::Annotate { note, .. } => {
                            assert_eq!(note, "r @ f.rs::12");
                        },
                        _ => panic!("the marker should wrap the annotation node"),
                    }
                },
                _ => panic!("the replacement is itself a marker"),
            }
        },
        _ => panic!("expected the function unit back"),
    }
}

#[test]
fn lookup_unnamed_operation_passes() {
    let env1 = env(vec![("a", bare_failure("x"))]);
    match lookup(&env1, &s("missing")) {
        Outcome::Pass { value } => assert_eq!(value, 0),
        Outcome::Fail { .. } => panic!("an unnamed operation passes"),
    }
}
