use projection::expr::{Expr, Op, Selector};
use projection::error::ProjError;
use projection::meta::MetaNameSpace;

fn col(name: &str) -> Expr {
    Expr::Column(name.to_string())
}

fn alias(e: Expr, name: &str) -> Expr {
    Expr::Alias(Box::new(e), name.to_string())
}

fn add(l: Expr, r: Expr) -> Expr {
    Expr::BinaryExpr(Box::new(l), Op::Plus, Box::new(r))
}

#[test]
fn pop_on_add_node_returns_operands() {
    let e = add(col("a"), col("b"));
    let children = MetaNameSpace(e).pop();
    assert_eq!(children.len(), 2);
    assert!(projection::expr::expr_eq(&children[0], &col("a")));
    assert!(projection::expr::expr_eq(&children[1], &col("b")));
}

#[test]
fn pop_on_alias_returns_wrapped_node() {
    let e = alias(add(col("a"), col("b")), "s");
    let children = MetaNameSpace(e).pop();
    assert_eq!(children.len(), 1);
    assert!(projection::expr::expr_eq(&children[0], &add(col("a"), col("b"))));
}

#[test]
fn pop_on_leaf_returns_nothing() {
    let children = MetaNameSpace(col("a")).pop();
    assert!(children.is_empty());
}

#[test]
fn root_names_in_encounter_order() {
    let e = alias(add(col("a"), add(col("b"), col("a"))), "s");
    let names = MetaNameSpace(e).root_names();
    let as_strs: Vec<&str> = names.iter().map(|s| s.as_str()).collect();
    assert_eq!(as_strs, vec!["a", "b", "a"]);
}

#[test]
fn root_names_sees_partition_keys() {
    let e = Expr::Window {
        expr: Box::new(col("x")),
        partition_by: vec![col("k1"), col("k2")],
    };
    let names = MetaNameSpace(e).root_names();
    let as_strs: Vec<&str> = names.iter().map(|s| s.as_str()).collect();
    assert_eq!(as_strs, vec!["x", "k1", "k2"]);
}

#[test]
fn simple_projection_detection() {
    assert!(MetaNameSpace(col("a")).is_simple_projection());
    assert!(MetaNameSpace(alias(col("a"), "x")).is_simple_projection());
    assert!(!MetaNameSpace(add(col("a"), col("b"))).is_simple_projection());
    assert!(!MetaNameSpace(alias(add(col("a"), col("b")), "x")).is_simple_projection());
}

#[test]
fn output_name_prefers_alias() {
    let n = MetaNameSpace(alias(add(col("a"), col("b")), "s")).output_name().unwrap();
    assert_eq!(n, "s");
    let n2 = MetaNameSpace(col("a")).output_name().unwrap();
    assert_eq!(n2, "a");
}

#[test]
fn output_name_fails_without_context() {
    let r = MetaNameSpace(Expr::KeepName(Box::new(col("a")))).output_name();
    assert!(matches!(r, Err(ProjError::NoOutputName)));
    let r2 = MetaNameSpace(Expr::Literal(3)).output_name();
    assert!(matches!(r2, Err(ProjError::NoOutputName)));
    let r3 = MetaNameSpace(Expr::Wildcard).output_name();
    assert!(matches!(r3, Err(ProjError::NoOutputName)));
}

#[test]
fn undo_aliases_strips_nested_wrappers() {
    let e = alias(
        Expr::KeepName(Box::new(Expr::RenameAlias(Box::new(col("a")), "_sfx".to_string()))),
        "y",
    );
    let undone = MetaNameSpace(e).undo_aliases();
    assert!(projection::expr::expr_eq(&undone, &col("a")));
}

#[test]
fn undo_aliases_rewrites_inside_compute_nodes() {
    let e = add(alias(col("a"), "x"), col("b"));
    let undone = MetaNameSpace(e).undo_aliases();
    assert!(projection::expr::expr_eq(&undone, &add(col("a"), col("b"))));
}

#[test]
fn multiple_outputs_detection() {
    assert!(MetaNameSpace(Expr::Wildcard).has_multiple_outputs());
    assert!(MetaNameSpace(Expr::Columns(vec!["a".to_string(), "b".to_string()]))
        .has_multiple_outputs());
    assert!(MetaNameSpace(Expr::DtypeColumn).has_multiple_outputs());
    assert!(MetaNameSpace(col("^x.*$")).has_multiple_outputs());
    assert!(!MetaNameSpace(add(col("a"), col("b"))).has_multiple_outputs());
}

#[test]
fn regex_projection_detection() {
    assert!(MetaNameSpace(col("^x.*$")).is_regex_projection());
    assert!(MetaNameSpace(add(col("a"), col("^b$"))).is_regex_projection());
    assert!(!MetaNameSpace(col("a")).is_regex_projection());
    assert!(!MetaNameSpace(Expr::Wildcard).is_regex_projection());
    assert!(!MetaNameSpace(col("^half")).is_regex_projection());
}

#[test]
fn into_selector_wraps_once() {
    let s = MetaNameSpace(col("a"))._into_selector().unwrap();
    match &s {
        Expr::Selector(sel) => {
            assert_eq!(sel.add.len(), 1);
            assert!(sel.subtract.is_empty());
        },
        _ => panic!("expected a selector"),
    }
    let nested = MetaNameSpace(s)._into_selector();
    assert!(matches!(nested, Err(ProjError::NestedSelector)));
}

#[test]
fn selector_add_appends_and_merges() {
    let s = MetaNameSpace(col("a"))._into_selector().unwrap();
    let s = MetaNameSpace(s)._selector_add(col("b")).unwrap();
    match &s {
        Expr::Selector(sel) => assert_eq!(sel.add.len(), 2),
        _ => panic!("expected a selector"),
    }
    let other = Expr::Selector(Selector { add: vec![col("c")], subtract: vec![col("d")] });
    let s = MetaNameSpace(s)._selector_add(other).unwrap();
    match &s {
        Expr::Selector(sel) => {
            assert_eq!(sel.add.len(), 3);
            assert_eq!(sel.subtract.len(), 1);
        },
        _ => panic!("expected a selector"),
    }
}

#[test]
fn selector_sub_appends_to_subtract() {
    let s = MetaNameSpace(col("a"))._into_selector().unwrap();
    let s = MetaNameSpace(s)._selector_sub(col("b")).unwrap();
    match &s {
        Expr::Selector(sel) => {
            assert_eq!(sel.add.len(), 1);
            assert_eq!(sel.subtract.len(), 1);
        },
        _ => panic!("expected a selector"),
    }
}

#[test]
fn selector_ops_refuse_non_selector() {
    let r = MetaNameSpace(col("a"))._selector_add(col("b"));
    assert!(matches!(r, Err(ProjError::NotASelector)));
    let r2 = MetaNameSpace(col("a"))._selector_sub(col("b"));
    assert!(matches!(r2, Err(ProjError::NotASelector)));
}

#[test]
fn arena_round_trip_keeps_structure() {
    let e = Expr::Window {
        expr: Box::new(alias(add(col("a"), Expr::Literal(7)), "w")),
        partition_by: vec![col("k"), add(col("k"), Expr::Literal(1))],
    };
    let mut arena = projection::arena::Arena::new();
    let id = arena.lower(&e);
    let back = arena.raise(id);
    assert!(projection::expr::expr_eq(&back, &e));
}

#[test]
fn pop_on_window_returns_inner_then_keys() {
    let e = Expr::Window {
        expr: Box::new(col("x")),
        partition_by: vec![col("k1"), col("k2")],
    };
    let children = MetaNameSpace(e).pop();
    assert_eq!(children.len(), 3);
    assert!(projection::expr::expr_eq(&children[0], &col("x")));
    assert!(projection::expr::expr_eq(&children[1], &col("k1")));
    assert!(projection::expr::expr_eq(&children[2], &col("k2")));
}

#[test]
fn expr_eq_is_structural() {
    assert!(projection::expr::expr_eq(&col("a"), &col("a")));
    assert!(!projection::expr::expr_eq(&col("a"), &col("b")));
    assert!(!projection::expr::expr_eq(&col("a"), &alias(col("a"), "a")));
    let w1 = Expr::Window { expr: Box::new(col("x")), partition_by: vec![col("a"), col("b")] };
    let w2 = Expr::Window { expr: Box::new(col("x")), partition_by: vec![col("b"), col("a")] };
    assert!(!projection::expr::expr_eq(&w1, &w2));
}
