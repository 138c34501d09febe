use projection::column::{Column, Table};
use projection::error::ProjError;
use projection::executor::{evaluate_physical_expressions, profile_name};
use projection::expr::{Expr, Op};
use projection::physical::PhysicalExpr;
use projection::state::{CachedPartition, ExecutionState};
use projection::window::{
    execute_projection_cached_window_fns,
    init_group_state,
    partition_window_groups,
    run_exprs_par,
    set_expr_cache_flag,
};

fn col(name: &str) -> Expr {
    Expr::Column(name.to_string())
}

fn alias(e: Expr, name: &str) -> Expr {
    Expr::Alias(Box::new(e), name.to_string())
}

fn binary(l: Expr, op: Op, r: Expr) -> Expr {
    Expr::BinaryExpr(Box::new(l), op, Box::new(r))
}

fn window(e: Expr, keys: Vec<Expr>) -> Expr {
    Expr::Window { expr: Box::new(e), partition_by: keys }
}

fn table_a() -> Table {
    Table { columns: vec![Column::new("A".to_string(), vec![1, 2, 3])] }
}

#[test]
fn scenario_alias_times_two_and_literal() {
    let mut df = table_a();
    let exprs = vec![
        PhysicalExpr::new(alias(binary(col("A"), Op::Multiply, Expr::Literal(2)), "B")),
        PhysicalExpr::new(Expr::Literal(10)),
    ];
    let mut state = ExecutionState::new();
    let cse: Vec<PhysicalExpr> = Vec::new();
    let cols = evaluate_physical_expressions(&mut df, &cse, &exprs, &mut state, false).unwrap();
    let out = projection::assemble::check_expand_literals(cols, false).unwrap();
    assert_eq!(out.columns.len(), 2);
    assert_eq!(out.columns[0].name, "B");
    assert_eq!(out.columns[0].values, vec![2, 4, 6]);
    assert_eq!(out.columns[1].name, "literal");
    assert_eq!(out.columns[1].values, vec![10, 10, 10]);
}

#[test]
fn broadcasting_inside_arithmetic() {
    let df = table_a();
    let exprs = vec![PhysicalExpr::new(binary(Expr::Literal(5), Op::Minus, col("A")))];
    let state = ExecutionState::new();
    let cols = run_exprs_par(&df, &exprs, &state).unwrap();
    assert_eq!(cols[0].values, vec![4, 3, 2]);
    assert_eq!(cols[0].name, "literal");
}

#[test]
fn missing_column_is_reported() {
    let df = table_a();
    let exprs = vec![PhysicalExpr::new(col("Z"))];
    let state = ExecutionState::new();
    let r = run_exprs_par(&df, &exprs, &state);
    assert!(matches!(r, Err(ProjError::ColumnNotFound(n)) if n == "Z"));
}

#[test]
fn wildcard_cannot_evaluate_to_one_column() {
    let df = table_a();
    let exprs = vec![PhysicalExpr::new(Expr::Wildcard)];
    let state = ExecutionState::new();
    let r = run_exprs_par(&df, &exprs, &state);
    assert!(matches!(r, Err(ProjError::MultipleOutputs)));
}

#[test]
fn parallel_path_matches_sequential_reference() {
    let df = table_a();
    let exprs = vec![
        PhysicalExpr::new(alias(binary(col("A"), Op::Plus, Expr::Literal(1)), "p")),
        PhysicalExpr::new(alias(binary(col("A"), Op::Multiply, col("A")), "q")),
        PhysicalExpr::new(Expr::Literal(0)),
    ];
    let state = ExecutionState::new();
    let par = run_exprs_par(&df, &exprs, &state).unwrap();
    let seq = execute_projection_cached_window_fns(&df, &exprs, &state).unwrap();
    assert_eq!(par.len(), seq.len());
    for (a, b) in par.iter().zip(seq.iter()) {
        assert_eq!(a.name, b.name);
        assert_eq!(a.values, b.values);
    }
}

#[test]
fn window_results_return_in_declared_order() {
    let df = table_a();
    let exprs = vec![
        PhysicalExpr::new(alias(window(col("A"), vec![col("A")]), "w1")),
        PhysicalExpr::new(alias(col("A"), "plain")),
        PhysicalExpr::new(alias(window(binary(col("A"), Op::Plus, Expr::Literal(1)), vec![col("A")]), "w2")),
    ];
    let state = ExecutionState::new();
    let cols = execute_projection_cached_window_fns(&df, &exprs, &state).unwrap();
    assert_eq!(cols[0].name, "w1");
    assert_eq!(cols[0].values, vec![1, 2, 3]);
    assert_eq!(cols[1].name, "plain");
    assert_eq!(cols[2].name, "w2");
    assert_eq!(cols[2].values, vec![2, 3, 4]);
}

#[test]
fn identical_partition_keys_share_a_group() {
    let exprs = vec![
        PhysicalExpr::new(window(col("x"), vec![col("a"), col("b")])),
        PhysicalExpr::new(col("plain")),
        PhysicalExpr::new(window(col("y"), vec![col("a"), col("b")])),
        PhysicalExpr::new(window(col("z"), vec![col("b"), col("a")])),
    ];
    let (groups, plain) = partition_window_groups(&exprs);
    assert_eq!(plain, vec![1]);
    assert_eq!(groups.len(), 2);
    assert_eq!(groups[0], vec![0, 2]);
    assert_eq!(groups[1], vec![3]);
}

#[test]
fn group_state_defaults_follow_group_size() {
    let parent = ExecutionState::new();
    let single = init_group_state(&parent, 1);
    assert!(single.has_window_function);
    assert!(!single.cache_window_results);
    let shared = init_group_state(&parent, 2);
    assert!(shared.has_window_function);
    assert!(shared.cache_window_results);
}

#[test]
fn per_expression_caching_needs_exactly_one_window() {
    let parent = ExecutionState::new();
    let mut st = init_group_state(&parent, 2);
    let one = window(col("x"), vec![col("a")]);
    set_expr_cache_flag(&mut st, &one);
    assert!(st.cache_window_results);
    let two = binary(
        window(col("x"), vec![col("a")]),
        Op::Plus,
        window(col("y"), vec![col("a")]),
    );
    set_expr_cache_flag(&mut st, &two);
    assert!(!st.cache_window_results);
    let zero = col("x");
    set_expr_cache_flag(&mut st, &zero);
    assert!(!st.cache_window_results);
}

#[test]
fn cse_staging_restores_width_and_renames() {
    let mut df = table_a();
    let cse = vec![PhysicalExpr::new(alias(
        binary(col("A"), Op::Multiply, Expr::Literal(2)),
        "_cse_B",
    ))];
    let exprs = vec![PhysicalExpr::new(col("_cse_B"))];
    let mut state = ExecutionState::new();
    let cols = evaluate_physical_expressions(&mut df, &cse, &exprs, &mut state, false).unwrap();
    assert_eq!(df.columns.len(), 1);
    assert_eq!(df.columns[0].name, "A");
    assert_eq!(cols.len(), 1);
    assert_eq!(cols[0].name, "B");
    assert_eq!(cols[0].values, vec![2, 4, 6]);
}

#[test]
fn rename_strips_one_marker_only() {
    let mut df = table_a();
    let cse = vec![PhysicalExpr::new(alias(col("A"), "_cse__cse_x"))];
    let exprs = vec![PhysicalExpr::new(col("_cse__cse_x"))];
    let mut state = ExecutionState::new();
    let cols = evaluate_physical_expressions(&mut df, &cse, &exprs, &mut state, false).unwrap();
    assert_eq!(cols[0].name, "_cse_x");
}

#[test]
fn failing_cse_pass_leaves_table_unchanged() {
    let mut df = table_a();
    let cse = vec![PhysicalExpr::new(col("missing"))];
    let exprs = vec![PhysicalExpr::new(col("A"))];
    let mut state = ExecutionState::new();
    let r = evaluate_physical_expressions(&mut df, &cse, &exprs, &mut state, false);
    assert!(matches!(r, Err(ProjError::ColumnNotFound(_))));
    assert_eq!(df.columns.len(), 1);
    assert_eq!(df.columns[0].name, "A");
    assert_eq!(df.columns[0].values, vec![1, 2, 3]);
}

#[test]
fn failing_main_pass_still_restores_width() {
    let mut df = table_a();
    let cse = vec![PhysicalExpr::new(alias(col("A"), "_cse_t"))];
    let exprs = vec![PhysicalExpr::new(col("nope"))];
    let mut state = ExecutionState::new();
    let r = evaluate_physical_expressions(&mut df, &cse, &exprs, &mut state, false);
    assert!(r.is_err());
    assert_eq!(df.columns.len(), 1);
}

#[test]
fn window_cache_cleared_after_projection() {
    let mut df = table_a();
    let exprs = vec![PhysicalExpr::new(col("A"))];
    let mut state = ExecutionState::new();
    state.window_cache.push(CachedPartition {
        key: vec![col("A")],
        groups: vec![vec![0, 1]],
    });
    let cse: Vec<PhysicalExpr> = Vec::new();
    evaluate_physical_expressions(&mut df, &cse, &exprs, &mut state, false).unwrap();
    assert!(state.window_cache.is_empty());
}

#[test]
fn split_state_starts_with_empty_cache() {
    let mut parent = ExecutionState::new();
    parent.enable_window_cache();
    parent.window_cache.push(CachedPartition { key: vec![col("k")], groups: vec![vec![2]] });
    let child = parent.split();
    assert!(child.window_cache.is_empty());
    assert!(child.cache_window_results);
    assert!(!child.has_window_function);
}

#[test]
fn profile_name_uses_inferred_name() {
    let e = PhysicalExpr::new(alias(col("a"), "x"));
    assert_eq!(profile_name(&e, false).unwrap().as_str(), "x");
    let e2 = PhysicalExpr::new(binary(Expr::Literal(1), Op::Plus, col("a")));
    assert_eq!(profile_name(&e2, false).unwrap().as_str(), "a");
}

#[test]
fn profile_name_falls_back_under_cse() {
    let e = PhysicalExpr::new(Expr::KeepName(Box::new(col("a"))));
    let r = profile_name(&e, false);
    assert!(matches!(r, Err(ProjError::NoOutputName)));
    assert_eq!(profile_name(&e, true).unwrap().as_str(), "a");
}

#[test]
fn keep_name_restores_root_column_name() {
    let df = table_a();
    let exprs = vec![PhysicalExpr::new(Expr::KeepName(Box::new(alias(col("A"), "x"))))];
    let state = ExecutionState::new();
    let cols = run_exprs_par(&df, &exprs, &state).unwrap();
    assert_eq!(cols[0].name, "A");
}

#[test]
fn rename_alias_appends_suffix() {
    let df = table_a();
    let exprs = vec![PhysicalExpr::new(Expr::RenameAlias(
        Box::new(col("A")),
        "_right".to_string(),
    ))];
    let state = ExecutionState::new();
    let cols = run_exprs_par(&df, &exprs, &state).unwrap();
    assert_eq!(cols[0].name, "A_right");
}

#[test]
fn arithmetic_wraps_on_overflow() {
    let df = Table { columns: vec![Column::new("M".to_string(), vec![i64::MAX])] };
    let exprs = vec![PhysicalExpr::new(binary(col("M"), Op::Plus, Expr::Literal(1)))];
    let state = ExecutionState::new();
    let cols = run_exprs_par(&df, &exprs, &state).unwrap();
    assert_eq!(cols[0].values, vec![i64::MIN]);
}

#[test]
fn mismatched_operand_lengths_fail() {
    let df = Table {
        columns: vec![
            Column::new("A".to_string(), vec![1, 2, 3]),
            Column::new("B".to_string(), vec![1, 2]),
        ],
    };
    let exprs = vec![PhysicalExpr::new(binary(col("A"), Op::Plus, col("B")))];
    let state = ExecutionState::new();
    let r = run_exprs_par(&df, &exprs, &state);
    assert!(matches!(r, Err(ProjError::LengthMismatch { len: 2, height: 3 })));
}
