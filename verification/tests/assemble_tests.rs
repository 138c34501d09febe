use projection::assemble::check_expand_literals;
use projection::column::Column;
use projection::error::ProjError;

fn named(name: &str, values: Vec<i64>) -> Column {
    Column::new(name.to_string(), values)
}

#[test]
fn equal_lengths_pass_through() {
    let t = check_expand_literals(
        vec![named("a", vec![1, 2]), named("b", vec![3, 4])],
        false,
    )
    .unwrap();
    assert_eq!(t.columns.len(), 2);
    assert_eq!(t.columns[0].values, vec![1, 2]);
    assert_eq!(t.columns[1].values, vec![3, 4]);
}

#[test]
fn single_value_broadcasts_to_table_height() {
    let t = check_expand_literals(
        vec![named("a", vec![1, 2, 3]), named("b", vec![9])],
        false,
    )
    .unwrap();
    assert_eq!(t.columns[1].values, vec![9, 9, 9]);
    assert_eq!(t.columns[0].values, vec![1, 2, 3]);
}

#[test]
fn empty_column_passes_through() {
    let t = check_expand_literals(
        vec![named("a", vec![1, 2, 3]), named("b", vec![])],
        false,
    )
    .unwrap();
    assert_eq!(t.columns[1].values, Vec::<i64>::new());
    assert_eq!(t.columns[0].values, vec![1, 2, 3]);
}

#[test]
fn two_long_columns_of_different_lengths_fail() {
    let r = check_expand_literals(
        vec![named("a", vec![1, 2, 3]), named("b", vec![1, 2])],
        false,
    );
    assert!(matches!(r, Err(ProjError::LengthMismatch { len: 2, height: 3 })));
}

#[test]
fn duplicate_names_fail_and_name_the_repeat() {
    let r = check_expand_literals(
        vec![named("X", vec![1]), named("Y", vec![2]), named("X", vec![3])],
        false,
    );
    assert!(matches!(r, Err(ProjError::DuplicateName(n)) if n == "X"));
}

#[test]
fn duplicate_check_runs_before_broadcasting() {
    let r = check_expand_literals(
        vec![named("X", vec![1, 2, 3]), named("X", vec![9])],
        false,
    );
    assert!(matches!(r, Err(ProjError::DuplicateName(n)) if n == "X"));
}

#[test]
fn zero_length_truncates_all_literals() {
    let t = check_expand_literals(
        vec![named("a", vec![7]), named("b", vec![8])],
        true,
    )
    .unwrap();
    assert_eq!(t.columns.len(), 2);
    assert_eq!(t.columns[0].values, Vec::<i64>::new());
    assert_eq!(t.columns[1].values, Vec::<i64>::new());
    assert_eq!(t.columns[0].name, "a");
}

#[test]
fn zero_length_truncates_mixed_lengths() {
    let t = check_expand_literals(
        vec![named("a", vec![]), named("b", vec![5])],
        true,
    )
    .unwrap();
    assert_eq!(t.columns[0].values, Vec::<i64>::new());
    assert_eq!(t.columns[1].values, Vec::<i64>::new());
}

#[test]
fn smart_name_round_trips_through_smartstring() {
    let e = projection::physical::PhysicalExpr::new(projection::expr::Expr::Alias(
        Box::new(projection::expr::Expr::Column("a".to_string())),
        "a_rather_long_name_beyond_inline_storage".to_string(),
    ));
    let n = projection::executor::profile_name(&e, false).unwrap();
    assert_eq!(n.as_str(), "a_rather_long_name_beyond_inline_storage");
}
