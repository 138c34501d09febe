//! Physical expressions and the closed evaluation model.
//!
//! A [`PhysicalExpr`] is the executable unit the planner hands the
//! projection executor: `evaluate` maps a table to one column, and
//! `as_expression` optionally exposes the source tree for structural
//! inspection — required to detect window nodes and partition-by keys at
//! execution time. Evaluation covers the closed set of variants this core
//! carries: column lookup, literals, renaming wrappers and elementwise
//! arithmetic with single-value broadcasting; a window node evaluates its
//! inner expression, the partitioned kernel itself sitting outside this
//! core. Arithmetic wraps around on overflow. Evaluation is pure: the
//! execution state's flags steer caching inside window kernels, never the
//! value of a result.
use vstd::prelude::*;
use vstd::string::StringExecFns;

use crate::column::{ColModel, Column, Table};
use crate::error::{ErrModel, ProjError};
use crate::expr::{Expr, ExprModel, Op, expr_model};
use crate::state::ExecutionState;
use crate::walk::first_leaf;

verus! {

/// The name a literal column carries.
pub open spec fn literal_name() -> Seq<char> {
    seq!['l', 'i', 't', 'e', 'r', 'a', 'l']
}

/// The first column of the table carrying the given name.
pub open spec fn lookup_col(tbl: Seq<ColModel>, name: Seq<char>) -> Option<ColModel>
    decreases tbl,
{
    if tbl.len() == 0 {
        None
    } else if tbl[0].name == name {
        Some(tbl[0])
    } else {
        lookup_col(tbl.drop_first(), name)
    }
}

/// Elementwise arithmetic, wrapping on overflow.
pub open spec fn op_value(op: Op, a: i64, b: i64) -> i64 {
    match op {
        Op::Plus => a.wrapping_add(b),
        Op::Minus => a.wrapping_sub(b),
        Op::Multiply => a.wrapping_mul(b),
    }
}

/// Combines two columns elementwise under `op`. Equal lengths zip; a
/// single-value side broadcasts; any other pairing is a length mismatch.
/// The result carries the left column's name.
pub open spec fn combine(op: Op, l: ColModel, r: ColModel) -> Result<ColModel, ErrModel> {
    if l.values.len() == r.values.len() {
        Ok(
            ColModel {
                name: l.name,
                values: Seq::new(
                    l.values.len(),
                    |i: int| op_value(op, l.values[i], r.values[i]),
                ),
            },
        )
    } else if l.values.len() == 1 {
        Ok(
            ColModel {
                name: l.name,
                values: Seq::new(
                    r.values.len(),
                    |i: int| op_value(op, l.values[0], r.values[i]),
                ),
            },
        )
    } else if r.values.len() == 1 {
        Ok(
            ColModel {
                name: l.name,
                values: Seq::new(
                    l.values.len(),
                    |i: int| op_value(op, l.values[i], r.values[0]),
                ),
            },
        )
    } else {
        Err(
            ErrModel::LengthMismatch {
                len: r.values.len() as int,
                height: l.values.len() as int,
            },
        )
    }
}

/// What evaluating an expression against a table yields.
pub open spec fn eval_expr(em: ExprModel, tbl: Seq<ColModel>) -> Result<ColModel, ErrModel>
    decreases em,
{
    match em {
        ExprModel::Column(n) => match lookup_col(tbl, n) {
            Some(c) => Ok(c),
            None => Err(ErrModel::ColumnNotFound(n)),
        },
        ExprModel::Literal(v) => Ok(ColModel { name: literal_name(), values: seq![v] }),
        ExprModel::Alias(i, n) => match eval_expr(*i, tbl) {
            Ok(c) => Ok(ColModel { name: n, values: c.values }),
            Err(e) => Err(e),
        },
        ExprModel::KeepName(i) => match eval_expr(*i, tbl) {
            Ok(c) => Ok(
                ColModel {
                    name: match first_leaf(*i) {
                        Some(n) => n,
                        None => c.name,
                    },
                    values: c.values,
                },
            ),
            Err(e) => Err(e),
        },
        ExprModel::RenameAlias(i, suffix) => match eval_expr(*i, tbl) {
            Ok(c) => Ok(ColModel { name: c.name + suffix, values: c.values }),
            Err(e) => Err(e),
        },
        ExprModel::BinaryExpr(l, op, r) => match eval_expr(*l, tbl) {
            Err(e) => Err(e),
            Ok(cl) => match eval_expr(*r, tbl) {
                Err(e) => Err(e),
                Ok(cr) => combine(op, cl, cr),
            },
        },
        ExprModel::Window { expr, partition_by: _ } => eval_expr(*expr, tbl),
        ExprModel::Wildcard => Err(ErrModel::MultipleOutputs),
        ExprModel::Columns(_) => Err(ErrModel::MultipleOutputs),
        ExprModel::DtypeColumn => Err(ErrModel::MultipleOutputs),
        ExprModel::Selector { add: _, subtract: _ } => Err(ErrModel::MultipleOutputs),
    }
}

/// The model of an evaluation result.
pub open spec fn col_res_model(r: Result<Column, ProjError>) -> Result<ColModel, ErrModel> {
    match r {
        Ok(c) => Ok(c@),
        Err(e) => Err(e@),
    }
}

/// Looks up the first column with the given name, returning a copy.
pub fn find_column(tbl: &Table, name: &String) -> (r: Option<Column>)
    ensures
        match r {
            Some(c) => lookup_col(tbl@, name@) == Some(c@),
            None => lookup_col(tbl@, name@) is None,
        },
{
    let mut i: usize = 0;
    proof {
        assert(tbl@.skip(0) =~= tbl@);
    }
    while i < tbl.columns.len()
        invariant
            0 <= i <= tbl.columns@.len(),
            tbl@.len() == tbl.columns@.len(),
            lookup_col(tbl@, name@) == lookup_col(tbl@.skip(i as int), name@),
        decreases tbl.columns@.len() - i,
    {
        proof {
            assert(tbl@.skip(i as int)[0] == tbl@[i as int]);
            assert(tbl@.skip(i as int).drop_first() =~= tbl@.skip(i + 1));
        }
        if tbl.columns[i].name == *name {
            return Some(tbl.columns[i].copy());
        }
        i = i + 1;
    }
    proof {
        assert(tbl@.skip(tbl@.len() as int) =~= Seq::<ColModel>::empty());
    }
    None
}

/// Applies the operator to two values, wrapping on overflow.
pub fn apply_op(op: Op, a: i64, b: i64) -> (v: i64)
    ensures
        v == op_value(op, a, b),
{
    match op {
        Op::Plus => a.wrapping_add(b),
        Op::Minus => a.wrapping_sub(b),
        Op::Multiply => a.wrapping_mul(b),
    }
}

/// Combines two columns elementwise, broadcasting a single-value side.
fn combine_columns(op: Op, l: Column, r: Column) -> (res: Result<Column, ProjError>)
    ensures
        col_res_model(res) == combine(op, l@, r@),
{
    let llen = l.values.len();
    let rlen = r.values.len();
    let mut out: Vec<i64> = Vec::new();
    if llen == rlen {
        let mut i: usize = 0;
        while i < rlen
            invariant
                0 <= i <= rlen,
                llen == l@.values.len(),
                rlen == r@.values.len(),
                llen == rlen,
                out@.len() == i,
                forall|j: int| 0 <= j < i ==> out@[j] == op_value(op, l@.values[j], r@.values[j]),
            decreases rlen - i,
        {
            out.push(apply_op(op, l.values[i], r.values[i]));
            i = i + 1;
        }
        proof {
            assert(out@ =~= Seq::new(
                l@.values.len(),
                |j: int| op_value(op, l@.values[j], r@.values[j]),
            ));
        }
        Ok(Column { name: l.name, values: out })
    } else if llen == 1 {
        let a = l.values[0];
        let mut i: usize = 0;
        while i < rlen
            invariant
                0 <= i <= rlen,
                l@.values.len() == 1,
                a == l@.values[0],
                rlen == r@.values.len(),
                out@.len() == i,
                forall|j: int| 0 <= j < i ==> out@[j] == op_value(op, l@.values[0], r@.values[j]),
            decreases rlen - i,
        {
            out.push(apply_op(op, a, r.values[i]));
            i = i + 1;
        }
        proof {
            assert(out@ =~= Seq::new(
                r@.values.len(),
                |j: int| op_value(op, l@.values[0], r@.values[j]),
            ));
        }
        Ok(Column { name: l.name, values: out })
    } else if rlen == 1 {
        let b = r.values[0];
        let mut i: usize = 0;
        while i < llen
            invariant
                0 <= i <= llen,
                r@.values.len() == 1,
                b == r@.values[0],
                llen == l@.values.len(),
                out@.len() == i,
                forall|j: int| 0 <= j < i ==> out@[j] == op_value(op, l@.values[j], r@.values[0]),
            decreases llen - i,
        {
            out.push(apply_op(op, l.values[i], b));
            i = i + 1;
        }
        proof {
            assert(out@ =~= Seq::new(
                l@.values.len(),
                |j: int| op_value(op, l@.values[j], r@.values[0]),
            ));
        }
        Ok(Column { name: l.name, values: out })
    } else {
        Err(ProjError::LengthMismatch { len: rlen, height: llen })
    }
}

/// Evaluates an expression tree against a table.
pub fn eval(e: &Expr, tbl: &Table) -> (r: Result<Column, ProjError>)
    ensures
        col_res_model(r) == eval_expr(expr_model(*e), tbl@),
    decreases e,
{
    match e {
        Expr::Column(n) => match find_column(tbl, n) {
            Some(c) => Ok(c),
            None => Err(ProjError::ColumnNotFound(n.clone())),
        },
        Expr::Literal(v) => {
            let mut values: Vec<i64> = Vec::new();
            values.push(*v);
            let name = String::from_str("literal");
            proof {
                reveal_strlit("literal");
                assert(name@ =~= literal_name());
                assert(values@ =~= seq![*v]);
            }
            Ok(Column { name, values })
        },
        Expr::Alias(i, n) => match eval(i, tbl) {
            Ok(mut c) => {
                c.rename(n.clone());
                Ok(c)
            },
            Err(err) => Err(err),
        },
        Expr::KeepName(i) => match eval(i, tbl) {
            Ok(mut c) => {
                match crate::walk::first_leaf_name(i) {
                    Some(n) => {
                        c.rename(n);
                        Ok(c)
                    },
                    None => Ok(c),
                }
            },
            Err(err) => Err(err),
        },
        Expr::RenameAlias(i, suffix) => match eval(i, tbl) {
            Ok(mut c) => {
                let mut nm = c.name.clone();
                nm.append(suffix.as_str());
                c.rename(nm);
                Ok(c)
            },
            Err(err) => Err(err),
        },
        Expr::BinaryExpr(l, op, r2) => match eval(l, tbl) {
            Err(err) => Err(err),
            Ok(cl) => match eval(r2, tbl) {
                Err(err) => Err(err),
                Ok(cr) => combine_columns(*op, cl, cr),
            },
        },
        Expr::Window { expr, partition_by: _ } => eval(expr, tbl),
        Expr::Wildcard => Err(ProjError::MultipleOutputs),
        Expr::Columns(_) => Err(ProjError::MultipleOutputs),
        Expr::DtypeColumn => Err(ProjError::MultipleOutputs),
        Expr::Selector(_) => Err(ProjError::MultipleOutputs),
    }
}

/// A lowered, executable expression: the evaluation capability plus an
/// optional back-reference to the source tree.
#[derive(Debug)]
pub struct PhysicalExpr {
    pub expr: Expr,
    pub introspectable: bool,
}

impl PhysicalExpr {
    /// The model of the source tree.
    pub open spec fn model(&self) -> ExprModel {
        expr_model(self.expr)
    }

    /// A physical expression that exposes its source tree.
    pub fn new(expr: Expr) -> (r: PhysicalExpr)
        ensures
            r.expr == expr,
            r.introspectable,
    {
        PhysicalExpr { expr, introspectable: true }
    }

    /// A physical expression without structural introspection: window
    /// detection and fallback naming cannot apply to it.
    pub fn without_introspection(expr: Expr) -> (r: PhysicalExpr)
        ensures
            r.expr == expr,
            !r.introspectable,
    {
        PhysicalExpr { expr, introspectable: false }
    }

    /// Evaluates against a table. The state's flags steer caching inside
    /// window kernels; the value of the result never depends on them.
    pub fn evaluate(&self, df: &Table, _state: &ExecutionState) -> (r: Result<Column, ProjError>)
        ensures
            col_res_model(r) == eval_expr(self.model(), df@),
    {
        eval(&self.expr, df)
    }

    /// The source tree, when the expression exposes one.
    pub fn as_expression(&self) -> (r: Option<&Expr>)
        ensures
            match r {
                Some(e) => self.introspectable && *e == self.expr,
                None => !self.introspectable,
            },
    {
        if self.introspectable {
            Some(&self.expr)
        } else {
            None
        }
    }
}

} // verus!
