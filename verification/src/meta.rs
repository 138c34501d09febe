//! Expression-introspection methods.
//!
//! [`MetaNameSpace`] wraps an expression tree and offers the structural
//! queries the projection layer and planners rely on: root-column
//! extraction, output-name inference, alias stripping, column-set
//! detection, one-level decomposition, and selector composition.
use vstd::prelude::*;

use crate::arena::Arena;
use crate::error::{ErrModel, ProjError};
use crate::expr::{
    Expr,
    ExprModel,
    Selector,
    expr_model,
    exprs_model,
    lemma_exprs_model,
    names_model,
};
use crate::walk::{
    children_model,
    collect_leaf_names,
    has_multi_output,
    has_regex_projection,
    leaf_names,
    multi_output_model,
    output_name_model,
    regex_projection_model,
    scan_output_name,
    simple_projection_model,
    undo_model,
    undo_model_list,
};

verus! {

/// Structural-introspection view of an expression tree.
#[derive(Debug)]
pub struct MetaNameSpace(pub Expr);

impl MetaNameSpace {
    /// Pops the root node and returns its immediate operands, left to
    /// right, each as a standalone owned tree.
    pub fn pop(self) -> (r: Vec<Expr>)
        ensures
            exprs_model(r@) == children_model(expr_model(self.0)),
    {
        let mut arena = Arena::new();
        let id = arena.lower(&self.0);
        arena.children_of(id)
    }

    /// All root (leaf) column names, in encounter order, not deduplicated.
    pub fn root_names(&self) -> (r: Vec<String>)
        ensures
            names_model(r@) == leaf_names(expr_model(self.0)),
    {
        let mut out: Vec<String> = Vec::new();
        proof {
            assert(names_model(out@) =~= Seq::<Seq<char>>::empty());
        }
        collect_leaf_names(&self.0, &mut out);
        proof {
            assert(names_model(out@) =~= leaf_names(expr_model(self.0)));
        }
        out
    }

    /// True when the tree is exactly a column reference, optionally wrapped
    /// in a single alias.
    pub fn is_simple_projection(&self) -> (r: bool)
        ensures
            r == simple_projection_model(expr_model(self.0)),
    {
        match &self.0 {
            Expr::Column(_) => true,
            Expr::Alias(inner, _) => {
                proof {
                    assert(expr_model(self.0) matches ExprModel::Alias(bi, _) && *bi
                        == expr_model(**inner));
                }
                match &**inner {
                    Expr::Column(_) => true,
                    _ => false,
                }
            },
            _ => false,
        }
    }

    /// The output name of this expression, or a failure when none can be
    /// inferred from its structure.
    pub fn output_name(&self) -> (r: Result<String, ProjError>)
        ensures
            match r {
                Ok(n) => output_name_model(expr_model(self.0)) == Some(n@),
                Err(e) => output_name_model(expr_model(self.0)) is None && e@
                    == ErrModel::NoOutputName,
            },
    {
        match scan_output_name(&self.0) {
            Some(Some(n)) => Ok(n),
            _ => Err(ProjError::NoOutputName),
        }
    }

    /// Rewrites every renaming node — alias, keep-name, rename-alias — to
    /// its wrapped child, recursively, and returns the unwrapped tree.
    pub fn undo_aliases(self) -> (r: Expr)
        ensures
            expr_model(r) == undo_model(expr_model(self.0)),
    {
        undo_expr(&self.0)
    }

    /// True if any node denotes a column set rather than a single column.
    pub fn has_multiple_outputs(&self) -> (r: bool)
        ensures
            r == multi_output_model(expr_model(self.0)),
    {
        has_multi_output(&self.0)
    }

    /// True if any leaf column reference's name follows the regex-naming
    /// convention.
    pub fn is_regex_projection(&self) -> (r: bool)
        ensures
            r == regex_projection_model(expr_model(self.0)),
    {
        has_regex_projection(&self.0)
    }

    /// Merges `other` into this selector's `add` list; requires the
    /// receiver to already be a selector.
    pub fn _selector_add(self, other: Expr) -> (r: Result<Expr, ProjError>)
        ensures
            match r {
                Ok(e) => ({
                    &&& expr_model(self.0) matches ExprModel::Selector { add, subtract }
                    &&& (match expr_model(other) {
                        ExprModel::Selector { add: add2, subtract: sub2 } => expr_model(e)
                            == (ExprModel::Selector { add: add + add2, subtract: subtract + sub2 }),
                        om => expr_model(e) == (ExprModel::Selector {
                            add: add.push(om),
                            subtract,
                        }),
                    })
                }),
                Err(e) => !(expr_model(self.0) is Selector) && e@ == ErrModel::NotASelector,
            },
    {
        match self.0 {
            Expr::Selector(mut s) => {
                match other {
                    Expr::Selector(o) => {
                        let ghost a1 = s.add@;
                        let ghost s1 = s.subtract@;
                        let ghost a2 = o.add@;
                        let ghost s2 = o.subtract@;
                        let mut o_add = o.add;
                        let mut o_sub = o.subtract;
                        s.add.append(&mut o_add);
                        s.subtract.append(&mut o_sub);
                        proof {
                            concat_models(a1, a2);
                            concat_models(s1, s2);
                        }
                        Ok(Expr::Selector(s))
                    },
                    e => {
                        let ghost a1 = s.add@;
                        s.add.push(e);
                        proof {
                            push_model(a1, s.add@.last());
                        }
                        Ok(Expr::Selector(s))
                    },
                }
            },
            _ => Err(ProjError::NotASelector),
        }
    }

    /// Merges `other` into this selector's `subtract` list; requires the
    /// receiver to already be a selector.
    pub fn _selector_sub(self, other: Expr) -> (r: Result<Expr, ProjError>)
        ensures
            match r {
                Ok(e) => ({
                    &&& expr_model(self.0) matches ExprModel::Selector { add, subtract }
                    &&& (match expr_model(other) {
                        ExprModel::Selector { add: add2, subtract: sub2 } => expr_model(e)
                            == (ExprModel::Selector {
                            add,
                            subtract: subtract + add2 + sub2,
                        }),
                        om => expr_model(e) == (ExprModel::Selector {
                            add,
                            subtract: subtract.push(om),
                        }),
                    })
                }),
                Err(e) => !(expr_model(self.0) is Selector) && e@ == ErrModel::NotASelector,
            },
    {
        match self.0 {
            Expr::Selector(mut s) => {
                match other {
                    Expr::Selector(o) => {
                        let ghost s1 = s.subtract@;
                        let ghost a2 = o.add@;
                        let ghost s2 = o.subtract@;
                        let mut o_add = o.add;
                        let mut o_sub = o.subtract;
                        s.subtract.append(&mut o_add);
                        proof {
                            concat_models(s1, a2);
                        }
                        let ghost mid = s.subtract@;
                        s.subtract.append(&mut o_sub);
                        proof {
                            concat_models(mid, s2);
                        }
                        Ok(Expr::Selector(s))
                    },
                    e => {
                        let ghost s1 = s.subtract@;
                        s.subtract.push(e);
                        proof {
                            push_model(s1, s.subtract@.last());
                        }
                        Ok(Expr::Selector(s))
                    },
                }
            },
            _ => Err(ProjError::NotASelector),
        }
    }

    /// Wraps a non-selector tree as a fresh selector; selectors must not
    /// nest, so a selector receiver is refused.
    pub fn _into_selector(self) -> (r: Result<Expr, ProjError>)
        ensures
            match r {
                Ok(e) => !(expr_model(self.0) is Selector) && expr_model(e)
                    == (ExprModel::Selector {
                    add: seq![expr_model(self.0)],
                    subtract: Seq::empty(),
                }),
                Err(e) => expr_model(self.0) is Selector && e@ == ErrModel::NestedSelector,
            },
    {
        match self.0 {
            Expr::Selector(_) => Err(ProjError::NestedSelector),
            e => {
                let mut add: Vec<Expr> = Vec::new();
                let ghost em = expr_model(e);
                add.push(e);
                proof {
                    lemma_exprs_model(add@);
                    assert(exprs_model(add@) =~= seq![em]);
                    assert(exprs_model(Seq::<Expr>::empty()) =~= Seq::<ExprModel>::empty());
                }
                Ok(Expr::Selector(Selector { add, subtract: Vec::new() }))
            },
        }
    }
}

/// `exprs_model` distributes over concatenation.
proof fn concat_models(a: Seq<Expr>, b: Seq<Expr>)
    ensures
        exprs_model(a + b) == exprs_model(a) + exprs_model(b),
{
    lemma_exprs_model(a);
    lemma_exprs_model(b);
    lemma_exprs_model(a + b);
    assert(exprs_model(a + b) =~= exprs_model(a) + exprs_model(b));
}

/// `exprs_model` distributes over push.
proof fn push_model(a: Seq<Expr>, e: Expr)
    ensures
        exprs_model(a.push(e)) == exprs_model(a).push(expr_model(e)),
{
    lemma_exprs_model(a);
    lemma_exprs_model(a.push(e));
    assert(exprs_model(a.push(e)) =~= exprs_model(a).push(expr_model(e)));
}

/// Rewrites every renaming node to its wrapped child, recursively.
fn undo_expr(e: &Expr) -> (r: Expr)
    ensures
        expr_model(r) == undo_model(expr_model(*e)),
    decreases e,
{
    match e {
        Expr::Column(n) => Expr::Column(n.clone()),
        Expr::Literal(v) => Expr::Literal(*v),
        Expr::Alias(i, _) => undo_expr(i),
        Expr::KeepName(i) => undo_expr(i),
        Expr::RenameAlias(i, _) => undo_expr(i),
        Expr::BinaryExpr(l, op, r2) => Expr::BinaryExpr(
            Box::new(undo_expr(l)),
            *op,
            Box::new(undo_expr(r2)),
        ),
        Expr::Window { expr, partition_by } => Expr::Window {
            expr: Box::new(undo_expr(expr)),
            partition_by: undo_list(partition_by),
        },
        Expr::Wildcard => Expr::Wildcard,
        Expr::Columns(names) => Expr::Columns(crate::arena::clone_names(names)),
        Expr::DtypeColumn => Expr::DtypeColumn,
        Expr::Selector(s) => Expr::Selector(
            Selector { add: undo_list(&s.add), subtract: undo_list(&s.subtract) },
        ),
    }
}

/// List form of [`undo_expr`].
fn undo_list(v: &Vec<Expr>) -> (r: Vec<Expr>)
    ensures
        exprs_model(r@) == undo_model_list(exprs_model(v@)),
    decreases v,
{
    let ghost m = exprs_model(v@);
    proof {
        lemma_exprs_model(v@);
    }
    let mut out: Vec<Expr> = Vec::new();
    let mut i: usize = 0;
    while i < v.len()
        invariant
            0 <= i <= v@.len(),
            m == exprs_model(v@),
            m.len() == v@.len(),
            forall|j: int| 0 <= j < v@.len() ==> m[j] == expr_model(v@[j]),
            exprs_model(out@) == undo_model_list(m.take(i as int)),
        decreases v@.len() - i,
    {
        proof {
            assert(m.take(i + 1).drop_last() =~= m.take(i as int));
            assert(m.take(i + 1).last() == expr_model(v@[i as int]));
        }
        let ghost pre = out@;
        let u = undo_expr(&v[i]);
        out.push(u);
        proof {
            push_model(pre, out@.last());
        }
        i = i + 1;
    }
    proof {
        assert(m.take(v@.len() as int) =~= m);
    }
    out
}

} // verus!
