//! Structural traversals over expression trees.
//!
//! The projection executor decides how to schedule an expression from its
//! structure alone: whether it holds a window node, which partition-by key
//! its first window node carries, and how many window nodes it holds. The
//! metadata utilities walk the same trees for leaf column names and output
//! names. Every traversal is specified over [`ExprModel`] and implemented
//! over [`Expr`].
use vstd::prelude::*;

use crate::expr::{Expr, ExprModel, exprs_model, expr_model, lemma_exprs_model, names_model};

verus! {

/// Caps a count at two: the executor only distinguishes zero, one, and
/// "more than one" window node.
pub open spec fn cap2(n: nat) -> nat {
    if n >= 2 {
        2
    } else {
        n
    }
}

/// Number of window nodes anywhere in the tree.
pub open spec fn window_count(em: ExprModel) -> nat
    decreases em,
{
    match em {
        ExprModel::Column(_) => 0,
        ExprModel::Literal(_) => 0,
        ExprModel::Alias(i, _) => window_count(*i),
        ExprModel::KeepName(i) => window_count(*i),
        ExprModel::RenameAlias(i, _) => window_count(*i),
        ExprModel::BinaryExpr(l, _, r) => window_count(*l) + window_count(*r),
        ExprModel::Window { expr, partition_by } => 1 + window_count(*expr) + window_count_list(
            partition_by,
        ),
        ExprModel::Wildcard => 0,
        ExprModel::Columns(_) => 0,
        ExprModel::DtypeColumn => 0,
        ExprModel::Selector { add, subtract } => window_count_list(add) + window_count_list(
            subtract,
        ),
    }
}

/// Total window-node count over a list of trees.
pub open spec fn window_count_list(s: Seq<ExprModel>) -> nat
    decreases s,
{
    if s.len() == 0 {
        0
    } else {
        window_count_list(s.drop_last()) + window_count(s.last())
    }
}

/// The partition-by key list of the first window node met in a depth-first
/// scan, if the tree holds one.
pub open spec fn first_window_key(em: ExprModel) -> Option<Seq<ExprModel>>
    decreases em,
{
    match em {
        ExprModel::Column(_) => None,
        ExprModel::Literal(_) => None,
        ExprModel::Alias(i, _) => first_window_key(*i),
        ExprModel::KeepName(i) => first_window_key(*i),
        ExprModel::RenameAlias(i, _) => first_window_key(*i),
        ExprModel::BinaryExpr(l, _, r) => if first_window_key(*l) is Some {
            first_window_key(*l)
        } else {
            first_window_key(*r)
        },
        ExprModel::Window { expr: _, partition_by } => Some(partition_by),
        ExprModel::Wildcard => None,
        ExprModel::Columns(_) => None,
        ExprModel::DtypeColumn => None,
        ExprModel::Selector { add, subtract } => if first_window_key_list(add) is Some {
            first_window_key_list(add)
        } else {
            first_window_key_list(subtract)
        },
    }
}

/// First window key over a list of trees, earlier trees preferred.
pub open spec fn first_window_key_list(s: Seq<ExprModel>) -> Option<Seq<ExprModel>>
    decreases s,
{
    if s.len() == 0 {
        None
    } else if first_window_key_list(s.drop_last()) is Some {
        first_window_key_list(s.drop_last())
    } else {
        first_window_key(s.last())
    }
}

/// The name of the first leaf column reference met in a depth-first scan.
pub open spec fn first_leaf(em: ExprModel) -> Option<Seq<char>>
    decreases em,
{
    match em {
        ExprModel::Column(n) => Some(n),
        ExprModel::Literal(_) => None,
        ExprModel::Alias(i, _) => first_leaf(*i),
        ExprModel::KeepName(i) => first_leaf(*i),
        ExprModel::RenameAlias(i, _) => first_leaf(*i),
        ExprModel::BinaryExpr(l, _, r) => if first_leaf(*l) is Some {
            first_leaf(*l)
        } else {
            first_leaf(*r)
        },
        ExprModel::Window { expr, partition_by } => if first_leaf(*expr) is Some {
            first_leaf(*expr)
        } else {
            first_leaf_list(partition_by)
        },
        ExprModel::Wildcard => None,
        ExprModel::Columns(_) => None,
        ExprModel::DtypeColumn => None,
        ExprModel::Selector { add, subtract } => if first_leaf_list(add) is Some {
            first_leaf_list(add)
        } else {
            first_leaf_list(subtract)
        },
    }
}

/// First leaf column name over a list of trees, earlier trees preferred.
pub open spec fn first_leaf_list(s: Seq<ExprModel>) -> Option<Seq<char>>
    decreases s,
{
    if s.len() == 0 {
        None
    } else if first_leaf_list(s.drop_last()) is Some {
        first_leaf_list(s.drop_last())
    } else {
        first_leaf(s.last())
    }
}

/// All leaf column reference names, in encounter order, not deduplicated.
pub open spec fn leaf_names(em: ExprModel) -> Seq<Seq<char>>
    decreases em,
{
    match em {
        ExprModel::Column(n) => seq![n],
        ExprModel::Literal(_) => Seq::empty(),
        ExprModel::Alias(i, _) => leaf_names(*i),
        ExprModel::KeepName(i) => leaf_names(*i),
        ExprModel::RenameAlias(i, _) => leaf_names(*i),
        ExprModel::BinaryExpr(l, _, r) => leaf_names(*l) + leaf_names(*r),
        ExprModel::Window { expr, partition_by } => leaf_names(*expr) + leaf_names_list(
            partition_by,
        ),
        ExprModel::Wildcard => Seq::empty(),
        ExprModel::Columns(_) => Seq::empty(),
        ExprModel::DtypeColumn => Seq::empty(),
        ExprModel::Selector { add, subtract } => leaf_names_list(add) + leaf_names_list(subtract),
    }
}

/// Leaf column names over a list of trees, in order.
pub open spec fn leaf_names_list(s: Seq<ExprModel>) -> Seq<Seq<char>>
    decreases s,
{
    if s.len() == 0 {
        Seq::empty()
    } else {
        leaf_names_list(s.drop_last()) + leaf_names(s.last())
    }
}

/// Verdict of the output-name scan: the first decisive node either names the
/// expression or shows that no single name can be inferred.
pub open spec fn name_scan(em: ExprModel) -> Option<Option<Seq<char>>>
    decreases em,
{
    match em {
        ExprModel::Column(n) => Some(Some(n)),
        ExprModel::Literal(_) => None,
        ExprModel::Alias(_, n) => Some(Some(n)),
        ExprModel::KeepName(_) => Some(None),
        ExprModel::RenameAlias(_, _) => Some(None),
        ExprModel::BinaryExpr(l, _, r) => if name_scan(*l) is Some {
            name_scan(*l)
        } else {
            name_scan(*r)
        },
        ExprModel::Window { expr, partition_by } => if name_scan(*expr) is Some {
            name_scan(*expr)
        } else {
            name_scan_list(partition_by)
        },
        ExprModel::Wildcard => Some(None),
        ExprModel::Columns(_) => Some(None),
        ExprModel::DtypeColumn => Some(None),
        ExprModel::Selector { add: _, subtract: _ } => Some(None),
    }
}

/// Output-name scan over a list of trees, earlier trees preferred.
pub open spec fn name_scan_list(s: Seq<ExprModel>) -> Option<Option<Seq<char>>>
    decreases s,
{
    if s.len() == 0 {
        None
    } else if name_scan_list(s.drop_last()) is Some {
        name_scan_list(s.drop_last())
    } else {
        name_scan(s.last())
    }
}

/// The name the expression will bind to once evaluated, if one can be
/// inferred: the declared alias if present, else the first leaf column
/// reference; `None` when a name-erasing or column-set node decides first.
pub open spec fn output_name_model(em: ExprModel) -> Option<Seq<char>> {
    match name_scan(em) {
        Some(Some(n)) => Some(n),
        _ => None,
    }
}

/// Rewrites every alias, keep-name and rename-alias node to its wrapped
/// child, recursively.
pub open spec fn undo_model(em: ExprModel) -> ExprModel
    decreases em,
{
    match em {
        ExprModel::Column(n) => ExprModel::Column(n),
        ExprModel::Literal(v) => ExprModel::Literal(v),
        ExprModel::Alias(i, _) => undo_model(*i),
        ExprModel::KeepName(i) => undo_model(*i),
        ExprModel::RenameAlias(i, _) => undo_model(*i),
        ExprModel::BinaryExpr(l, op, r) => ExprModel::BinaryExpr(
            Box::new(undo_model(*l)),
            op,
            Box::new(undo_model(*r)),
        ),
        ExprModel::Window { expr, partition_by } => ExprModel::Window {
            expr: Box::new(undo_model(*expr)),
            partition_by: undo_model_list(partition_by),
        },
        ExprModel::Wildcard => ExprModel::Wildcard,
        ExprModel::Columns(names) => ExprModel::Columns(names),
        ExprModel::DtypeColumn => ExprModel::DtypeColumn,
        ExprModel::Selector { add, subtract } => ExprModel::Selector {
            add: undo_model_list(add),
            subtract: undo_model_list(subtract),
        },
    }
}

/// [`undo_model`] over a list of trees.
pub open spec fn undo_model_list(s: Seq<ExprModel>) -> Seq<ExprModel>
    decreases s,
{
    if s.len() == 0 {
        Seq::empty()
    } else {
        undo_model_list(s.drop_last()).push(undo_model(s.last()))
    }
}

/// True when some node denotes a column set rather than a single column:
/// selector, wildcard, multi-column or dtype-based reference, or a leaf
/// column reference under the regex-naming convention.
pub open spec fn multi_output_model(em: ExprModel) -> bool
    decreases em,
{
    match em {
        ExprModel::Column(n) => crate::expr::is_regex_name(n),
        ExprModel::Literal(_) => false,
        ExprModel::Alias(i, _) => multi_output_model(*i),
        ExprModel::KeepName(i) => multi_output_model(*i),
        ExprModel::RenameAlias(i, _) => multi_output_model(*i),
        ExprModel::BinaryExpr(l, _, r) => multi_output_model(*l) || multi_output_model(*r),
        ExprModel::Window { expr, partition_by } => multi_output_model(*expr)
            || multi_output_model_list(partition_by),
        ExprModel::Wildcard => true,
        ExprModel::Columns(_) => true,
        ExprModel::DtypeColumn => true,
        ExprModel::Selector { add: _, subtract: _ } => true,
    }
}

/// [`multi_output_model`] over a list of trees.
pub open spec fn multi_output_model_list(s: Seq<ExprModel>) -> bool
    decreases s,
{
    if s.len() == 0 {
        false
    } else {
        multi_output_model_list(s.drop_last()) || multi_output_model(s.last())
    }
}

/// True when some leaf column reference's name follows the regex-naming
/// convention.
pub open spec fn regex_projection_model(em: ExprModel) -> bool
    decreases em,
{
    match em {
        ExprModel::Column(n) => crate::expr::is_regex_name(n),
        ExprModel::Literal(_) => false,
        ExprModel::Alias(i, _) => regex_projection_model(*i),
        ExprModel::KeepName(i) => regex_projection_model(*i),
        ExprModel::RenameAlias(i, _) => regex_projection_model(*i),
        ExprModel::BinaryExpr(l, _, r) => regex_projection_model(*l) || regex_projection_model(*r),
        ExprModel::Window { expr, partition_by } => regex_projection_model(*expr)
            || regex_projection_model_list(partition_by),
        ExprModel::Wildcard => false,
        ExprModel::Columns(_) => false,
        ExprModel::DtypeColumn => false,
        ExprModel::Selector { add, subtract } => regex_projection_model_list(add)
            || regex_projection_model_list(subtract),
    }
}

/// [`regex_projection_model`] over a list of trees.
pub open spec fn regex_projection_model_list(s: Seq<ExprModel>) -> bool
    decreases s,
{
    if s.len() == 0 {
        false
    } else {
        regex_projection_model_list(s.drop_last()) || regex_projection_model(s.last())
    }
}

/// True when the tree is exactly a column reference, optionally wrapped in a
/// single alias.
pub open spec fn simple_projection_model(em: ExprModel) -> bool {
    match em {
        ExprModel::Column(_) => true,
        ExprModel::Alias(i, _) => *i is Column,
        _ => false,
    }
}

/// The immediate children of the root node, in left-to-right order.
pub open spec fn children_model(em: ExprModel) -> Seq<ExprModel> {
    match em {
        ExprModel::Column(_) => Seq::empty(),
        ExprModel::Literal(_) => Seq::empty(),
        ExprModel::Alias(i, _) => seq![*i],
        ExprModel::KeepName(i) => seq![*i],
        ExprModel::RenameAlias(i, _) => seq![*i],
        ExprModel::BinaryExpr(l, _, r) => seq![*l, *r],
        ExprModel::Window { expr, partition_by } => seq![*expr] + partition_by,
        ExprModel::Wildcard => Seq::empty(),
        ExprModel::Columns(_) => Seq::empty(),
        ExprModel::DtypeColumn => Seq::empty(),
        ExprModel::Selector { add, subtract } => add + subtract,
    }
}

/// Counts window nodes, capped at two.
pub fn count_windows_capped(e: &Expr) -> (n: u64)
    ensures
        n == cap2(window_count(expr_model(*e))),
    decreases e,
{
    match e {
        Expr::Column(_) => 0,
        Expr::Literal(_) => 0,
        Expr::Alias(i, _) => count_windows_capped(i),
        Expr::KeepName(i) => count_windows_capped(i),
        Expr::RenameAlias(i, _) => count_windows_capped(i),
        Expr::BinaryExpr(l, _, r) => {
            let a = count_windows_capped(l);
            let b = count_windows_capped(r);
            if a + b >= 2 {
                2
            } else {
                a + b
            }
        },
        Expr::Window { expr, partition_by } => {
            let a = count_windows_capped(expr);
            let b = count_windows_capped_list(partition_by);
            if 1 + a + b >= 2 {
                2
            } else {
                1 + a + b
            }
        },
        Expr::Wildcard => 0,
        Expr::Columns(_) => 0,
        Expr::DtypeColumn => 0,
        Expr::Selector(s) => {
            let a = count_windows_capped_list(&s.add);
            let b = count_windows_capped_list(&s.subtract);
            if a + b >= 2 {
                2
            } else {
                a + b
            }
        },
    }
}

/// Counts window nodes over a list of trees, capped at two.
pub fn count_windows_capped_list(v: &Vec<Expr>) -> (n: u64)
    ensures
        n == cap2(window_count_list(exprs_model(v@))),
    decreases v,
{
    let ghost m = exprs_model(v@);
    proof {
        lemma_exprs_model(v@);
    }
    let mut total: u64 = 0;
    let mut i: usize = 0;
    while i < v.len()
        invariant
            0 <= i <= v@.len(),
            m == exprs_model(v@),
            m.len() == v@.len(),
            forall|j: int| 0 <= j < v@.len() ==> m[j] == expr_model(v@[j]),
            total == cap2(window_count_list(m.take(i as int))),
        decreases v@.len() - i,
    {
        let c = count_windows_capped(&v[i]);
        proof {
            assert(m.take(i + 1).drop_last() =~= m.take(i as int));
            assert(m.take(i + 1).last() == expr_model(v@[i as int]));
        }
        if total + c >= 2 {
            total = 2;
        } else {
            total = total + c;
        }
        i = i + 1;
    }
    proof {
        assert(m.take(v@.len() as int) =~= m);
    }
    total
}

/// The partition-by operand list of the first window node met in a
/// depth-first scan, if any.
pub fn first_window_partition<'a>(e: &'a Expr) -> (r: Option<&'a Vec<Expr>>)
    ensures
        match r {
            Some(v) => first_window_key(expr_model(*e)) == Some(exprs_model(v@)),
            None => first_window_key(expr_model(*e)) is None,
        },
    decreases e,
{
    match e {
        Expr::Column(_) => None,
        Expr::Literal(_) => None,
        Expr::Alias(i, _) => first_window_partition(i),
        Expr::KeepName(i) => first_window_partition(i),
        Expr::RenameAlias(i, _) => first_window_partition(i),
        Expr::BinaryExpr(l, _, r) => {
            let fl = first_window_partition(l);
            if fl.is_some() {
                fl
            } else {
                first_window_partition(r)
            }
        },
        Expr::Window { expr: _, partition_by } => Some(partition_by),
        Expr::Wildcard => None,
        Expr::Columns(_) => None,
        Expr::DtypeColumn => None,
        Expr::Selector(s) => {
            let fa = first_window_partition_list(&s.add);
            if fa.is_some() {
                fa
            } else {
                first_window_partition_list(&s.subtract)
            }
        },
    }
}

/// List form of [`first_window_partition`], earlier trees preferred.
pub fn first_window_partition_list<'a>(v: &'a Vec<Expr>) -> (r: Option<&'a Vec<Expr>>)
    ensures
        match r {
            Some(w) => first_window_key_list(exprs_model(v@)) == Some(exprs_model(w@)),
            None => first_window_key_list(exprs_model(v@)) is None,
        },
    decreases v,
{
    let ghost m = exprs_model(v@);
    proof {
        lemma_exprs_model(v@);
    }
    let mut acc: Option<&'a Vec<Expr>> = None;
    let mut i: usize = 0;
    while i < v.len()
        invariant
            0 <= i <= v@.len(),
            m == exprs_model(v@),
            m.len() == v@.len(),
            forall|j: int| 0 <= j < v@.len() ==> m[j] == expr_model(v@[j]),
            match acc {
                Some(w) => first_window_key_list(m.take(i as int)) == Some(exprs_model(w@)),
                None => first_window_key_list(m.take(i as int)) is None,
            },
        decreases v@.len() - i,
    {
        proof {
            assert(m.take(i + 1).drop_last() =~= m.take(i as int));
            assert(m.take(i + 1).last() == expr_model(v@[i as int]));
        }
        if acc.is_none() {
            acc = first_window_partition(&v[i]);
        }
        i = i + 1;
    }
    proof {
        assert(m.take(v@.len() as int) =~= m);
    }
    acc
}

/// The name of the first leaf column reference, if the tree holds one.
pub fn first_leaf_name(e: &Expr) -> (r: Option<String>)
    ensures
        match r {
            Some(n) => first_leaf(expr_model(*e)) == Some(n@),
            None => first_leaf(expr_model(*e)) is None,
        },
    decreases e,
{
    match e {
        Expr::Column(n) => Some(n.clone()),
        Expr::Literal(_) => None,
        Expr::Alias(i, _) => first_leaf_name(i),
        Expr::KeepName(i) => first_leaf_name(i),
        Expr::RenameAlias(i, _) => first_leaf_name(i),
        Expr::BinaryExpr(l, _, r) => {
            let fl = first_leaf_name(l);
            if fl.is_some() {
                fl
            } else {
                first_leaf_name(r)
            }
        },
        Expr::Window { expr, partition_by } => {
            let f = first_leaf_name(expr);
            if f.is_some() {
                f
            } else {
                first_leaf_name_list(partition_by)
            }
        },
        Expr::Wildcard => None,
        Expr::Columns(_) => None,
        Expr::DtypeColumn => None,
        Expr::Selector(s) => {
            let fa = first_leaf_name_list(&s.add);
            if fa.is_some() {
                fa
            } else {
                first_leaf_name_list(&s.subtract)
            }
        },
    }
}

/// List form of [`first_leaf_name`], earlier trees preferred.
pub fn first_leaf_name_list(v: &Vec<Expr>) -> (r: Option<String>)
    ensures
        match r {
            Some(n) => first_leaf_list(exprs_model(v@)) == Some(n@),
            None => first_leaf_list(exprs_model(v@)) is None,
        },
    decreases v,
{
    let ghost m = exprs_model(v@);
    proof {
        lemma_exprs_model(v@);
    }
    let mut acc: Option<String> = None;
    let mut i: usize = 0;
    while i < v.len()
        invariant
            0 <= i <= v@.len(),
            m == exprs_model(v@),
            m.len() == v@.len(),
            forall|j: int| 0 <= j < v@.len() ==> m[j] == expr_model(v@[j]),
            match acc {
                Some(n) => first_leaf_list(m.take(i as int)) == Some(n@),
                None => first_leaf_list(m.take(i as int)) is None,
            },
        decreases v@.len() - i,
    {
        proof {
            assert(m.take(i + 1).drop_last() =~= m.take(i as int));
            assert(m.take(i + 1).last() == expr_model(v@[i as int]));
        }
        if acc.is_none() {
            acc = first_leaf_name(&v[i]);
        }
        i = i + 1;
    }
    proof {
        assert(m.take(v@.len() as int) =~= m);
    }
    acc
}

/// Appends every leaf column reference name to `out`, in encounter order.
pub fn collect_leaf_names(e: &Expr, out: &mut Vec<String>)
    ensures
        names_model(final(out)@) == names_model(old(out)@) + leaf_names(expr_model(*e)),
    decreases e,
{
    match e {
        Expr::Column(n) => {
            out.push(n.clone());
            proof {
                assert(names_model(out@) =~= names_model(old(out)@) + seq![n@]);
            }
        },
        Expr::Literal(_) => {
            proof {
                assert(names_model(out@) =~= names_model(old(out)@) + Seq::<Seq<char>>::empty());
            }
        },
        Expr::Alias(i, _) => collect_leaf_names(i, out),
        Expr::KeepName(i) => collect_leaf_names(i, out),
        Expr::RenameAlias(i, _) => collect_leaf_names(i, out),
        Expr::BinaryExpr(l, _, r) => {
            collect_leaf_names(l, out);
            collect_leaf_names(r, out);
            proof {
                assert(names_model(out@) =~= names_model(old(out)@) + leaf_names(
                    expr_model(*e),
                ));
            }
        },
        Expr::Window { expr, partition_by } => {
            collect_leaf_names(expr, out);
            collect_leaf_names_list(partition_by, out);
            proof {
                assert(names_model(out@) =~= names_model(old(out)@) + leaf_names(
                    expr_model(*e),
                ));
            }
        },
        Expr::Wildcard => {
            proof {
                assert(names_model(out@) =~= names_model(old(out)@) + Seq::<Seq<char>>::empty());
            }
        },
        Expr::Columns(_) => {
            proof {
                assert(names_model(out@) =~= names_model(old(out)@) + Seq::<Seq<char>>::empty());
            }
        },
        Expr::DtypeColumn => {
            proof {
                assert(names_model(out@) =~= names_model(old(out)@) + Seq::<Seq<char>>::empty());
            }
        },
        Expr::Selector(s) => {
            collect_leaf_names_list(&s.add, out);
            collect_leaf_names_list(&s.subtract, out);
            proof {
                assert(names_model(out@) =~= names_model(old(out)@) + leaf_names(
                    expr_model(*e),
                ));
            }
        },
    }
}

/// List form of [`collect_leaf_names`].
pub fn collect_leaf_names_list(v: &Vec<Expr>, out: &mut Vec<String>)
    ensures
        names_model(final(out)@) == names_model(old(out)@) + leaf_names_list(exprs_model(v@)),
    decreases v,
{
    let ghost m = exprs_model(v@);
    proof {
        lemma_exprs_model(v@);
    }
    let mut i: usize = 0;
    while i < v.len()
        invariant
            0 <= i <= v@.len(),
            m == exprs_model(v@),
            m.len() == v@.len(),
            forall|j: int| 0 <= j < v@.len() ==> m[j] == expr_model(v@[j]),
            names_model(out@) == names_model(old(out)@) + leaf_names_list(m.take(i as int)),
        decreases v@.len() - i,
    {
        proof {
            assert(m.take(i + 1).drop_last() =~= m.take(i as int));
            assert(m.take(i + 1).last() == expr_model(v@[i as int]));
        }
        collect_leaf_names(&v[i], out);
        proof {
            assert(names_model(out@) =~= names_model(old(out)@) + leaf_names_list(
                m.take(i + 1),
            ));
        }
        i = i + 1;
    }
    proof {
        assert(m.take(v@.len() as int) =~= m);
    }
}

/// Runs the output-name scan: the verdict of the first decisive node.
pub fn scan_output_name(e: &Expr) -> (r: Option<Option<String>>)
    ensures
        match r {
            Some(Some(n)) => name_scan(expr_model(*e)) == Some(Some(n@)),
            Some(None) => (name_scan(expr_model(*e)) matches Some(inner) && inner is None),
            None => name_scan(expr_model(*e)) is None,
        },
    decreases e,
{
    match e {
        Expr::Column(n) => Some(Some(n.clone())),
        Expr::Literal(_) => None,
        Expr::Alias(_, n) => Some(Some(n.clone())),
        Expr::KeepName(_) => Some(None),
        Expr::RenameAlias(_, _) => Some(None),
        Expr::BinaryExpr(l, _, r) => {
            let fl = scan_output_name(l);
            if fl.is_some() {
                fl
            } else {
                scan_output_name(r)
            }
        },
        Expr::Window { expr, partition_by } => {
            let f = scan_output_name(expr);
            if f.is_some() {
                f
            } else {
                scan_output_name_list(partition_by)
            }
        },
        Expr::Wildcard => Some(None),
        Expr::Columns(_) => Some(None),
        Expr::DtypeColumn => Some(None),
        Expr::Selector(_) => Some(None),
    }
}

/// List form of [`scan_output_name`], earlier trees preferred.
pub fn scan_output_name_list(v: &Vec<Expr>) -> (r: Option<Option<String>>)
    ensures
        match r {
            Some(Some(n)) => name_scan_list(exprs_model(v@)) == Some(Some(n@)),
            Some(None) => (name_scan_list(exprs_model(v@)) matches Some(inner) && inner is None),
            None => name_scan_list(exprs_model(v@)) is None,
        },
    decreases v,
{
    let ghost m = exprs_model(v@);
    proof {
        lemma_exprs_model(v@);
    }
    let mut acc: Option<Option<String>> = None;
    let mut i: usize = 0;
    while i < v.len()
        invariant
            0 <= i <= v@.len(),
            m == exprs_model(v@),
            m.len() == v@.len(),
            forall|j: int| 0 <= j < v@.len() ==> m[j] == expr_model(v@[j]),
            match acc {
                Some(Some(n)) => name_scan_list(m.take(i as int)) == Some(Some(n@)),
                Some(None) => (name_scan_list(m.take(i as int)) matches Some(inner) && inner
                    is None),
                None => name_scan_list(m.take(i as int)) is None,
            },
        decreases v@.len() - i,
    {
        proof {
            assert(m.take(i + 1).drop_last() =~= m.take(i as int));
            assert(m.take(i + 1).last() == expr_model(v@[i as int]));
        }
        if acc.is_none() {
            acc = scan_output_name(&v[i]);
        }
        i = i + 1;
    }
    proof {
        assert(m.take(v@.len() as int) =~= m);
    }
    acc
}

/// True when some node denotes a column set rather than a single column.
pub fn has_multi_output(e: &Expr) -> (r: bool)
    ensures
        r == multi_output_model(expr_model(*e)),
    decreases e,
{
    match e {
        Expr::Column(n) => is_regex_name_exec(n),
        Expr::Literal(_) => false,
        Expr::Alias(i, _) => has_multi_output(i),
        Expr::KeepName(i) => has_multi_output(i),
        Expr::RenameAlias(i, _) => has_multi_output(i),
        Expr::BinaryExpr(l, _, r) => {
            let a = has_multi_output(l);
            if a {
                true
            } else {
                has_multi_output(r)
            }
        },
        Expr::Window { expr, partition_by } => {
            let a = has_multi_output(expr);
            if a {
                true
            } else {
                has_multi_output_list(partition_by)
            }
        },
        Expr::Wildcard => true,
        Expr::Columns(_) => true,
        Expr::DtypeColumn => true,
        Expr::Selector(_) => true,
    }
}

/// List form of [`has_multi_output`].
pub fn has_multi_output_list(v: &Vec<Expr>) -> (r: bool)
    ensures
        r == multi_output_model_list(exprs_model(v@)),
    decreases v,
{
    let ghost m = exprs_model(v@);
    proof {
        lemma_exprs_model(v@);
    }
    let mut acc: bool = false;
    let mut i: usize = 0;
    while i < v.len()
        invariant
            0 <= i <= v@.len(),
            m == exprs_model(v@),
            m.len() == v@.len(),
            forall|j: int| 0 <= j < v@.len() ==> m[j] == expr_model(v@[j]),
            acc == multi_output_model_list(m.take(i as int)),
        decreases v@.len() - i,
    {
        proof {
            assert(m.take(i + 1).drop_last() =~= m.take(i as int));
            assert(m.take(i + 1).last() == expr_model(v@[i as int]));
        }
        if !acc {
            acc = has_multi_output(&v[i]);
        }
        i = i + 1;
    }
    proof {
        assert(m.take(v@.len() as int) =~= m);
    }
    acc
}

/// True when some leaf column reference is named under the regex convention.
pub fn has_regex_projection(e: &Expr) -> (r: bool)
    ensures
        r == regex_projection_model(expr_model(*e)),
    decreases e,
{
    match e {
        Expr::Column(n) => is_regex_name_exec(n),
        Expr::Literal(_) => false,
        Expr::Alias(i, _) => has_regex_projection(i),
        Expr::KeepName(i) => has_regex_projection(i),
        Expr::RenameAlias(i, _) => has_regex_projection(i),
        Expr::BinaryExpr(l, _, r) => {
            let a = has_regex_projection(l);
            if a {
                true
            } else {
                has_regex_projection(r)
            }
        },
        Expr::Window { expr, partition_by } => {
            let a = has_regex_projection(expr);
            if a {
                true
            } else {
                has_regex_projection_list(partition_by)
            }
        },
        Expr::Wildcard => false,
        Expr::Columns(_) => false,
        Expr::DtypeColumn => false,
        Expr::Selector(s) => {
            let a = has_regex_projection_list(&s.add);
            if a {
                true
            } else {
                has_regex_projection_list(&s.subtract)
            }
        },
    }
}

/// List form of [`has_regex_projection`].
pub fn has_regex_projection_list(v: &Vec<Expr>) -> (r: bool)
    ensures
        r == regex_projection_model_list(exprs_model(v@)),
    decreases v,
{
    let ghost m = exprs_model(v@);
    proof {
        lemma_exprs_model(v@);
    }
    let mut acc: bool = false;
    let mut i: usize = 0;
    while i < v.len()
        invariant
            0 <= i <= v@.len(),
            m == exprs_model(v@),
            m.len() == v@.len(),
            forall|j: int| 0 <= j < v@.len() ==> m[j] == expr_model(v@[j]),
            acc == regex_projection_model_list(m.take(i as int)),
        decreases v@.len() - i,
    {
        proof {
            assert(m.take(i + 1).drop_last() =~= m.take(i as int));
            assert(m.take(i + 1).last() == expr_model(v@[i as int]));
        }
        if !acc {
            acc = has_regex_projection(&v[i]);
        }
        i = i + 1;
    }
    proof {
        assert(m.take(v@.len() as int) =~= m);
    }
    acc
}

/// Decides the regex-naming convention on an identifier.
pub fn is_regex_name_exec(n: &String) -> (r: bool)
    ensures
        r == crate::expr::is_regex_name(n@),
{
    let s = n.as_str();
    let len = s.unicode_len();
    if len == 0 {
        return false;
    }
    let first = s.get_char(0);
    let last = s.get_char(len - 1);
    first == '^' && last == '$'
}

} // verus!
