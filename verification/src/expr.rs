//! The expression tree and its mathematical model.
//!
//! An [`Expr`] is a tagged tree: leaf column references, aliasing wrappers,
//! window nodes carrying a partition-by key list, column-set nodes (selector,
//! wildcard, multi-column, dtype-based), and a compute node. Contracts speak
//! of expressions through [`ExprModel`], a ghost mirror in which every column
//! identifier is a `Seq<char>`, so that two expressions are "structurally
//! identical" exactly when their models are equal.
use vstd::prelude::*;

verus! {

/// Arithmetic operator carried by a compute node.
#[derive(Clone, Copy, PartialEq, Eq, Structural, Debug)]
pub enum Op {
    Plus,
    Minus,
    Multiply,
}

/// A composable column-set expression with `add`/`subtract` operand lists.
///
/// A selector must not be nested: its operands must not themselves be
/// selectors. The invariant is enforced at composition time (see
/// `MetaNameSpace::into_selector`), not by the representation.
#[derive(Debug)]
pub struct Selector {
    pub add: Vec<Expr>,
    pub subtract: Vec<Expr>,
}

/// An expression tree handed to the projection layer by a planner.
#[derive(Debug)]
pub enum Expr {
    /// Leaf reference to a named column. A name that starts with `'^'` and
    /// ends with `'$'` follows the regex-naming convention and denotes
    /// "match by pattern".
    Column(String),
    /// A constant; it evaluates to a single-row column named `literal`.
    Literal(i64),
    /// Binds the wrapped expression to a declared output name.
    Alias(Box<Expr>, String),
    /// Keeps the name of the wrapped expression's root column.
    KeepName(Box<Expr>),
    /// Renames the wrapped expression by appending a suffix to its name.
    RenameAlias(Box<Expr>, String),
    /// Elementwise arithmetic over two columns.
    BinaryExpr(Box<Expr>, Op, Box<Expr>),
    /// A windowed (partitioned) computation of `expr` over the groups
    /// defined by the `partition_by` key list.
    Window { expr: Box<Expr>, partition_by: Vec<Expr> },
    /// Every column of the table.
    Wildcard,
    /// A fixed list of columns, by name.
    Columns(Vec<String>),
    /// All columns of some data type.
    DtypeColumn,
    /// A column-set combination.
    Selector(Selector),
}

/// Ghost mirror of [`Expr`]: column identifiers as character sequences,
/// operand lists as sequences. Model equality is structural identity.
pub enum ExprModel {
    Column(Seq<char>),
    Literal(i64),
    Alias(Box<ExprModel>, Seq<char>),
    KeepName(Box<ExprModel>),
    RenameAlias(Box<ExprModel>, Seq<char>),
    BinaryExpr(Box<ExprModel>, Op, Box<ExprModel>),
    Window { expr: Box<ExprModel>, partition_by: Seq<ExprModel> },
    Wildcard,
    Columns(Seq<Seq<char>>),
    DtypeColumn,
    Selector { add: Seq<ExprModel>, subtract: Seq<ExprModel> },
}

/// The models of a sequence of column identifiers, in order.
pub open spec fn names_model(s: Seq<String>) -> Seq<Seq<char>> {
    s.map_values(|n: String| n@)
}

/// The model of an expression tree.
pub open spec fn expr_model(e: Expr) -> ExprModel
    decreases e,
{
    match e {
        Expr::Column(n) => ExprModel::Column(n@),
        Expr::Literal(v) => ExprModel::Literal(v),
        Expr::Alias(inner, n) => ExprModel::Alias(Box::new(expr_model(*inner)), n@),
        Expr::KeepName(inner) => ExprModel::KeepName(Box::new(expr_model(*inner))),
        Expr::RenameAlias(inner, n) => ExprModel::RenameAlias(Box::new(expr_model(*inner)), n@),
        Expr::BinaryExpr(l, op, r) => ExprModel::BinaryExpr(
            Box::new(expr_model(*l)),
            op,
            Box::new(expr_model(*r)),
        ),
        Expr::Window { expr, partition_by } => ExprModel::Window {
            expr: Box::new(expr_model(*expr)),
            partition_by: exprs_model(partition_by@),
        },
        Expr::Wildcard => ExprModel::Wildcard,
        Expr::Columns(names) => ExprModel::Columns(names_model(names@)),
        Expr::DtypeColumn => ExprModel::DtypeColumn,
        Expr::Selector(s) => ExprModel::Selector {
            add: exprs_model(s.add@),
            subtract: exprs_model(s.subtract@),
        },
    }
}

/// The models of a sequence of expression trees, in order.
pub open spec fn exprs_model(s: Seq<Expr>) -> Seq<ExprModel>
    decreases s,
{
    if s.len() == 0 {
        Seq::empty()
    } else {
        seq![expr_model(s[0])] + exprs_model(s.drop_first())
    }
}

/// `exprs_model` is the pointwise image of `expr_model`.
pub proof fn lemma_exprs_model(s: Seq<Expr>)
    ensures
        exprs_model(s).len() == s.len(),
        forall|i: int| 0 <= i < s.len() ==> exprs_model(s)[i] == expr_model(s[i]),
    decreases s,
{
    if s.len() > 0 {
        lemma_exprs_model(s.drop_first());
    }
}

/// The regex-naming convention: the identifier starts with `'^'` and ends
/// with `'$'`.
pub open spec fn is_regex_name(n: Seq<char>) -> bool {
    n.len() > 0 && n[0] == '^' && n[n.len() - 1] == '$'
}

/// Decides structural identity of two expression trees: true exactly when
/// their models are equal.
pub fn expr_eq(a: &Expr, b: &Expr) -> (r: bool)
    ensures
        r == (expr_model(*a) == expr_model(*b)),
    decreases a,
{
    match (a, b) {
        (Expr::Column(n1), Expr::Column(n2)) => *n1 == *n2,
        (Expr::Literal(v1), Expr::Literal(v2)) => *v1 == *v2,
        (Expr::Alias(i1, n1), Expr::Alias(i2, n2)) => *n1 == *n2 && expr_eq(i1, i2),
        (Expr::KeepName(i1), Expr::KeepName(i2)) => expr_eq(i1, i2),
        (Expr::RenameAlias(i1, n1), Expr::RenameAlias(i2, n2)) => *n1 == *n2 && expr_eq(i1, i2),
        (Expr::BinaryExpr(l1, o1, r1), Expr::BinaryExpr(l2, o2, r2)) => {
            *o1 == *o2 && expr_eq(l1, l2) && expr_eq(r1, r2)
        },
        (
            Expr::Window { expr: e1, partition_by: p1 },
            Expr::Window { expr: e2, partition_by: p2 },
        ) => expr_eq(e1, e2) && expr_list_eq(p1, p2),
        (Expr::Wildcard, Expr::Wildcard) => true,
        (Expr::Columns(n1), Expr::Columns(n2)) => name_list_eq(n1, n2),
        (Expr::DtypeColumn, Expr::DtypeColumn) => true,
        (Expr::Selector(s1), Expr::Selector(s2)) => {
            expr_list_eq(&s1.add, &s2.add) && expr_list_eq(&s1.subtract, &s2.subtract)
        },
        _ => false,
    }
}

/// Decides structural identity of two expression lists.
pub fn expr_list_eq(a: &Vec<Expr>, b: &Vec<Expr>) -> (r: bool)
    ensures
        r == (exprs_model(a@) == exprs_model(b@)),
    decreases a,
{
    proof {
        lemma_exprs_model(a@);
        lemma_exprs_model(b@);
    }
    if a.len() != b.len() {
        return false;
    }
    let mut i: usize = 0;
    while i < a.len()
        invariant
            0 <= i <= a@.len(),
            a@.len() == b@.len(),
            exprs_model(a@).len() == a@.len(),
            exprs_model(b@).len() == b@.len(),
            forall|j: int| 0 <= j < a@.len() ==> exprs_model(a@)[j] == expr_model(a@[j]),
            forall|j: int| 0 <= j < b@.len() ==> exprs_model(b@)[j] == expr_model(b@[j]),
            forall|j: int| 0 <= j < i ==> expr_model(a@[j]) == expr_model(b@[j]),
        decreases a@.len() - i,
    {
        if !expr_eq(&a[i], &b[i]) {
            assert(exprs_model(a@)[i as int] != exprs_model(b@)[i as int]);
            return false;
        }
        i = i + 1;
    }
    proof {
        assert(exprs_model(a@) =~= exprs_model(b@));
    }
    true
}

/// Decides equality of two identifier lists, by characters.
pub fn name_list_eq(a: &Vec<String>, b: &Vec<String>) -> (r: bool)
    ensures
        r == (names_model(a@) == names_model(b@)),
{
    if a.len() != b.len() {
        return false;
    }
    let mut i: usize = 0;
    while i < a.len()
        invariant
            0 <= i <= a@.len(),
            a@.len() == b@.len(),
            forall|j: int| 0 <= j < i ==> a@[j]@ == b@[j]@,
        decreases a@.len() - i,
    {
        if !(a[i] == b[i]) {
            assert(names_model(a@)[i as int] != names_model(b@)[i as int]);
            return false;
        }
        i = i + 1;
    }
    proof {
        assert(names_model(a@) =~= names_model(b@));
    }
    true
}

} // verus!
