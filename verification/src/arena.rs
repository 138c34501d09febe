//! The arena-indexed node store.
//!
//! `lower` consumes a tree into a dense store of nodes addressed by integer
//! position, every child standing strictly below its parent; `raise`
//! reconstructs an owned tree from a node. The store exists for one-level
//! decomposition — `MetaNameSpace::pop` lowers a tree, reads the root's
//! child indices, and raises each child as a standalone tree — without
//! recursive ownership transfer.
use vstd::prelude::*;

use crate::expr::{
    Expr,
    ExprModel,
    Op,
    Selector,
    expr_model,
    exprs_model,
    lemma_exprs_model,
    names_model,
};
use crate::walk::children_model;

verus! {

/// A stored node: children are indices of earlier nodes.
#[derive(Debug)]
pub enum ANode {
    Column(String),
    Literal(i64),
    Alias(usize, String),
    KeepName(usize),
    RenameAlias(usize, String),
    BinaryExpr(usize, Op, usize),
    Window { expr: usize, partition_by: Vec<usize> },
    Wildcard,
    Columns(Vec<String>),
    DtypeColumn,
    Selector { add: Vec<usize>, subtract: Vec<usize> },
}

/// All child indices of `n` lie strictly below `i`.
pub open spec fn children_below(n: ANode, i: int) -> bool {
    match n {
        ANode::Column(_) => true,
        ANode::Literal(_) => true,
        ANode::Alias(c, _) => c < i,
        ANode::KeepName(c) => c < i,
        ANode::RenameAlias(c, _) => c < i,
        ANode::BinaryExpr(l, _, r) => l < i && r < i,
        ANode::Window { expr, partition_by } => expr < i && forall|j: int|
            0 <= j < partition_by@.len() ==> partition_by@[j] < i,
        ANode::Wildcard => true,
        ANode::Columns(_) => true,
        ANode::DtypeColumn => true,
        ANode::Selector { add, subtract } => (forall|j: int|
            0 <= j < add@.len() ==> add@[j] < i) && (forall|j: int|
            0 <= j < subtract@.len() ==> subtract@[j] < i),
    }
}

/// Every node's children stand strictly below it.
pub open spec fn arena_wf(nodes: Seq<ANode>) -> bool {
    forall|i: int| 0 <= i < nodes.len() ==> children_below(#[trigger] nodes[i], i)
}

/// `post` extends `pre`: the old nodes stand unchanged at their positions.
pub open spec fn grows_from(post: Seq<ANode>, pre: Seq<ANode>) -> bool {
    pre.len() <= post.len() && forall|k: int| 0 <= k < pre.len() ==> post[k] == pre[k]
}

/// The tree the node at position `i` denotes.
pub open spec fn node_model(nodes: Seq<ANode>, i: int) -> ExprModel
    decreases i, 1int, 0int,
{
    if 0 <= i < nodes.len() && children_below(nodes[i], i) {
        match nodes[i] {
            ANode::Column(n) => ExprModel::Column(n@),
            ANode::Literal(v) => ExprModel::Literal(v),
            ANode::Alias(c, n) => ExprModel::Alias(Box::new(node_model(nodes, c as int)), n@),
            ANode::KeepName(c) => ExprModel::KeepName(Box::new(node_model(nodes, c as int))),
            ANode::RenameAlias(c, n) => ExprModel::RenameAlias(
                Box::new(node_model(nodes, c as int)),
                n@,
            ),
            ANode::BinaryExpr(l, op, r) => ExprModel::BinaryExpr(
                Box::new(node_model(nodes, l as int)),
                op,
                Box::new(node_model(nodes, r as int)),
            ),
            ANode::Window { expr, partition_by } => ExprModel::Window {
                expr: Box::new(node_model(nodes, expr as int)),
                partition_by: nodes_model(nodes, partition_by@, i),
            },
            ANode::Wildcard => ExprModel::Wildcard,
            ANode::Columns(names) => ExprModel::Columns(names_model(names@)),
            ANode::DtypeColumn => ExprModel::DtypeColumn,
            ANode::Selector { add, subtract } => ExprModel::Selector {
                add: nodes_model(nodes, add@, i),
                subtract: nodes_model(nodes, subtract@, i),
            },
        }
    } else {
        vstd::pervasive::arbitrary()
    }
}

/// The trees a list of node positions denotes, all positions below `b`.
pub open spec fn nodes_model(nodes: Seq<ANode>, ids: Seq<usize>, b: int) -> Seq<ExprModel>
    decreases b, 0int, ids.len(),
{
    if ids.len() == 0 {
        Seq::empty()
    } else if ids[0] < b {
        seq![node_model(nodes, ids[0] as int)] + nodes_model(nodes, ids.drop_first(), b)
    } else {
        vstd::pervasive::arbitrary()
    }
}

/// `nodes_model` is the pointwise image of `node_model`.
pub proof fn lemma_nodes_model(nodes: Seq<ANode>, ids: Seq<usize>, b: int)
    requires
        forall|j: int| 0 <= j < ids.len() ==> ids[j] < b,
    ensures
        nodes_model(nodes, ids, b).len() == ids.len(),
        forall|j: int| 0 <= j < ids.len() ==> nodes_model(nodes, ids, b)[j] == node_model(
            nodes,
            #[trigger] ids[j] as int,
        ),
    decreases ids.len(),
{
    if ids.len() > 0 {
        lemma_nodes_model(nodes, ids.drop_first(), b);
        assert forall|j: int| 0 <= j < ids.len() implies nodes_model(nodes, ids, b)[j]
            == node_model(nodes, #[trigger] ids[j] as int) by {
            if j > 0 {
                assert(ids.drop_first()[j - 1] == ids[j]);
                assert(nodes_model(nodes, ids, b)[j] == nodes_model(
                    nodes,
                    ids.drop_first(),
                    b,
                )[j - 1]);
            }
        }
    }
}

/// Appending nodes never changes the tree an existing node denotes.
pub proof fn lemma_node_model_frame(pre: Seq<ANode>, post: Seq<ANode>, i: int)
    requires
        grows_from(post, pre),
        0 <= i < pre.len(),
    ensures
        node_model(post, i) == node_model(pre, i),
    decreases i, 1int, 0int,
{
    assert(pre[i] == post[i]);
    if children_below(pre[i], i) {
        match pre[i] {
            ANode::Alias(c, _) => lemma_node_model_frame(pre, post, c as int),
            ANode::KeepName(c) => lemma_node_model_frame(pre, post, c as int),
            ANode::RenameAlias(c, _) => lemma_node_model_frame(pre, post, c as int),
            ANode::BinaryExpr(l, _, r) => {
                lemma_node_model_frame(pre, post, l as int);
                lemma_node_model_frame(pre, post, r as int);
            },
            ANode::Window { expr, partition_by } => {
                lemma_node_model_frame(pre, post, expr as int);
                lemma_nodes_model_frame(pre, post, partition_by@, i);
            },
            ANode::Selector { add, subtract } => {
                lemma_nodes_model_frame(pre, post, add@, i);
                lemma_nodes_model_frame(pre, post, subtract@, i);
            },
            _ => {},
        }
    }
}

/// List form of [`lemma_node_model_frame`].
pub proof fn lemma_nodes_model_frame(pre: Seq<ANode>, post: Seq<ANode>, ids: Seq<usize>, b: int)
    requires
        grows_from(post, pre),
        0 <= b <= pre.len(),
        forall|j: int| 0 <= j < ids.len() ==> ids[j] < b,
    ensures
        nodes_model(post, ids, b) == nodes_model(pre, ids, b),
    decreases b, 0int, ids.len(),
{
    if ids.len() > 0 {
        lemma_node_model_frame(pre, post, ids[0] as int);
        lemma_nodes_model_frame(pre, post, ids.drop_first(), b);
    }
}

/// When each position denotes the model of the matching tree, the list of
/// positions denotes the models of the trees.
pub proof fn lemma_nodes_model_matches(nodes: Seq<ANode>, ids: Seq<usize>, b: int, v: Seq<Expr>)
    requires
        ids.len() == v.len(),
        forall|j: int| 0 <= j < ids.len() ==> ids[j] < b,
        forall|j: int| 0 <= j < ids.len() ==> node_model(nodes, #[trigger] ids[j] as int)
            == expr_model(v[j]),
    ensures
        nodes_model(nodes, ids, b) == exprs_model(v),
{
    lemma_nodes_model(nodes, ids, b);
    lemma_exprs_model(v);
    assert forall|j: int| 0 <= j < ids.len() implies nodes_model(nodes, ids, b)[j]
        == exprs_model(v)[j] by {
        assert(nodes_model(nodes, ids, b)[j] == node_model(nodes, ids[j] as int));
        assert(expr_model(v[j]) == exprs_model(v)[j]);
    }
    assert(nodes_model(nodes, ids, b) =~= exprs_model(v));
}

/// The dense node store.
#[derive(Debug)]
pub struct Arena {
    pub nodes: Vec<ANode>,
}

impl Arena {
    /// Well-formedness: every node's children stand strictly below it.
    pub open spec fn wf(&self) -> bool {
        arena_wf(self.nodes@)
    }

    /// An empty store.
    pub fn new() -> (a: Arena)
        ensures
            a.wf(),
            a.nodes@.len() == 0,
    {
        Arena { nodes: Vec::new() }
    }

    /// Stores a tree, returning the position of its root node.
    pub fn lower(&mut self, e: &Expr) -> (id: usize)
        requires
            old(self).wf(),
        ensures
            final(self).wf(),
            grows_from(final(self).nodes@, old(self).nodes@),
            id < final(self).nodes@.len(),
            node_model(final(self).nodes@, id as int) == expr_model(*e),
        decreases e,
    {
        match e {
            Expr::Column(n) => {
                let id = self.nodes.len();
                self.nodes.push(ANode::Column(n.clone()));
                id
            },
            Expr::Literal(v) => {
                let id = self.nodes.len();
                self.nodes.push(ANode::Literal(*v));
                id
            },
            Expr::Alias(inner, n) => {
                let c = self.lower(inner);
                let ghost pre = self.nodes@;
                let id = self.nodes.len();
                self.nodes.push(ANode::Alias(c, n.clone()));
                proof {
                    lemma_node_model_frame(pre, self.nodes@, c as int);
                }
                id
            },
            Expr::KeepName(inner) => {
                let c = self.lower(inner);
                let ghost pre = self.nodes@;
                let id = self.nodes.len();
                self.nodes.push(ANode::KeepName(c));
                proof {
                    lemma_node_model_frame(pre, self.nodes@, c as int);
                }
                id
            },
            Expr::RenameAlias(inner, n) => {
                let c = self.lower(inner);
                let ghost pre = self.nodes@;
                let id = self.nodes.len();
                self.nodes.push(ANode::RenameAlias(c, n.clone()));
                proof {
                    lemma_node_model_frame(pre, self.nodes@, c as int);
                }
                id
            },
            Expr::BinaryExpr(l, op, r) => {
                let cl = self.lower(l);
                let ghost mid = self.nodes@;
                let cr = self.lower(r);
                proof {
                    lemma_node_model_frame(mid, self.nodes@, cl as int);
                }
                let ghost pre = self.nodes@;
                let id = self.nodes.len();
                self.nodes.push(ANode::BinaryExpr(cl, *op, cr));
                proof {
                    lemma_node_model_frame(pre, self.nodes@, cl as int);
                    lemma_node_model_frame(pre, self.nodes@, cr as int);
                }
                id
            },
            Expr::Window { expr, partition_by } => {
                let c = self.lower(expr);
                let ghost mid = self.nodes@;
                let ids = self.lower_list(partition_by);
                proof {
                    lemma_node_model_frame(mid, self.nodes@, c as int);
                }
                let ghost pre = self.nodes@;
                let ghost idseq = ids@;
                let id = self.nodes.len();
                self.nodes.push(ANode::Window { expr: c, partition_by: ids });
                proof {
                    lemma_node_model_frame(pre, self.nodes@, c as int);
                    lemma_nodes_model_frame(pre, self.nodes@, idseq, id as int);
                    lemma_nodes_model_matches(pre, idseq, id as int, partition_by@);
                }
                id
            },
            Expr::Wildcard => {
                let id = self.nodes.len();
                self.nodes.push(ANode::Wildcard);
                id
            },
            Expr::Columns(names) => {
                let id = self.nodes.len();
                self.nodes.push(ANode::Columns(clone_names(names)));
                id
            },
            Expr::DtypeColumn => {
                let id = self.nodes.len();
                self.nodes.push(ANode::DtypeColumn);
                id
            },
            Expr::Selector(s) => {
                let add_ids = self.lower_list(&s.add);
                let ghost mid = self.nodes@;
                let sub_ids = self.lower_list(&s.subtract);
                proof {
                    assert forall|j: int| 0 <= j < add_ids@.len() implies node_model(
                        self.nodes@,
                        #[trigger] add_ids@[j] as int,
                    ) == expr_model(s.add@[j]) by {
                        lemma_node_model_frame(mid, self.nodes@, add_ids@[j] as int);
                    }
                }
                let ghost pre = self.nodes@;
                let ghost addseq = add_ids@;
                let ghost subseq = sub_ids@;
                let id = self.nodes.len();
                self.nodes.push(ANode::Selector { add: add_ids, subtract: sub_ids });
                proof {
                    lemma_nodes_model_frame(pre, self.nodes@, addseq, id as int);
                    lemma_nodes_model_frame(pre, self.nodes@, subseq, id as int);
                    lemma_nodes_model_matches(pre, addseq, id as int, s.add@);
                    lemma_nodes_model_matches(pre, subseq, id as int, s.subtract@);
                }
                id
            },
        }
    }

    /// Stores each tree of a list, returning the root positions in order.
    fn lower_list(&mut self, v: &Vec<Expr>) -> (ids: Vec<usize>)
        requires
            old(self).wf(),
        ensures
            final(self).wf(),
            grows_from(final(self).nodes@, old(self).nodes@),
            ids@.len() == v@.len(),
            forall|j: int| 0 <= j < ids@.len() ==> ids@[j] < final(self).nodes@.len(),
            forall|j: int| 0 <= j < ids@.len() ==> node_model(
                final(self).nodes@,
                #[trigger] ids@[j] as int,
            ) == expr_model(v@[j]),
        decreases v,
    {
        let mut ids: Vec<usize> = Vec::new();
        let mut i: usize = 0;
        while i < v.len()
            invariant
                0 <= i <= v@.len(),
                self.wf(),
                grows_from(self.nodes@, old(self).nodes@),
                ids@.len() == i,
                forall|j: int| 0 <= j < i ==> ids@[j] < self.nodes@.len(),
                forall|j: int| 0 <= j < i ==> node_model(
                    self.nodes@,
                    #[trigger] ids@[j] as int,
                ) == expr_model(v@[j]),
            decreases v@.len() - i,
        {
            let ghost snap = self.nodes@;
            let c = self.lower(&v[i]);
            proof {
                assert forall|j: int| 0 <= j < i implies node_model(
                    self.nodes@,
                    #[trigger] ids@[j] as int,
                ) == expr_model(v@[j]) by {
                    lemma_node_model_frame(snap, self.nodes@, ids@[j] as int);
                }
            }
            ids.push(c);
            i = i + 1;
        }
        ids
    }

    /// Reconstructs the tree rooted at a node as an owned expression.
    pub fn raise(&self, id: usize) -> (e: Expr)
        requires
            self.wf(),
            id < self.nodes@.len(),
        ensures
            expr_model(e) == node_model(self.nodes@, id as int),
        decreases id, 1int,
    {
        proof {
            assert(children_below(self.nodes@[id as int], id as int));
        }
        match &self.nodes[id] {
            ANode::Column(n) => Expr::Column(n.clone()),
            ANode::Literal(v) => Expr::Literal(*v),
            ANode::Alias(c, n) => Expr::Alias(Box::new(self.raise(*c)), n.clone()),
            ANode::KeepName(c) => Expr::KeepName(Box::new(self.raise(*c))),
            ANode::RenameAlias(c, n) => Expr::RenameAlias(Box::new(self.raise(*c)), n.clone()),
            ANode::BinaryExpr(l, op, r) => Expr::BinaryExpr(
                Box::new(self.raise(*l)),
                *op,
                Box::new(self.raise(*r)),
            ),
            ANode::Window { expr, partition_by } => {
                let inner = self.raise(*expr);
                let pb = self.raise_list(partition_by, id);
                Expr::Window { expr: Box::new(inner), partition_by: pb }
            },
            ANode::Wildcard => Expr::Wildcard,
            ANode::Columns(names) => Expr::Columns(clone_names(names)),
            ANode::DtypeColumn => Expr::DtypeColumn,
            ANode::Selector { add, subtract } => Expr::Selector(
                Selector {
                    add: self.raise_list(add, id),
                    subtract: self.raise_list(subtract, id),
                },
            ),
        }
    }

    /// Reconstructs the trees of a list of node positions, all below `b`.
    fn raise_list(&self, ids: &Vec<usize>, b: usize) -> (r: Vec<Expr>)
        requires
            self.wf(),
            b <= self.nodes@.len(),
            forall|j: int| 0 <= j < ids@.len() ==> ids@[j] < b,
        ensures
            exprs_model(r@) == nodes_model(self.nodes@, ids@, b as int),
        decreases b, 0int,
    {
        proof {
            lemma_nodes_model(self.nodes@, ids@, b as int);
        }
        let mut out: Vec<Expr> = Vec::new();
        let mut i: usize = 0;
        while i < ids.len()
            invariant
                0 <= i <= ids@.len(),
                self.wf(),
                b <= self.nodes@.len(),
                forall|j: int| 0 <= j < ids@.len() ==> ids@[j] < b,
                out@.len() == i,
                forall|j: int| 0 <= j < i ==> expr_model(#[trigger] out@[j]) == node_model(
                    self.nodes@,
                    ids@[j] as int,
                ),
            decreases ids@.len() - i,
        {
            let e = self.raise(ids[i]);
            out.push(e);
            i = i + 1;
        }
        proof {
            lemma_exprs_model(out@);
            assert(exprs_model(out@) =~= nodes_model(self.nodes@, ids@, b as int));
        }
        out
    }

    /// The immediate children of a node, reconstructed as standalone trees,
    /// in left-to-right order.
    pub fn children_of(&self, id: usize) -> (r: Vec<Expr>)
        requires
            self.wf(),
            id < self.nodes@.len(),
        ensures
            exprs_model(r@) == children_model(node_model(self.nodes@, id as int)),
    {
        proof {
            assert(children_below(self.nodes@[id as int], id as int));
        }
        let mut out: Vec<Expr> = Vec::new();
        match &self.nodes[id] {
            ANode::Column(_) => {},
            ANode::Literal(_) => {},
            ANode::Alias(c, _) => { out.push(self.raise(*c)); },
            ANode::KeepName(c) => { out.push(self.raise(*c)); },
            ANode::RenameAlias(c, _) => { out.push(self.raise(*c)); },
            ANode::BinaryExpr(l, _, r) => {
                out.push(self.raise(*l));
                out.push(self.raise(*r));
            },
            ANode::Window { expr, partition_by } => {
                out.push(self.raise(*expr));
                let mut rest = self.raise_list(partition_by, id);
                proof {
                    lemma_exprs_model(out@);
                    lemma_exprs_model(rest@);
                }
                let ghost head = out@;
                let ghost tail = rest@;
                out.append(&mut rest);
                proof {
                    lemma_exprs_model(out@);
                    assert(exprs_model(out@) =~= exprs_model(head) + exprs_model(tail));
                }
            },
            ANode::Wildcard => {},
            ANode::Columns(_) => {},
            ANode::DtypeColumn => {},
            ANode::Selector { add, subtract } => {
                out = self.raise_list(add, id);
                let mut rest = self.raise_list(subtract, id);
                proof {
                    lemma_exprs_model(out@);
                    lemma_exprs_model(rest@);
                }
                let ghost head = out@;
                let ghost tail = rest@;
                out.append(&mut rest);
                proof {
                    lemma_exprs_model(out@);
                    assert(exprs_model(out@) =~= exprs_model(head) + exprs_model(tail));
                }
            },
        }
        proof {
            lemma_exprs_model(out@);
            assert(exprs_model(out@) =~= children_model(node_model(self.nodes@, id as int)));
        }
        out
    }
}

/// Clones a list of identifiers; `String::clone` keeps the value.
pub fn clone_names(v: &Vec<String>) -> (r: Vec<String>)
    ensures
        r@ == v@,
{
    let mut out: Vec<String> = Vec::new();
    let mut i: usize = 0;
    while i < v.len()
        invariant
            0 <= i <= v@.len(),
            out@ == v@.subrange(0, i as int),
        decreases v@.len() - i,
    {
        out.push(v[i].clone());
        i = i + 1;
    }
    proof {
        assert(out@ =~= v@);
    }
    out
}

} // verus!
