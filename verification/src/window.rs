//! Scheduling of a projection's expressions.
//!
//! Expressions without a window node are independent: the data-parallel
//! path maps each to its column, results tagged by original position.
//! Window expressions are bucketed by the partition-by key list of their
//! first window node — two land in the same bucket exactly when those key
//! lists are structurally identical — and each bucket runs strictly
//! sequentially against its own derived execution state, so that only one
//! bucket's cache is ever live and no cache is mutated concurrently.
//! Every path produces, for each input position, the column that the
//! sequential reference evaluation [`eval_all`] assigns to it.
use vstd::prelude::*;
use vstd::pervasive::VecAdditionalExecFns;

use crate::column::{ColModel, Column, Table, cols_model};
use crate::error::{ErrModel, ProjError};
use crate::expr::{Expr, ExprModel, expr_model, exprs_model};
use crate::physical::{PhysicalExpr, eval_expr};
use crate::state::ExecutionState;
use crate::walk::{count_windows_capped, first_window_key, first_window_partition, window_count};

verus! {

/// The models of the source trees of a list of physical expressions.
pub open spec fn phys_models(s: Seq<PhysicalExpr>) -> Seq<ExprModel> {
    s.map_values(|p: PhysicalExpr| expr_model(p.expr))
}

/// The model of a list-evaluation result.
pub open spec fn cols_res_model(r: Result<Vec<Column>, ProjError>) -> Result<
    Seq<ColModel>,
    ErrModel,
> {
    match r {
        Ok(cs) => Ok(cols_model(cs@)),
        Err(e) => Err(e@),
    }
}

/// The sequential reference evaluation: every expression in declared
/// order, stopping at the first failure.
pub open spec fn eval_all(ems: Seq<ExprModel>, tbl: Seq<ColModel>) -> Result<
    Seq<ColModel>,
    ErrModel,
>
    decreases ems,
{
    if ems.len() == 0 {
        Ok(Seq::empty())
    } else {
        match eval_expr(ems[0], tbl) {
            Err(e) => Err(e),
            Ok(c) => match eval_all(ems.drop_first(), tbl) {
                Ok(rest) => Ok(seq![c] + rest),
                Err(e) => Err(e),
            },
        }
    }
}

/// The reference evaluation succeeds exactly when every expression does,
/// and then yields, at every position, that expression's own result: any
/// evaluation order that reassembles results by original position agrees
/// with the fully sequential one.
pub proof fn lemma_eval_all(ems: Seq<ExprModel>, tbl: Seq<ColModel>)
    ensures
        (eval_all(ems, tbl) is Ok) <==> (forall|i: int|
            0 <= i < ems.len() ==> eval_expr(#[trigger] ems[i], tbl) is Ok),
        eval_all(ems, tbl) matches Ok(cs) ==> cs.len() == ems.len() && forall|i: int|
            0 <= i < ems.len() ==> Ok::<ColModel, ErrModel>(cs[i]) == eval_expr(
                #[trigger] ems[i],
                tbl,
            ),
    decreases ems,
{
    if ems.len() > 0 {
        lemma_eval_all(ems.drop_first(), tbl);
        assert(forall|i: int| 1 <= i < ems.len() ==> ems.drop_first()[i - 1] == #[trigger] ems[i]);
    }
}

/// When everything before position `i` evaluates and `i` fails, the
/// reference evaluation reports exactly that failure.
pub proof fn lemma_eval_all_first_err(ems: Seq<ExprModel>, tbl: Seq<ColModel>, i: int)
    requires
        0 <= i < ems.len(),
        forall|j: int| 0 <= j < i ==> eval_expr(#[trigger] ems[j], tbl) is Ok,
        eval_expr(ems[i], tbl) is Err,
    ensures
        eval_all(ems, tbl) == Err::<Seq<ColModel>, ErrModel>(eval_expr(ems[i], tbl)->Err_0),
    decreases ems,
{
    if i > 0 {
        assert(forall|j: int| 0 <= j < i - 1 ==> ems.drop_first()[j] == #[trigger] ems[j + 1]);
        assert(ems.drop_first()[i - 1] == ems[i]);
        assert forall|j: int| 0 <= j < i - 1 implies eval_expr(
            #[trigger] ems.drop_first()[j],
            tbl,
        ) is Ok by {
            assert(ems.drop_first()[j] == ems[j + 1]);
        }
        lemma_eval_all_first_err(ems.drop_first(), tbl, i - 1);
    }
}

/// Maps every expression to its result column, in declared order. This is
/// the data-parallel path: the expressions are independent, invocation
/// order across workers is unspecified, and results come back in input
/// order, so the outcome equals the sequential reference evaluation.
pub fn run_exprs_par(df: &Table, exprs: &Vec<PhysicalExpr>, state: &ExecutionState) -> (r: Result<
    Vec<Column>,
    ProjError,
>)
    ensures
        cols_res_model(r) == eval_all(phys_models(exprs@), df@),
{
    let ghost ems = phys_models(exprs@);
    let mut out: Vec<Column> = Vec::new();
    let mut i: usize = 0;
    while i < exprs.len()
        invariant
            0 <= i <= exprs@.len(),
            ems == phys_models(exprs@),
            ems.len() == exprs@.len(),
            out@.len() == i,
            forall|j: int| 0 <= j < i ==> eval_expr(#[trigger] ems[j], df@) == Ok::<
                ColModel,
                ErrModel,
            >(out@[j]@),
        decreases exprs@.len() - i,
    {
        match exprs[i].evaluate(df, state) {
            Ok(c) => {
                out.push(c);
            },
            Err(e) => {
                proof {
                    lemma_eval_all_first_err(ems, df@, i as int);
                }
                return Err(e);
            },
        }
        i = i + 1;
    }
    proof {
        lemma_eval_all(ems, df@);
        let cs = eval_all(ems, df@)->Ok_0;
        assert forall|j: int| 0 <= j < out@.len() implies cols_model(out@)[j] == cs[j] by {
            assert(eval_expr(ems[j], df@) == Ok::<ColModel, ErrModel>(out@[j]@));
            assert(Ok::<ColModel, ErrModel>(cs[j]) == eval_expr(ems[j], df@));
        }
        assert(cols_model(out@) =~= cs);
    }
    Ok(out)
}

/// An element stays in a sequence that grows by one, and the new element
/// is in it.
proof fn lemma_contains_after_push<T>(s: Seq<T>, x: T, y: T)
    ensures
        s.contains(y) ==> s.push(x).contains(y),
        s.push(x).contains(x),
{
    if s.contains(y) {
        let j = choose|j: int| 0 <= j < s.len() && s[j] == y;
        assert(s.push(x)[j] == y);
    }
    assert(s.push(x)[s.len() as int] == x);
}

/// Shared caching is on by default only when a partition-group holds more
/// than one window expression.
pub open spec fn group_cache_default(group_size: nat) -> bool {
    group_size > 1
}

/// Caching for a given expression is enabled exactly when that expression
/// holds exactly one window node: with zero or with several, no cache key
/// can be unambiguously derived.
pub open spec fn expr_cache_enabled(em: ExprModel) -> bool {
    window_count(em) == 1
}

/// The caching policy: a group holding exactly one window expression never
/// enables shared caching; a group of two or more enables it by default;
/// and whatever the default, caching for a given expression is on exactly
/// when that expression holds exactly one window node — zero or several
/// window nodes disable it, since no cache key can be unambiguously
/// derived.
pub proof fn lemma_window_caching_policy(group_size: nat, em: ExprModel)
    ensures
        group_size == 1 ==> !group_cache_default(group_size),
        group_size >= 2 ==> group_cache_default(group_size),
        window_count(em) == 1 ==> expr_cache_enabled(em),
        window_count(em) == 0 || window_count(em) > 1 ==> !expr_cache_enabled(em),
{
}

/// Derives the isolated state a partition-group is evaluated against:
/// empty cache, window flag set, caching on exactly for groups of two or
/// more.
pub fn init_group_state(parent: &ExecutionState, group_size: usize) -> (st: ExecutionState)
    requires
        group_size >= 1,
    ensures
        st.window_cache@.len() == 0,
        st.has_window_function,
        st.cache_window_results == group_cache_default(group_size as nat),
{
    let mut st = parent.split();
    st.mark_has_window_function();
    if group_size == 1 {
        st.disable_window_cache();
    } else {
        st.enable_window_cache();
    }
    st
}

/// Re-derives the caching decision for one expression of a group: caching
/// is enabled exactly when the expression holds exactly one window node.
pub fn set_expr_cache_flag(st: &mut ExecutionState, e: &Expr)
    ensures
        final(st).cache_window_results == expr_cache_enabled(expr_model(*e)),
        final(st).has_window_function == old(st).has_window_function,
        final(st).window_cache == old(st).window_cache,
{
    let c = count_windows_capped(e);
    if c == 1 {
        st.enable_window_cache();
    } else {
        st.disable_window_cache();
    }
}

/// Partitions expression positions into window groups and a plain rest.
///
/// Every windowed position lands in exactly the bucket of its first window
/// node's partition-by key list: two positions share a group if and only
/// if those key lists are structurally identical. Non-windowed positions
/// land in `plain`.
#[verifier::loop_isolation(false)]
#[verifier::rlimit(60)]
pub fn partition_window_groups(exprs: &Vec<PhysicalExpr>) -> (r: (Vec<Vec<usize>>, Vec<usize>))
    requires
        forall|i: int| 0 <= i < exprs@.len() ==> (#[trigger] exprs@[i]).introspectable,
    ensures
        ({
            let groups = r.0;
            let plain = r.1;
            let ems = phys_models(exprs@);
            &&& forall|j: int| 0 <= j < plain@.len() ==> plain@[j] < exprs@.len()
                && first_window_key(ems[#[trigger] plain@[j] as int]) is None
            &&& forall|g: int, j: int|
                0 <= g < groups@.len() && 0 <= j < groups@[g]@.len() ==> (#[trigger] groups@[g]@[j])
                    < exprs@.len() && first_window_key(ems[groups@[g]@[j] as int]) is Some
            &&& forall|g: int| 0 <= g < groups@.len() ==> (#[trigger] groups@[g]@).len() > 0
            &&& forall|i: int|
                0 <= i < exprs@.len() && first_window_key(#[trigger] ems[i]) is None
                    ==> plain@.contains(i as usize)
            &&& forall|i: int|
                0 <= i < exprs@.len() && first_window_key(#[trigger] ems[i]) is Some ==> exists|
                    g: int,
                |
                    0 <= g < groups@.len() && (#[trigger] groups@[g]@).contains(i as usize)
            &&& forall|g1: int, j1: int, g2: int, j2: int|
                #![auto]
                0 <= g1 < groups@.len() && 0 <= j1 < groups@[g1]@.len() && 0 <= g2 < groups@.len()
                    && 0 <= j2 < groups@[g2]@.len() ==> ((g1 == g2) <==> (first_window_key(
                    ems[groups@[g1]@[j1] as int],
                ) == first_window_key(ems[groups@[g2]@[j2] as int])))
        }),
{
    let ghost ems = phys_models(exprs@);
    let mut groups: Vec<Vec<usize>> = Vec::new();
    let mut plain: Vec<usize> = Vec::new();
    let mut k: usize = 0;
    while k < exprs.len()
        invariant
            0 <= k <= exprs@.len(),
            ems == phys_models(exprs@),
            ems.len() == exprs@.len(),
            forall|i: int| 0 <= i < exprs@.len() ==> (#[trigger] exprs@[i]).introspectable,
            forall|j: int| 0 <= j < plain@.len() ==> plain@[j] < k && first_window_key(
                ems[#[trigger] plain@[j] as int],
            ) is None,
            forall|g: int, j: int|
                0 <= g < groups@.len() && 0 <= j < groups@[g]@.len() ==> (#[trigger] groups@[g]@[j])
                    < k && first_window_key(ems[groups@[g]@[j] as int]) is Some,
            forall|g: int| 0 <= g < groups@.len() ==> (#[trigger] groups@[g]@).len() > 0,
            forall|i: int|
                0 <= i < k && first_window_key(#[trigger] ems[i]) is None ==> plain@.contains(
                    i as usize,
                ),
            forall|i: int|
                0 <= i < k && first_window_key(#[trigger] ems[i]) is Some ==> exists|g: int|
                    0 <= g < groups@.len() && (#[trigger] groups@[g]@).contains(i as usize),
            forall|g: int, j: int|
                0 <= g < groups@.len() && 0 <= j < groups@[g]@.len() ==> first_window_key(
                    ems[#[trigger] groups@[g]@[j] as int],
                ) == first_window_key(ems[groups@[g]@[0] as int]),
            forall|g1: int, g2: int|
                0 <= g1 < g2 < groups@.len() ==> first_window_key(
                    ems[#[trigger] groups@[g1]@[0] as int],
                ) != first_window_key(ems[#[trigger] groups@[g2]@[0] as int]),
        decreases exprs@.len() - k,
    {
        let e = exprs[k].as_expression().unwrap();
        proof {
            assert(ems[k as int] == expr_model(exprs@[k as int].expr));
        }
        match first_window_partition(e) {
            None => {
                let ghost old_plain = plain@;
                plain.push(k);
                proof {
                    assert forall|i: int|
                        0 <= i < k + 1 && first_window_key(#[trigger] ems[i]) is None implies plain@
                        .contains(i as usize) by {
                        if i < k {
                            lemma_contains_after_push(old_plain, k, i as usize);
                        } else {
                            lemma_contains_after_push(old_plain, k, i as usize);
                        }
                    }
                }
            },
            Some(pb) => {
                let ghost key = Some(exprs_model(pb@));
                proof {
                    assert(first_window_key(ems[k as int]) == key);
                }
                let mut target: Option<usize> = None;
                let mut g: usize = 0;
                while g < groups.len()
                    invariant
                        0 <= g <= groups@.len(),
                        match target {
                            Some(t) => t < groups@.len() && first_window_key(
                                ems[groups@[t as int]@[0] as int],
                            ) == key,
                            None => forall|g0: int|
                                0 <= g0 < g ==> first_window_key(
                                    ems[#[trigger] groups@[g0]@[0] as int],
                                ) != key,
                        },
                    decreases groups@.len() - g,
                {
                    if target.is_none() {
                        let rep = groups[g][0];
                        proof {
                            assert(ems[rep as int] == expr_model(exprs@[rep as int].expr));
                        }
                        let rep_e = exprs[rep].as_expression().unwrap();
                        let rep_pb = first_window_partition(rep_e).unwrap();
                        if crate::expr::expr_list_eq(pb, rep_pb) {
                            target = Some(g);
                        }
                    }
                    g = g + 1;
                }
                let ghost old_groups = groups@;
                match target {
                    Some(t) => {
                        let mut inner: Vec<usize> = Vec::new();
                        groups.set_and_swap(t, &mut inner);
                        inner.push(k);
                        groups.set_and_swap(t, &mut inner);
                        proof {
                            assert(groups@[t as int]@ == old_groups[t as int]@.push(k));
                            assert(groups@[t as int]@.last() == k as usize);
                            assert(groups@[t as int]@.contains(k as usize));
                            assert(groups@[t as int]@[0] == old_groups[t as int]@[0]);
                            assert forall|i: int|
                                0 <= i < k + 1 && first_window_key(#[trigger] ems[i]) is Some
                                implies exists|g0: int|
                                0 <= g0 < groups@.len() && (#[trigger] groups@[g0]@).contains(
                                i as usize) by {
                                if i < k {
                                    let g1 = choose|g1: int|
                                        0 <= g1 < old_groups.len() && (#[trigger] old_groups[
                                        g1]@).contains(i as usize);
                                    if g1 == t {
                                        lemma_contains_after_push(
                                            old_groups[t as int]@,
                                            k,
                                            i as usize,
                                        );
                                        assert(groups@[g1]@.contains(i as usize));
                                    } else {
                                        assert(groups@[g1]@.contains(i as usize));
                                    }
                                } else {
                                    assert(groups@[t as int]@.contains(i as usize));
                                }
                            }
                        }
                    },
                    None => {
                        let mut fresh: Vec<usize> = Vec::new();
                        fresh.push(k);
                        groups.push(fresh);
                        proof {
                            let ghost last = groups@.len() - 1;
                            assert(groups@[last]@[0] == k as usize);
                            assert(groups@[last]@.contains(k as usize));
                            assert forall|i: int|
                                0 <= i < k + 1 && first_window_key(#[trigger] ems[i]) is Some
                                implies exists|g0: int|
                                0 <= g0 < groups@.len() && (#[trigger] groups@[g0]@).contains(
                                i as usize) by {
                                if i < k {
                                    let g1 = choose|g1: int|
                                        0 <= g1 < old_groups.len() && (#[trigger] old_groups[
                                        g1]@).contains(i as usize);
                                    assert(groups@[g1]@.contains(i as usize));
                                } else {
                                    assert(groups@[last]@.contains(i as usize));
                                }
                            }
                        }
                    },
                }
            },
        }
        k = k + 1;
    }
    proof {
        assert forall|g1: int, j1: int, g2: int, j2: int|
            #![auto]
            0 <= g1 < groups@.len() && 0 <= j1 < groups@[g1]@.len() && 0 <= g2 < groups@.len() && 0
                <= j2 < groups@[g2]@.len() implies ((g1 == g2) <==> (first_window_key(
            ems[groups@[g1]@[j1] as int],
        ) == first_window_key(ems[groups@[g2]@[j2] as int]))) by {
            if g1 != g2 {
                if g1 < g2 {
                    assert(first_window_key(ems[groups@[g1]@[0] as int]) != first_window_key(
                        ems[groups@[g2]@[0] as int],
                    ));
                } else {
                    assert(first_window_key(ems[groups@[g2]@[0] as int]) != first_window_key(
                        ems[groups@[g1]@[0] as int],
                    ));
                }
            }
        }
    }
    (groups, plain)
}

/// Evaluates a projection that holds window expressions.
///
/// Plain expressions run over the data-parallel path first; each window
/// group then runs strictly sequentially against its own derived state,
/// with the caching flags re-derived per expression. Results are placed
/// back at their original positions, so a success yields exactly the
/// columns of the sequential reference evaluation, in declared order.
#[verifier::loop_isolation(false)]
#[verifier::rlimit(60)]
pub fn execute_projection_cached_window_fns(
    df: &Table,
    exprs: &Vec<PhysicalExpr>,
    state: &ExecutionState,
) -> (r: Result<Vec<Column>, ProjError>)
    requires
        forall|i: int| 0 <= i < exprs@.len() ==> (#[trigger] exprs@[i]).introspectable,
    ensures
        ({
            let ems = phys_models(exprs@);
            match r {
                Ok(cs) => eval_all(ems, df@) == Ok::<Seq<ColModel>, ErrModel>(cols_model(cs@)),
                Err(e) => eval_all(ems, df@) is Err && exists|i: int|
                    0 <= i < ems.len() && eval_expr(#[trigger] ems[i], df@) == Err::<
                        ColModel,
                        ErrModel,
                    >(e@),
            }
        }),
{
    let ghost ems = phys_models(exprs@);
    let n = exprs.len();
    let (groups, plain) = partition_window_groups(exprs);
    let mut slots: Vec<Option<Column>> = Vec::new();
    let mut s: usize = 0;
    while s < n
        invariant
            0 <= s <= n,
            slots@.len() == s,
            forall|i: int| 0 <= i < s ==> (#[trigger] slots@[i]) is None,
        decreases n - s,
    {
        slots.push(None);
        s = s + 1;
    }

    let mut p: usize = 0;
    while p < plain.len()
        invariant
            0 <= p <= plain@.len(),
            ems == phys_models(exprs@),
            ems.len() == exprs@.len(),
            n == exprs@.len(),
            slots@.len() == n,
            forall|j: int| 0 <= j < plain@.len() ==> (#[trigger] plain@[j]) < n,
            forall|i: int|
                0 <= i < n ==> ((#[trigger] slots@[i]) matches Some(c) ==> eval_expr(ems[i], df@)
                    == Ok::<ColModel, ErrModel>(c@)),
            forall|j: int| 0 <= j < p ==> slots@[#[trigger] plain@[j] as int] is Some,
        decreases plain@.len() - p,
    {
        let idx = plain[p];
        match exprs[idx].evaluate(df, state) {
            Ok(c) => {
                slots.set(idx, Some(c));
            },
            Err(e) => {
                proof {
                    lemma_eval_all(ems, df@);
                }
                return Err(e);
            },
        }
        p = p + 1;
    }

    let mut g: usize = 0;
    while g < groups.len()
        invariant
            0 <= g <= groups@.len(),
            ems == phys_models(exprs@),
            ems.len() == exprs@.len(),
            n == exprs@.len(),
            slots@.len() == n,
            forall|i: int| 0 <= i < exprs@.len() ==> (#[trigger] exprs@[i]).introspectable,
            forall|g0: int| 0 <= g0 < groups@.len() ==> (#[trigger] groups@[g0]@).len() > 0,
            forall|g0: int, j: int|
                0 <= g0 < groups@.len() && 0 <= j < groups@[g0]@.len() ==> (#[trigger] groups@[
                    g0
                ]@[j]) < n,
            forall|i: int|
                0 <= i < n ==> ((#[trigger] slots@[i]) matches Some(c) ==> eval_expr(ems[i], df@)
                    == Ok::<ColModel, ErrModel>(c@)),
            forall|j: int| 0 <= j < plain@.len() ==> slots@[#[trigger] plain@[j] as int] is Some,
            forall|g0: int, j: int|
                0 <= g0 < g && 0 <= j < groups@[g0]@.len() ==> slots@[#[trigger] groups@[
                    g0
                ]@[j] as int] is Some,
        decreases groups@.len() - g,
    {
        let group_len = groups[g].len();
        let mut st = init_group_state(state, group_len);
        let mut j: usize = 0;
        while j < group_len
            invariant
                0 <= j <= group_len,
                g < groups@.len(),
                group_len == groups@[g as int]@.len(),
                ems == phys_models(exprs@),
                ems.len() == exprs@.len(),
                n == exprs@.len(),
                slots@.len() == n,
                forall|i: int| 0 <= i < exprs@.len() ==> (#[trigger] exprs@[i]).introspectable,
                forall|g0: int| 0 <= g0 < groups@.len() ==> (#[trigger] groups@[g0]@).len() > 0,
                forall|g0: int, j0: int|
                    0 <= g0 < groups@.len() && 0 <= j0 < groups@[g0]@.len() ==> (#[trigger] groups@[
                        g0
                    ]@[j0]) < n,
                forall|i: int|
                    0 <= i < n ==> ((#[trigger] slots@[i]) matches Some(c) ==> eval_expr(
                        ems[i],
                        df@,
                    ) == Ok::<ColModel, ErrModel>(c@)),
                forall|j0: int| 0 <= j0 < plain@.len() ==> slots@[#[trigger] plain@[
                    j0
                ] as int] is Some,
                forall|g0: int, j0: int|
                    0 <= g0 < g && 0 <= j0 < groups@[g0]@.len() ==> slots@[#[trigger] groups@[
                        g0
                    ]@[j0] as int] is Some,
                forall|j0: int| 0 <= j0 < j ==> slots@[#[trigger] groups@[g as int]@[
                    j0
                ] as int] is Some,
            decreases group_len - j,
        {
            let idx = groups[g][j];
            set_expr_cache_flag(&mut st, exprs[idx].as_expression().unwrap());
            match exprs[idx].evaluate(df, &st) {
                Ok(c) => {
                    slots.set(idx, Some(c));
                },
                Err(e) => {
                    proof {
                        lemma_eval_all(ems, df@);
                    }
                    return Err(e);
                },
            }
            j = j + 1;
        }
        g = g + 1;
    }

    proof {
        assert forall|i: int| 0 <= i < n implies (#[trigger] slots@[i]) is Some by {
            if first_window_key(ems[i]) is None {
                assert(plain@.contains(i as usize));
                let j = choose|j: int| 0 <= j < plain@.len() && plain@[j] == i as usize;
                assert(slots@[plain@[j] as int] is Some);
            } else {
                let g0 = choose|g0: int|
                    0 <= g0 < groups@.len() && (#[trigger] groups@[g0]@).contains(i as usize);
                let j0 = choose|j0: int|
                    0 <= j0 < groups@[g0]@.len() && groups@[g0]@[j0] == i as usize;
                assert(slots@[groups@[g0]@[j0] as int] is Some);
            }
        }
    }

    let mut out: Vec<Column> = Vec::new();
    let mut i: usize = 0;
    while i < n
        invariant
            0 <= i <= n,
            ems.len() == n,
            slots@.len() == n,
            forall|i0: int| 0 <= i0 < n ==> (#[trigger] slots@[i0]) is Some,
            forall|i0: int|
                0 <= i0 < n ==> ((#[trigger] slots@[i0]) matches Some(c) ==> eval_expr(
                    ems[i0],
                    df@,
                ) == Ok::<ColModel, ErrModel>(c@)),
            out@.len() == i,
            forall|j: int| 0 <= j < i ==> eval_expr(#[trigger] ems[j], df@) == Ok::<
                ColModel,
                ErrModel,
            >(out@[j]@),
        decreases n - i,
    {
        match &slots[i] {
            Some(c) => {
                out.push(c.copy());
            },
            None => {
                proof {
                    assert(false);
                }
            },
        }
        i = i + 1;
    }
    proof {
        lemma_eval_all(ems, df@);
        let cs = eval_all(ems, df@)->Ok_0;
        assert forall|j: int| 0 <= j < out@.len() implies cols_model(out@)[j] == cs[j] by {
            assert(eval_expr(ems[j], df@) == Ok::<ColModel, ErrModel>(out@[j]@));
            assert(Ok::<ColModel, ErrModel>(cs[j]) == eval_expr(ems[j], df@));
        }
        assert(cols_model(out@) =~= cs);
    }
    Ok(out)
}

} // verus!
