//! The output assembler.
//!
//! `check_expand_literals` reconciles the result columns of a projection
//! into one table: it verifies name uniqueness first — a duplicate is
//! reported even when lengths would reconcile — then broadcasts
//! single-value columns up to the table height by value repetition, passes
//! zero-length columns through, refuses any other length, and, when the
//! projection's logical row count is pinned at zero, cuts every column down
//! to no rows, so that an all-literal projection cannot report one row.
use vstd::prelude::*;

use crate::column::{ColModel, Column, Table, cols_model};
use crate::error::{ErrModel, ProjError};

verus! {

/// The maximum column length.
pub open spec fn max_len(s: Seq<ColModel>) -> nat
    decreases s,
{
    if s.len() == 0 {
        0
    } else {
        let rest = max_len(s.drop_last());
        if s.last().values.len() > rest {
            s.last().values.len()
        } else {
            rest
        }
    }
}

/// Every column has the first column's length.
pub open spec fn all_same_len(s: Seq<ColModel>) -> bool {
    forall|i: int| 0 <= i < s.len() ==> (#[trigger] s[i]).values.len() == s[0].values.len()
}

/// Position `j` repeats a name seen earlier.
pub open spec fn dup_before(s: Seq<ColModel>, j: int) -> bool {
    exists|i: int| 0 <= i < j && (#[trigger] s[i]).name == s[j].name
}

/// Scans forward from `j` for the first repeated name.
pub open spec fn scan_dup(s: Seq<ColModel>, j: int) -> Option<Seq<char>>
    decreases s.len() - j,
{
    if j < 0 || j >= s.len() {
        None
    } else if dup_before(s, j) {
        Some(s[j].name)
    } else {
        scan_dup(s, j + 1)
    }
}

/// The first repeated column name, if names are not pairwise distinct.
pub open spec fn first_dup(s: Seq<ColModel>) -> Option<Seq<char>> {
    scan_dup(s, 0)
}

/// Reconciles one column against the table height: a single value is
/// repeated up to `h`, a column of length `h` or empty passes through, any
/// other length is a mismatch.
pub open spec fn bc_one(c: ColModel, h: nat) -> Result<ColModel, ErrModel> {
    if c.values.len() == 1 && h > 1 {
        Ok(ColModel { name: c.name, values: Seq::new(h, |i: int| c.values[0]) })
    } else if c.values.len() == h || c.values.len() == 0 {
        Ok(c)
    } else {
        Err(ErrModel::LengthMismatch { len: c.values.len() as int, height: h as int })
    }
}

/// Reconciles every column, stopping at the first mismatch.
pub open spec fn broadcast_all(s: Seq<ColModel>, h: nat) -> Result<Seq<ColModel>, ErrModel>
    decreases s,
{
    if s.len() == 0 {
        Ok(Seq::empty())
    } else {
        match broadcast_all(s.drop_last(), h) {
            Err(e) => Err(e),
            Ok(rest) => match bc_one(s.last(), h) {
                Ok(c) => Ok(rest.push(c)),
                Err(e) => Err(e),
            },
        }
    }
}

/// Cuts every column down to no rows.
pub open spec fn truncate_zero(s: Seq<ColModel>) -> Seq<ColModel> {
    s.map_values(|c: ColModel| ColModel { name: c.name, values: Seq::<i64>::empty() })
}

/// What assembling a result-column list yields: the duplicate-name check
/// first, then length reconciliation (skipped when all lengths already
/// agree), then the zero-length truncation.
pub open spec fn assemble(s: Seq<ColModel>, zero_length: bool) -> Result<Seq<ColModel>, ErrModel> {
    match first_dup(s) {
        Some(n) => Err(ErrModel::DuplicateName(n)),
        None => {
            let expanded = if all_same_len(s) {
                Ok(s)
            } else {
                broadcast_all(s, max_len(s))
            };
            match expanded {
                Err(e) => Err(e),
                Ok(cs) => Ok(
                    if zero_length {
                        truncate_zero(cs)
                    } else {
                        cs
                    },
                ),
            }
        },
    }
}

/// The broadcast rule: a single value is expanded to the table height by
/// repetition, an empty column passes through, and a column whose length
/// exceeds one and differs from the height is a length mismatch.
pub proof fn lemma_broadcast_rule(c: ColModel, h: nat)
    ensures
        c.values.len() == 1 && h > 1 ==> bc_one(c, h) == Ok::<ColModel, ErrModel>(
            ColModel { name: c.name, values: Seq::new(h, |i: int| c.values[0]) },
        ),
        c.values.len() == 0 ==> bc_one(c, h) == Ok::<ColModel, ErrModel>(c),
        c.values.len() > 1 && c.values.len() != h ==> bc_one(c, h) == Err::<ColModel, ErrModel>(
            ErrModel::LengthMismatch { len: c.values.len() as int, height: h as int },
        ),
{
}

/// The duplicate-name check runs before broadcasting: a repeated name is
/// reported even when every length would otherwise reconcile.
pub proof fn lemma_duplicate_before_broadcast(s: Seq<ColModel>, zero_length: bool)
    requires
        first_dup(s) is Some,
    ensures
        assemble(s, zero_length) == Err::<Seq<ColModel>, ErrModel>(
            ErrModel::DuplicateName(first_dup(s)->Some_0),
        ),
{
}

/// Characterization of `broadcast_all`: it succeeds exactly when every
/// column reconciles, and then works pointwise.
pub proof fn lemma_broadcast_all(s: Seq<ColModel>, h: nat)
    ensures
        (broadcast_all(s, h) is Ok) <==> (forall|i: int|
            0 <= i < s.len() ==> bc_one(#[trigger] s[i], h) is Ok),
        broadcast_all(s, h) matches Ok(cs) ==> cs.len() == s.len() && forall|i: int|
            0 <= i < s.len() ==> Ok::<ColModel, ErrModel>(cs[i]) == bc_one(#[trigger] s[i], h),
    decreases s,
{
    if s.len() > 0 {
        lemma_broadcast_all(s.drop_last(), h);
        assert(forall|i: int| 0 <= i < s.len() - 1 ==> s.drop_last()[i] == #[trigger] s[i]);
    }
}

/// When every column before `i` reconciles and `i` does not, the
/// reconciliation reports exactly that mismatch.
pub proof fn lemma_broadcast_first_err(s: Seq<ColModel>, h: nat, i: int)
    requires
        0 <= i < s.len(),
        forall|j: int| 0 <= j < i ==> bc_one(#[trigger] s[j], h) is Ok,
        bc_one(s[i], h) is Err,
    ensures
        broadcast_all(s, h) == Err::<Seq<ColModel>, ErrModel>(bc_one(s[i], h)->Err_0),
    decreases s,
{
    lemma_broadcast_all(s.drop_last(), h);
    assert(forall|j: int| 0 <= j < s.len() - 1 ==> s.drop_last()[j] == #[trigger] s[j]);
    if i < s.len() - 1 {
        lemma_broadcast_first_err(s.drop_last(), h, i);
    }
}

/// Builds the output table from a projection's result columns.
#[verifier::loop_isolation(false)]
#[verifier::rlimit(60)]
pub fn check_expand_literals(columns: Vec<Column>, zero_length: bool) -> (r: Result<
    Table,
    ProjError,
>)
    requires
        columns@.len() >= 1,
    ensures
        match r {
            Ok(t) => assemble(cols_model(columns@), zero_length) == Ok::<Seq<ColModel>, ErrModel>(
                t@,
            ),
            Err(e) => assemble(cols_model(columns@), zero_length) == Err::<
                Seq<ColModel>,
                ErrModel,
            >(e@),
        },
{
    let ghost m = cols_model(columns@);
    let n = columns.len();
    let first_len = columns[0].len();
    let mut df_height: usize = 0;
    let mut all_equal: bool = true;
    let mut i: usize = 0;
    while i < n
        invariant
            0 <= i <= n,
            df_height == max_len(m.take(i as int)),
            all_equal <==> (forall|j: int|
                0 <= j < i ==> (#[trigger] m[j]).values.len() == first_len),
        decreases n - i,
    {
        proof {
            assert(m.take(i + 1).drop_last() =~= m.take(i as int));
            assert(m.take(i + 1).last() == m[i as int]);
        }
        let len = columns[i].len();
        if len > df_height {
            df_height = len;
        }
        if len != first_len {
            all_equal = false;
        }
        i = i + 1;
    }
    proof {
        assert(m.take(n as int) =~= m);
    }

    let mut j: usize = 1;
    proof {
        assert(!dup_before(m, 0));
    }
    while j < n
        invariant
            1 <= j <= n,
            first_dup(m) == scan_dup(m, j as int),
            forall|j0: int| 0 <= j0 < j ==> !dup_before(m, j0),
        decreases n - j,
    {
        let mut i2: usize = 0;
        while i2 < j
            invariant
                0 <= i2 <= j < n,
                forall|i0: int| 0 <= i0 < i2 ==> (#[trigger] m[i0]).name != m[j as int].name,
            decreases j - i2,
        {
            if columns[i2].name == columns[j].name {
                proof {
                    assert(m[i2 as int].name == columns@[i2 as int]@.name);
                    assert(m[j as int].name == columns@[j as int]@.name);
                    assert(dup_before(m, j as int));
                }
                return Err(ProjError::DuplicateName(columns[j].name.clone()));
            }
            i2 = i2 + 1;
        }
        proof {
            assert(!dup_before(m, j as int));
        }
        j = j + 1;
    }
    proof {
        assert(first_dup(m) is None);
    }

    let mut expanded: Vec<Column>;
    if all_equal {
        expanded = columns;
    } else {
        proof {
            lemma_broadcast_all(m, df_height as nat);
        }
        expanded = Vec::new();
        let mut k: usize = 0;
        while k < n
            invariant
                0 <= k <= n,
                expanded@.len() == k,
                forall|j0: int| 0 <= j0 < k ==> Ok::<ColModel, ErrModel>(
                    (#[trigger] expanded@[j0])@,
                ) == bc_one(m[j0], df_height as nat),
            decreases n - k,
        {
            let len = columns[k].len();
            if len == 1 && df_height > 1 {
                expanded.push(columns[k].broadcast_to(df_height));
            } else if len == df_height || len == 0 {
                expanded.push(columns[k].copy());
            } else {
                proof {
                    assert(m[k as int] == columns@[k as int]@);
                    assert forall|j0: int| 0 <= j0 < k implies bc_one(
                        #[trigger] m[j0],
                        df_height as nat,
                    ) is Ok by {
                        assert(Ok::<ColModel, ErrModel>(expanded@[j0]@) == bc_one(
                            m[j0],
                            df_height as nat,
                        ));
                    }
                    lemma_broadcast_first_err(m, df_height as nat, k as int);
                }
                return Err(ProjError::LengthMismatch { len, height: df_height });
            }
            k = k + 1;
        }
        proof {
            assert forall|j0: int| 0 <= j0 < n implies bc_one(#[trigger] m[j0], df_height as nat)
                is Ok by {
                assert(Ok::<ColModel, ErrModel>(expanded@[j0]@) == bc_one(
                    m[j0],
                    df_height as nat,
                ));
            }
            assert(broadcast_all(m, df_height as nat) is Ok);
            let cs = broadcast_all(m, df_height as nat)->Ok_0;
            assert forall|j0: int| 0 <= j0 < n implies cols_model(expanded@)[j0] == cs[j0] by {
                assert(Ok::<ColModel, ErrModel>(expanded@[j0]@) == bc_one(m[j0], df_height as nat));
                assert(Ok::<ColModel, ErrModel>(cs[j0]) == bc_one(m[j0], df_height as nat));
            }
            assert(cols_model(expanded@) =~= cs);
        }
    }
    let ghost exp = cols_model(expanded@);

    if zero_length {
        let mut cut: Vec<Column> = Vec::new();
        let mut k: usize = 0;
        while k < expanded.len()
            invariant
                0 <= k <= expanded@.len(),
                exp == cols_model(expanded@),
                cut@.len() == k,
                forall|j0: int| 0 <= j0 < k ==> (#[trigger] cut@[j0])@ == (ColModel {
                    name: exp[j0].name,
                    values: Seq::<i64>::empty(),
                }),
            decreases expanded@.len() - k,
        {
            let mut c = expanded[k].copy();
            c.truncate_rows(0);
            proof {
                assert(c@.values =~= Seq::<i64>::empty());
            }
            cut.push(c);
            k = k + 1;
        }
        proof {
            assert forall|j0: int| 0 <= j0 < exp.len() implies cols_model(cut@)[j0]
                == truncate_zero(exp)[j0] by {
                assert((#[trigger] cut@[j0])@ == (ColModel {
                    name: exp[j0].name,
                    values: Seq::<i64>::empty(),
                }));
            }
            assert(cols_model(cut@) =~= truncate_zero(exp));
        }
        Ok(Table::from_columns_unchecked(cut))
    } else {
        Ok(Table::from_columns_unchecked(expanded))
    }
}

} // verus!
