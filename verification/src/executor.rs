//! The projection executor's entry point and CSE staging.
//!
//! A common-subexpression (CSE) pre-pass evaluates shared expressions once
//! and appends their columns to the table under temporary names, so the
//! main expressions can reference them; afterwards the table is cut back to
//! its original width — on success and on failure alike — and every result
//! column that still carries a temporary name is renamed to its intended
//! final one. A temporary name is the intended name behind the `_cse_`
//! marker. The window cache of the state is cleared unconditionally before
//! returning.
use vstd::prelude::*;
use vstd::string::StrSliceExecFns;
use vstd::string::StringExecFns;

use crate::column::{ColModel, Column, Table, cols_model};
use crate::error::{ErrModel, ProjError};
use crate::expr::ExprModel;
use crate::physical::PhysicalExpr;
use crate::state::ExecutionState;
use crate::walk::{first_leaf, output_name_model, scan_output_name};
use crate::window::{
    eval_all,
    execute_projection_cached_window_fns,
    lemma_eval_all,
    phys_models,
    run_exprs_par,
};

verus! {

/// The marker a CSE temporary name starts with.
pub open spec fn cse_prefix() -> Seq<char> {
    seq!['_', 'c', 's', 'e', '_']
}

/// True when the identifier is a CSE temporary name.
pub open spec fn is_cse_name(n: Seq<char>) -> bool {
    n.len() >= 5 && n.subrange(0, 5) == cse_prefix()
}

/// The intended final name behind a CSE temporary name.
pub open spec fn strip_cse(n: Seq<char>) -> Seq<char> {
    n.subrange(5, n.len() as int)
}

/// Renames a column back to its intended name when it carries a CSE
/// temporary name; leaves it unchanged otherwise.
pub open spec fn rename_cse(c: ColModel) -> ColModel {
    if is_cse_name(c.name) {
        ColModel { name: strip_cse(c.name), values: c.values }
    } else {
        c
    }
}

/// [`rename_cse`] over a result list.
pub open spec fn rename_all_cse(cs: Seq<ColModel>) -> Seq<ColModel> {
    cs.map_values(|c: ColModel| rename_cse(c))
}

/// Strips the CSE marker from a column's name, if it carries one.
pub fn rename_cse_tmp_column(c: &mut Column)
    ensures
        final(c)@ == rename_cse(old(c)@),
{
    let new_name: Option<String>;
    let s = c.name.as_str();
    let len = s.unicode_len();
    if len >= 5 && s.get_char(0) == '_' && s.get_char(1) == 'c' && s.get_char(2) == 's'
        && s.get_char(3) == 'e' && s.get_char(4) == '_' {
        proof {
            assert(c.name@.subrange(0, 5) =~= cse_prefix());
        }
        new_name = Some(String::from_str(s.substring_char(5, len)));
    } else {
        proof {
            if is_cse_name(c.name@) {
                assert(c.name@.subrange(0, 5)[0] == c.name@[0]);
                assert(c.name@.subrange(0, 5)[1] == c.name@[1]);
                assert(c.name@.subrange(0, 5)[2] == c.name@[2]);
                assert(c.name@.subrange(0, 5)[3] == c.name@[3]);
                assert(c.name@.subrange(0, 5)[4] == c.name@[4]);
            }
        }
        new_name = None;
    }
    match new_name {
        Some(n) => {
            c.rename(n);
        },
        None => {},
    }
}

/// Renaming never changes how many columns there are, and a projection
/// evaluated through CSE staging yields exactly one column per expression,
/// just as one evaluated against the bare table does: staging never
/// changes the final column count.
pub proof fn lemma_cse_preserves_arity(
    ems: Seq<ExprModel>,
    tbl: Seq<ColModel>,
    tmp: Seq<ColModel>,
)
    ensures
        eval_all(ems, tbl) matches Ok(cs) ==> cs.len() == ems.len(),
        eval_all(ems, tbl + tmp) matches Ok(cs) ==> rename_all_cse(cs).len() == ems.len(),
{
    lemma_eval_all(ems, tbl);
    lemma_eval_all(ems, tbl + tmp);
}

/// After the renaming pass no result column carries a CSE temporary name,
/// provided no intended final name itself starts with the marker.
pub proof fn lemma_rename_cse_clears_temp_names(cs: Seq<ColModel>)
    requires
        forall|i: int|
            0 <= i < cs.len() ==> (is_cse_name((#[trigger] cs[i]).name) ==> !is_cse_name(
                strip_cse(cs[i].name),
            )),
    ensures
        forall|i: int| 0 <= i < rename_all_cse(cs).len() ==> !is_cse_name(
            (#[trigger] rename_all_cse(cs)[i]).name,
        ),
{
    assert forall|i: int| 0 <= i < rename_all_cse(cs).len() implies !is_cse_name(
        (#[trigger] rename_all_cse(cs)[i]).name,
    ) by {
        assert(rename_all_cse(cs)[i] == rename_cse(cs[i]));
    }
}

/// A diagnostic name held in smartstring's small-string representation.
/// Opaque to the verifier; [`smart_chars`] gives the characters it holds.
#[verifier::external_body]
pub struct SmartName {
    inner: smartstring::SmartString<smartstring::LazyCompact>,
}

/// The characters a compact diagnostic name holds.
pub uninterp spec fn smart_chars(s: SmartName) -> Seq<char>;

/// Relies on smartstring's `From<&str>` impl: the constructed string holds
/// exactly the characters of the source, inline or boxed.
#[verifier::external_body]
fn smart_from_str(s: &str) -> (r: SmartName)
    ensures
        smart_chars(r) == s@,
{
    SmartName { inner: smartstring::SmartString::from(s) }
}

impl SmartName {
    /// Relies on smartstring's `Deref<Target = str>`: a view of the same
    /// characters.
    #[verifier::external_body]
    pub fn as_str(&self) -> (r: &str)
        ensures
            r@ == smart_chars(*self),
    {
        &self.inner
    }
}

/// The name an expression is reported under in per-expression diagnostics.
///
/// Under normal evaluation the declared or inferred output name is used
/// and an inference failure surfaces immediately. Under CSE evaluation an
/// intermediate expression may fail inference when considered standalone,
/// so a failure is tolerated and the name falls back to the first leaf
/// column name the expression references.
pub fn profile_name(e: &PhysicalExpr, has_cse: bool) -> (r: Result<SmartName, ProjError>)
    requires
        has_cse && output_name_model(e.model()) is None ==> e.introspectable && first_leaf(
            e.model(),
        ) is Some,
    ensures
        match r {
            Ok(n) => (match output_name_model(e.model()) {
                Some(nm) => smart_chars(n) == nm,
                None => has_cse && smart_chars(n) == first_leaf(e.model())->Some_0,
            }),
            Err(err) => !has_cse && output_name_model(e.model()) is None && err@
                == ErrModel::NoOutputName,
        },
{
    match scan_output_name(&e.expr) {
        Some(Some(n)) => Ok(smart_from_str(n.as_str())),
        _ => {
            if has_cse {
                let src = e.as_expression().unwrap();
                let fallback = crate::walk::first_leaf_name(src).unwrap();
                Ok(smart_from_str(fallback.as_str()))
            } else {
                Err(ProjError::NoOutputName)
            }
        },
    }
}

/// Evaluates the full projection: an optional CSE pre-pass, temporary
/// staging of its columns, the main expressions, and restoration.
///
/// The table leaves exactly as it entered, on success and on failure, and
/// the state's window cache is cleared unconditionally. A success yields,
/// for every projection expression in declared order, its column under the
/// sequential reference evaluation — against the bare table without a CSE
/// pre-pass, against the temporarily widened table with one — with CSE
/// temporary names renamed back.
pub fn evaluate_physical_expressions(
    df: &mut Table,
    cse_exprs: &Vec<PhysicalExpr>,
    exprs: &Vec<PhysicalExpr>,
    state: &mut ExecutionState,
    has_windows: bool,
) -> (r: Result<Vec<Column>, ProjError>)
    requires
        has_windows ==> forall|i: int|
            0 <= i < cse_exprs@.len() ==> (#[trigger] cse_exprs@[i]).introspectable,
        has_windows ==> forall|i: int|
            0 <= i < exprs@.len() ==> (#[trigger] exprs@[i]).introspectable,
    ensures
        final(df)@ == old(df)@,
        final(state).window_cache@.len() == 0,
        final(state).has_window_function == old(state).has_window_function,
        final(state).cache_window_results == old(state).cache_window_results,
        ({
            let ems = phys_models(exprs@);
            let cse_ems = phys_models(cse_exprs@);
            if cse_ems.len() == 0 {
                &&& (r is Ok <==> eval_all(ems, old(df)@) is Ok)
                &&& (r matches Ok(cs) ==> eval_all(ems, old(df)@) == Ok::<Seq<ColModel>, ErrModel>(
                    cols_model(cs@),
                ))
            } else {
                &&& (eval_all(cse_ems, old(df)@) is Err ==> r is Err)
                &&& (eval_all(cse_ems, old(df)@) matches Ok(tmp) ==> {
                    let staged = old(df)@ + tmp;
                    &&& (r is Ok <==> eval_all(ems, staged) is Ok)
                    &&& (r matches Ok(cs) ==> cols_model(cs@) == rename_all_cse(
                        eval_all(ems, staged)->Ok_0,
                    ))
                })
            }
        }),
{
    let ghost orig = df@;
    let width = df.width();
    if cse_exprs.len() > 0 {
        let tmp_res = if has_windows {
            execute_projection_cached_window_fns(df, cse_exprs, state)
        } else {
            run_exprs_par(df, cse_exprs, state)
        };
        match tmp_res {
            Err(e) => {
                state.clear_window_cache();
                Err(e)
            },
            Ok(tmp_cols) => {
                if has_windows {
                    state.clear_window_cache();
                }
                let ghost tmp = cols_model(tmp_cols@);
                df.hstack_columns(tmp_cols);
                let res = if has_windows {
                    execute_projection_cached_window_fns(df, exprs, state)
                } else {
                    run_exprs_par(df, exprs, state)
                };
                df.truncate_width(width);
                proof {
                    assert(df@ =~= orig);
                }
                state.clear_window_cache();
                match res {
                    Err(e) => Err(e),
                    Ok(cols) => {
                        let ghost pre = cols_model(cols@);
                        let mut out: Vec<Column> = Vec::new();
                        let mut i: usize = 0;
                        while i < cols.len()
                            invariant
                                0 <= i <= cols@.len(),
                                pre == cols_model(cols@),
                                pre.len() == cols@.len(),
                                out@.len() == i,
                                forall|j: int| 0 <= j < i ==> (#[trigger] out@[j])@ == rename_cse(
                                    pre[j],
                                ),
                            decreases cols@.len() - i,
                        {
                            let mut c = cols[i].copy();
                            rename_cse_tmp_column(&mut c);
                            out.push(c);
                            i = i + 1;
                        }
                        proof {
                            assert forall|j: int| 0 <= j < out@.len() implies cols_model(out@)[j]
                                == rename_all_cse(pre)[j] by {
                                assert((#[trigger] out@[j])@ == rename_cse(pre[j]));
                                assert(rename_all_cse(pre)[j] == rename_cse(pre[j]));
                            }
                            assert(cols_model(out@) =~= rename_all_cse(pre));
                        }
                        Ok(out)
                    },
                }
            },
        }
    } else {
        let r = if has_windows {
            execute_projection_cached_window_fns(df, exprs, state)
        } else {
            run_exprs_par(df, exprs, state)
        };
        state.clear_window_cache();
        r
    }
}

} // verus!
