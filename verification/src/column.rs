//! Columns and tables.
//!
//! A [`Column`] is a named, fixed-length array of values; its length is the
//! only cardinality property this core depends on. A [`Table`] is an ordered
//! sequence of columns. A completed output table has pairwise-distinct
//! column names; intermediate tables built during common-subexpression
//! staging may temporarily violate that convention, so the table type itself
//! does not carry the invariant — the output assembler enforces it.
use vstd::prelude::*;

verus! {

/// A named, fixed-length array of values.
#[derive(Debug)]
pub struct Column {
    pub name: String,
    pub values: Vec<i64>,
}

/// Ghost mirror of [`Column`].
pub struct ColModel {
    pub name: Seq<char>,
    pub values: Seq<i64>,
}

impl View for Column {
    type V = ColModel;

    open spec fn view(&self) -> ColModel {
        ColModel { name: self.name@, values: self.values@ }
    }
}

impl Column {
    /// Builds a column from a name and its values.
    pub fn new(name: String, values: Vec<i64>) -> (c: Column)
        ensures
            c@ == (ColModel { name: name@, values: values@ }),
    {
        Column { name, values }
    }

    /// The column's length.
    pub fn len(&self) -> (n: usize)
        ensures
            n == self@.values.len(),
    {
        self.values.len()
    }

    /// Gives the column a new name, keeping its values.
    pub fn rename(&mut self, name: String)
        ensures
            final(self)@ == (ColModel { name: name@, values: old(self)@.values }),
    {
        self.name = name;
    }

    /// An independent copy of the column.
    pub fn copy(&self) -> (c: Column)
        ensures
            c@ == self@,
    {
        let mut values: Vec<i64> = Vec::new();
        let mut i: usize = 0;
        while i < self.values.len()
            invariant
                0 <= i <= self.values.len(),
                values@ == self.values@.subrange(0, i as int),
            decreases self.values.len() - i,
        {
            values.push(self.values[i]);
            i = i + 1;
        }
        proof {
            assert(values@ =~= self.values@);
        }
        Column { name: self.name.clone(), values }
    }

    /// Expands a single-value column to `height` rows by repeating its value.
    pub fn broadcast_to(&self, height: usize) -> (c: Column)
        requires
            self@.values.len() == 1,
        ensures
            c@.name == self@.name,
            c@.values == Seq::new(height as nat, |i: int| self@.values[0]),
    {
        let v = self.values[0];
        let mut values: Vec<i64> = Vec::new();
        let mut i: usize = 0;
        while i < height
            invariant
                0 <= i <= height,
                self@.values.len() == 1,
                v == self@.values[0],
                values@ == Seq::new(i as nat, |j: int| self@.values[0]),
            decreases height - i,
        {
            values.push(v);
            proof {
                assert(values@ =~= Seq::new((i + 1) as nat, |j: int| self@.values[0]));
            }
            i = i + 1;
        }
        Column { name: self.name.clone(), values }
    }

    /// Cuts the column down to at most `n` rows.
    pub fn truncate_rows(&mut self, n: usize)
        ensures
            n <= old(self)@.values.len() ==> final(self)@ == (ColModel {
                name: old(self)@.name,
                values: old(self)@.values.subrange(0, n as int),
            }),
            n > old(self)@.values.len() ==> final(self)@ == old(self)@,
    {
        self.values.truncate(n);
    }
}

/// An ordered sequence of columns, exclusively owned.
#[derive(Debug)]
pub struct Table {
    pub columns: Vec<Column>,
}

/// The model of a sequence of columns.
pub open spec fn cols_model(cols: Seq<Column>) -> Seq<ColModel> {
    cols.map_values(|c: Column| c@)
}

impl View for Table {
    type V = Seq<ColModel>;

    open spec fn view(&self) -> Seq<ColModel> {
        cols_model(self.columns@)
    }
}

impl Table {
    /// Builds a table from columns without re-validating any invariant.
    pub fn from_columns_unchecked(columns: Vec<Column>) -> (t: Table)
        ensures
            t@ == cols_model(columns@),
    {
        Table { columns }
    }

    /// The number of columns.
    pub fn width(&self) -> (w: usize)
        ensures
            w == self@.len(),
    {
        self.columns.len()
    }

    /// Appends columns in place, bypassing the name-uniqueness convention.
    /// Used only for temporary staging; the caller restores the original
    /// width afterwards.
    pub fn hstack_columns(&mut self, mut cols: Vec<Column>)
        ensures
            final(self)@ == old(self)@ + cols_model(cols@),
    {
        let ghost appended = cols@;
        self.columns.append(&mut cols);
        proof {
            assert(final(self)@ =~= old(self)@ + cols_model(appended));
        }
    }

    /// Cuts the table back down to its first `w` columns.
    pub fn truncate_width(&mut self, w: usize)
        ensures
            w <= old(self)@.len() ==> final(self)@ == old(self)@.subrange(0, w as int),
            w > old(self)@.len() ==> final(self)@ == old(self)@,
    {
        self.columns.truncate(w);
        proof {
            if w <= old(self).columns@.len() {
                assert(final(self)@ =~= old(self)@.subrange(0, w as int));
            }
        }
    }
}

} // verus!
