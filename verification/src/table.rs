//! The engine's input: a long-format table of `(group, data type, value)`
//! rows.
//!
//! Rows whose value is not a finite double, or whose group or data-type name
//! is empty, are dropped before any statistics are computed; that filtering
//! is the engine's own responsibility and is done here.  Contracts speak of
//! a row's *model*, the triple of the two name views and the value bits.

use crate::fbits::{float_is_finite, is_finite_bits};
use crate::strorder::{contains_view, dedup_sort, lex_sorted, str_eq, views_of};
use vstd::prelude::*;

verus! {

/// What a row means: group name, data-type name, value bits.
pub type RowModel = (Seq<char>, Seq<char>, u64);

/// One observation: a value, tagged with its group and its data type.
pub struct SampleRow {
    pub group: String,
    pub data_type: String,
    pub value_bits: u64,
}

pub open spec fn row_model(r: SampleRow) -> RowModel {
    (r.group@, r.data_type@, r.value_bits)
}

pub open spec fn table_model(rows: Seq<SampleRow>) -> Seq<RowModel> {
    rows.map_values(|r: SampleRow| row_model(r))
}

/// A row enters the engine only if its value is a finite double and both
/// names are non-empty.
pub open spec fn valid_model(m: RowModel) -> bool {
    &&& is_finite_bits(m.2)
    &&& m.0.len() > 0
    &&& m.1.len() > 0
}

/// The valid rows, in input order.
pub open spec fn filtered_model(rows: Seq<RowModel>) -> Seq<RowModel> {
    rows.filter(|m: RowModel| valid_model(m))
}

/// The value bits of the rows of group `g`, in row order.
pub open spec fn values_of_group(rows: Seq<RowModel>, g: Seq<char>) -> Seq<u64> {
    rows.filter_map(
        |m: RowModel|
            if m.0 == g {
                Some(m.2)
            } else {
                None
            },
    )
}

/// The value bits of the rows of data type `d` and group `g`, in row order.
pub open spec fn values_of_data_type_and_group(
    rows: Seq<RowModel>,
    d: Seq<char>,
    g: Seq<char>,
) -> Seq<u64> {
    rows.filter_map(
        |m: RowModel|
            if m.1 == d && m.0 == g {
                Some(m.2)
            } else {
                None
            },
    )
}

/// The rows of data type `d`, in row order.
pub open spec fn rows_of_data_type(rows: Seq<RowModel>, d: Seq<char>) -> Seq<RowModel> {
    rows.filter(|m: RowModel| m.1 == d)
}

/// A group's value list is never longer than the table it came from.
pub proof fn lemma_values_of_group_len(rows: Seq<RowModel>, g: Seq<char>)
    ensures
        values_of_group(rows, g).len() <= rows.len(),
    decreases rows.len(),
{
    if rows.len() > 0 {
        lemma_values_of_group_len(rows.drop_last(), g);
    }
}

/// Filtering by data type keeps only rows of the original sequence, so it
/// preserves row validity.
pub proof fn lemma_rows_of_data_type_valid(rows: Seq<RowModel>, d: Seq<char>)
    requires
        forall|i: int| 0 <= i < rows.len() ==> valid_model(#[trigger] rows[i]),
    ensures
        forall|k: int|
            0 <= k < rows_of_data_type(rows, d).len() ==> valid_model(
                #[trigger] rows_of_data_type(rows, d)[k],
            ),
    decreases rows.len(),
{
    reveal(Seq::filter);
    if rows.len() > 0 {
        assert(forall|i: int|
            0 <= i < rows.drop_last().len() ==> valid_model(#[trigger] rows.drop_last()[i]));
        lemma_rows_of_data_type_valid(rows.drop_last(), d);
        let prev = rows_of_data_type(rows.drop_last(), d);
        let cur = rows_of_data_type(rows, d);
        if rows.last().1 == d {
            assert(cur == prev.push(rows.last()));
            assert(valid_model(rows.last()));
        } else {
            assert(cur == prev);
        }
    }
}

/// One measured column of a wide-format table: its name and one optional
/// value per row (absent where the source cell was missing or not
/// numeric).
pub struct DataColumn {
    pub name: String,
    pub values: Vec<Option<u64>>,
}

/// The rows one wide column contributes when stacked into long format:
/// for each source row, in order, a `(group, column name, value)` row
/// wherever the column has a value there.
pub open spec fn stacked_col(
    groups: Seq<Seq<char>>,
    name: Seq<char>,
    values: Seq<Option<u64>>,
) -> Seq<RowModel>
    decreases groups.len(),
{
    if groups.len() == 0 {
        Seq::empty()
    } else {
        let rest = stacked_col(groups.drop_last(), name, values);
        let i = groups.len() - 1;
        if i < values.len() && values[i as int] is Some {
            rest.push((groups[i as int], name, values[i as int]->0))
        } else {
            rest
        }
    }
}

/// All rows of the stacked long table, column by column.
pub open spec fn stacked_model(
    groups: Seq<Seq<char>>,
    cols: Seq<(Seq<char>, Seq<Option<u64>>)>,
) -> Seq<RowModel>
    decreases cols.len(),
{
    if cols.len() == 0 {
        Seq::empty()
    } else {
        stacked_model(groups, cols.drop_last()) + stacked_col(
            groups,
            cols.last().0,
            cols.last().1,
        )
    }
}

/// The name and values of each column.
pub open spec fn columns_model(cols: Seq<DataColumn>) -> Seq<(Seq<char>, Seq<Option<u64>>)> {
    cols.map_values(|c: DataColumn| (c.name@, c.values@))
}

/// A cleaned table of observations.
pub struct SampleTable {
    pub rows: Vec<SampleRow>,
}

impl SampleTable {
    /// Every row kept satisfies the entry filter.
    pub open spec fn wf(self) -> bool {
        forall|i: int|
            0 <= i < table_model(self.rows@).len() ==> valid_model(
                #[trigger] table_model(self.rows@)[i],
            )
    }

    pub open spec fn model(self) -> Seq<RowModel> {
        table_model(self.rows@)
    }
}

/// Cleans raw rows into the engine's input table.
pub struct DataProcessor;

impl DataProcessor {
    /// Keep exactly the rows with a finite value and non-empty names, in
    /// their input order.
    pub fn prepare_data(rows: &Vec<SampleRow>) -> (t: SampleTable)
        ensures
            t.model() == filtered_model(table_model(rows@)),
            t.wf(),
    {
        let ghost all = table_model(rows@);
        let mut out: Vec<SampleRow> = Vec::new();
        let mut i: usize = 0;
        proof {
            reveal(Seq::filter);
            assert(all.take(0) =~= Seq::<RowModel>::empty());
            assert(table_model(out@) =~= filtered_model(all.take(0)));
        }
        while i < rows.len()
            invariant
                i <= rows@.len(),
                all == table_model(rows@),
                table_model(out@) == filtered_model(all.take(i as int)),
                forall|k: int|
                    0 <= k < table_model(out@).len() ==> valid_model(
                        #[trigger] table_model(out@)[k],
                    ),
            decreases rows@.len() - i,
        {
            let r = &rows[i];
            let keep = float_is_finite(r.value_bits) && !r.group.as_str().is_empty()
                && !r.data_type.as_str().is_empty();
            let ghost prev_out = table_model(out@);
            if keep {
                out.push(
                    SampleRow {
                        group: r.group.clone(),
                        data_type: r.data_type.clone(),
                        value_bits: r.value_bits,
                    },
                );
            }
            proof {
                reveal(Seq::filter);
                let cur = all.take(i + 1);
                let prev = all.take(i as int);
                assert(cur.drop_last() =~= prev);
                assert(cur.last() == row_model(rows@[i as int]));
                assert(keep == valid_model(row_model(rows@[i as int])));
                if keep {
                    assert(table_model(out@) =~= prev_out.push(row_model(rows@[i as int])));
                    assert(filtered_model(cur) == filtered_model(prev).push(
                        row_model(rows@[i as int]),
                    ));
                } else {
                    assert(table_model(out@) =~= prev_out);
                    assert(filtered_model(cur) == filtered_model(prev));
                }
            }
            i = i + 1;
        }
        proof {
            assert(all.take(rows@.len() as int) =~= all);
        }
        SampleTable { rows: out }
    }
}

impl DataProcessor {
    /// Stack wide-format measured columns into the long `(group, data
    /// type, value)` table: column by column, each present value becomes a
    /// row tagged with its row's group and the column's name, and the
    /// entry filter then drops what the engine rejects.
    pub fn stack_to_long(group_col: &Vec<String>, data_cols: &Vec<DataColumn>) -> (t: SampleTable)
        ensures
            t.model() == filtered_model(
                stacked_model(crate::strorder::views_of(group_col@), columns_model(data_cols@)),
            ),
            t.wf(),
    {
        let ghost groups = crate::strorder::views_of(group_col@);
        let ghost cols = columns_model(data_cols@);
        let mut raw: Vec<SampleRow> = Vec::new();
        let mut c: usize = 0;
        proof {
            assert(cols.take(0) =~= Seq::<(Seq<char>, Seq<Option<u64>>)>::empty());
            assert(table_model(raw@) =~= stacked_model(groups, cols.take(0)));
        }
        while c < data_cols.len()
            invariant
                groups == crate::strorder::views_of(group_col@),
                cols == columns_model(data_cols@),
                c <= data_cols@.len(),
                table_model(raw@) == stacked_model(groups, cols.take(c as int)),
            decreases data_cols@.len() - c,
        {
            let col = &data_cols[c];
            let ghost col_start = table_model(raw@);
            let mut i: usize = 0;
            proof {
                assert(groups.take(0) =~= Seq::<Seq<char>>::empty());
                assert(table_model(raw@) =~= col_start + stacked_col(
                    groups.take(0),
                    col.name@,
                    col.values@,
                ));
            }
            while i < group_col.len()
                invariant
                    groups == crate::strorder::views_of(group_col@),
                    col == data_cols@[c as int],
                    c < data_cols@.len(),
                    i <= group_col@.len(),
                    table_model(raw@) == col_start + stacked_col(
                        groups.take(i as int),
                        col.name@,
                        col.values@,
                    ),
                decreases group_col@.len() - i,
            {
                let ghost prev = table_model(raw@);
                if i < col.values.len() {
                    if let Some(v) = col.values[i] {
                        raw.push(
                            SampleRow {
                                group: group_col[i].clone(),
                                data_type: col.name.clone(),
                                value_bits: v,
                            },
                        );
                    }
                }
                proof {
                    let cur = groups.take(i + 1);
                    assert(cur.drop_last() =~= groups.take(i as int));
                    assert(cur.last() == group_col@[i as int]@);
                    if i < col.values@.len() && col.values@[i as int] is Some {
                        assert(table_model(raw@) =~= prev.push(
                            (group_col@[i as int]@, col.name@, col.values@[i as int]->0),
                        ));
                        assert(stacked_col(cur, col.name@, col.values@) == stacked_col(
                            groups.take(i as int),
                            col.name@,
                            col.values@,
                        ).push((group_col@[i as int]@, col.name@, col.values@[i as int]->0)));
                    } else {
                        assert(stacked_col(cur, col.name@, col.values@) == stacked_col(
                            groups.take(i as int),
                            col.name@,
                            col.values@,
                        ));
                    }
                }
                i = i + 1;
            }
            proof {
                assert(groups.take(group_col@.len() as int) =~= groups);
                let curc = cols.take(c + 1);
                assert(curc.drop_last() =~= cols.take(c as int));
                assert(curc.last() == (col.name@, col.values@));
                assert(stacked_model(groups, curc) == stacked_model(groups, cols.take(c as int))
                    + stacked_col(groups, col.name@, col.values@));
                assert(table_model(raw@) =~= stacked_model(groups, curc));
            }
            c = c + 1;
        }
        proof {
            assert(cols.take(data_cols@.len() as int) =~= cols);
        }
        Self::prepare_data(&raw)
    }
}

impl SampleTable {
    /// The value bits of every row of group `group`, in row order.
    pub fn values_for_group(&self, group: &str) -> (r: Vec<u64>)
        ensures
            r@ == values_of_group(self.model(), group@),
    {
        let ghost all = self.model();
        let mut out: Vec<u64> = Vec::new();
        let mut i: usize = 0;
        proof {
            assert(all.take(0) =~= Seq::<RowModel>::empty());
            assert(out@ =~= values_of_group(all.take(0), group@));
        }
        while i < self.rows.len()
            invariant
                i <= self.rows@.len(),
                all == self.model(),
                out@ == values_of_group(all.take(i as int), group@),
            decreases self.rows@.len() - i,
        {
            let r = &self.rows[i];
            let ghost prev_out = out@;
            if str_eq(r.group.as_str(), group) {
                out.push(r.value_bits);
            }
            proof {
                let cur = all.take(i + 1);
                let prev = all.take(i as int);
                assert(cur.drop_last() =~= prev);
                assert(cur.last() == row_model(self.rows@[i as int]));
                if self.rows@[i as int].group@ == group@ {
                    assert(values_of_group(cur, group@) == values_of_group(prev, group@) + seq![
                        self.rows@[i as int].value_bits,
                    ]);
                    assert(out@ =~= prev_out + seq![self.rows@[i as int].value_bits]);
                } else {
                    assert(values_of_group(cur, group@) == values_of_group(prev, group@));
                }
            }
            i = i + 1;
        }
        proof {
            assert(all.take(self.rows@.len() as int) =~= all);
        }
        out
    }

    /// The value bits of every row of data type `data_type` and group
    /// `group`, in row order.
    pub fn values_for_data_type_and_group(&self, data_type: &str, group: &str) -> (r: Vec<u64>)
        ensures
            r@ == values_of_data_type_and_group(self.model(), data_type@, group@),
    {
        let ghost all = self.model();
        let mut out: Vec<u64> = Vec::new();
        let mut i: usize = 0;
        proof {
            assert(all.take(0) =~= Seq::<RowModel>::empty());
            assert(out@ =~= values_of_data_type_and_group(all.take(0), data_type@, group@));
        }
        while i < self.rows.len()
            invariant
                i <= self.rows@.len(),
                all == self.model(),
                out@ == values_of_data_type_and_group(all.take(i as int), data_type@, group@),
            decreases self.rows@.len() - i,
        {
            let r = &self.rows[i];
            let ghost prev_out = out@;
            if str_eq(r.data_type.as_str(), data_type) && str_eq(r.group.as_str(), group) {
                out.push(r.value_bits);
            }
            proof {
                let cur = all.take(i + 1);
                let prev = all.take(i as int);
                assert(cur.drop_last() =~= prev);
                assert(cur.last() == row_model(self.rows@[i as int]));
                if self.rows@[i as int].data_type@ == data_type@ && self.rows@[i as int].group@
                    == group@ {
                    assert(values_of_data_type_and_group(cur, data_type@, group@)
                        == values_of_data_type_and_group(prev, data_type@, group@) + seq![
                        self.rows@[i as int].value_bits,
                    ]);
                    assert(out@ =~= prev_out + seq![self.rows@[i as int].value_bits]);
                } else {
                    assert(values_of_data_type_and_group(cur, data_type@, group@)
                        == values_of_data_type_and_group(prev, data_type@, group@));
                }
            }
            i = i + 1;
        }
        proof {
            assert(all.take(self.rows@.len() as int) =~= all);
        }
        out
    }

    /// The sub-table holding exactly the rows of data type `data_type`, in
    /// row order.
    pub fn filter_by_data_type(&self, data_type: &str) -> (t: SampleTable)
        ensures
            t.model() == rows_of_data_type(self.model(), data_type@),
            self.wf() ==> t.wf(),
    {
        let ghost all = self.model();
        let mut out: Vec<SampleRow> = Vec::new();
        let mut i: usize = 0;
        proof {
            reveal(Seq::filter);
            assert(all.take(0) =~= Seq::<RowModel>::empty());
            assert(table_model(out@) =~= rows_of_data_type(all.take(0), data_type@));
        }
        while i < self.rows.len()
            invariant
                i <= self.rows@.len(),
                all == self.model(),
                table_model(out@) == rows_of_data_type(all.take(i as int), data_type@),
            decreases self.rows@.len() - i,
        {
            let r = &self.rows[i];
            let ghost prev_out = table_model(out@);
            if str_eq(r.data_type.as_str(), data_type) {
                out.push(
                    SampleRow {
                        group: r.group.clone(),
                        data_type: r.data_type.clone(),
                        value_bits: r.value_bits,
                    },
                );
            }
            proof {
                reveal(Seq::filter);
                let cur = all.take(i + 1);
                let prev = all.take(i as int);
                assert(cur.drop_last() =~= prev);
                assert(cur.last() == row_model(self.rows@[i as int]));
                if self.rows@[i as int].data_type@ == data_type@ {
                    assert(table_model(out@) =~= prev_out.push(row_model(self.rows@[i as int])));
                    assert(rows_of_data_type(cur, data_type@) == rows_of_data_type(
                        prev,
                        data_type@,
                    ).push(row_model(self.rows@[i as int])));
                } else {
                    assert(table_model(out@) =~= prev_out);
                    assert(rows_of_data_type(cur, data_type@) == rows_of_data_type(
                        prev,
                        data_type@,
                    ));
                }
            }
            i = i + 1;
        }
        proof {
            assert(all.take(self.rows@.len() as int) =~= all);
            if self.wf() {
                lemma_rows_of_data_type_valid(all, data_type@);
            }
        }
        SampleTable { rows: out }
    }
}

impl DataProcessor {
    /// The distinct data-type names of the table, in code-point order.
    pub fn get_data_types(df: &SampleTable) -> (r: Vec<String>)
        ensures
            lex_sorted(views_of(r@)),
            views_of(r@).no_duplicates(),
            forall|s: Seq<char>| #[trigger] contains_view(r@, s) == (exists|i: int|
                0 <= i < df.model().len() && (#[trigger] df.model()[i]).1 == s),
    {
        df.unique_data_types()
    }

    /// The distinct group names of the table, in code-point order.
    pub fn get_groups(df: &SampleTable) -> (r: Vec<String>)
        ensures
            lex_sorted(views_of(r@)),
            views_of(r@).no_duplicates(),
            forall|s: Seq<char>| #[trigger] contains_view(r@, s) == (exists|i: int|
                0 <= i < df.model().len() && (#[trigger] df.model()[i]).0 == s),
    {
        df.unique_groups()
    }

    /// The sub-table of one data type's rows, in row order.
    pub fn filter_by_data_type(df: &SampleTable, data_type: &str) -> (t: SampleTable)
        ensures
            t.model() == rows_of_data_type(df.model(), data_type@),
            df.wf() ==> t.wf(),
    {
        df.filter_by_data_type(data_type)
    }
}

impl SampleTable {
    /// The distinct group names of the table, in code-point order.
    pub fn unique_groups(&self) -> (r: Vec<String>)
        ensures
            lex_sorted(views_of(r@)),
            views_of(r@).no_duplicates(),
            forall|s: Seq<char>| #[trigger] contains_view(r@, s) == (exists|i: int|
                0 <= i < self.model().len() && (#[trigger] self.model()[i]).0 == s),
    {
        let mut names: Vec<String> = Vec::new();
        let mut i: usize = 0;
        while i < self.rows.len()
            invariant
                i <= self.rows@.len(),
                names@.len() == i,
                forall|j: int| 0 <= j < i ==> #[trigger] names@[j]@ == self.model()[j].0,
            decreases self.rows@.len() - i,
        {
            names.push(self.rows[i].group.clone());
            i = i + 1;
        }
        let r = dedup_sort(names);
        proof {
            assert forall|s: Seq<char>| #[trigger] contains_view(r@, s) == (exists|i: int|
                0 <= i < self.model().len() && (#[trigger] self.model()[i]).0 == s) by {
                if contains_view(r@, s) {
                    let j = choose|j: int| 0 <= j < names@.len() && #[trigger] names@[j]@ == s;
                    assert(self.model()[j].0 == s);
                }
                if exists|i: int|
                    0 <= i < self.model().len() && (#[trigger] self.model()[i]).0 == s {
                    let j = choose|j: int|
                        0 <= j < self.model().len() && (#[trigger] self.model()[j]).0 == s;
                    assert(names@[j]@ == s);
                    assert(contains_view(names@, s));
                }
            }
        }
        r
    }

    /// The distinct data-type names of the table, in code-point order.
    pub fn unique_data_types(&self) -> (r: Vec<String>)
        ensures
            lex_sorted(views_of(r@)),
            views_of(r@).no_duplicates(),
            forall|s: Seq<char>| #[trigger] contains_view(r@, s) == (exists|i: int|
                0 <= i < self.model().len() && (#[trigger] self.model()[i]).1 == s),
    {
        let mut names: Vec<String> = Vec::new();
        let mut i: usize = 0;
        while i < self.rows.len()
            invariant
                i <= self.rows@.len(),
                names@.len() == i,
                forall|j: int| 0 <= j < i ==> #[trigger] names@[j]@ == self.model()[j].1,
            decreases self.rows@.len() - i,
        {
            names.push(self.rows[i].data_type.clone());
            i = i + 1;
        }
        let r = dedup_sort(names);
        proof {
            assert forall|s: Seq<char>| #[trigger] contains_view(r@, s) == (exists|i: int|
                0 <= i < self.model().len() && (#[trigger] self.model()[i]).1 == s) by {
                if contains_view(r@, s) {
                    let j = choose|j: int| 0 <= j < names@.len() && #[trigger] names@[j]@ == s;
                    assert(self.model()[j].1 == s);
                }
                if exists|i: int|
                    0 <= i < self.model().len() && (#[trigger] self.model()[i]).1 == s {
                    let j = choose|j: int|
                        0 <= j < self.model().len() && (#[trigger] self.model()[j]).1 == s;
                    assert(names@[j]@ == s);
                    assert(contains_view(names@, s));
                }
            }
        }
        r
    }
}

} // verus!
