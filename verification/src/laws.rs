//! What holds of projection and rendering for every schema, row and group.

use vstd::prelude::*;
use vstd::seq_lib::lemma_flatten_concat;
use crate::error::ErrorView;
use crate::projector::{
    columns_plan, fetch, is_shown, is_undeclared, leftover_fields, project_plan, projection_plan,
    resolved, text_columns, PlanView,
};
use crate::record::{RecordView, RowView};
use crate::registry::{column_names, table_spec};
use crate::render::{project_rows, render, settled_groups, ProjectionView};
use crate::schema::{source_name, SchemaView};
use crate::value::{coerce, RenderedView, ValueKind};

verus! {

/// The keys of a record, in order.
pub open spec fn record_keys(record: RecordView) -> Seq<Seq<char>> {
    Seq::new(record.len(), |i: int| record[i].0)
}

/// Whether every attribute that a plan reads and the row holds is of the
/// kind that the plan asks for.
pub open spec fn kinds_agree(plan: PlanView, row: RowView) -> bool {
    forall|i: int|
        0 <= i < plan.len() && row.contains_key(#[trigger] plan[i].0) ==> coerce(
            plan[i].1,
            row[plan[i].0],
        ) is Some
}

/// A filter that every element passes keeps the sequence as it is.
proof fn lemma_filter_keeps_all<A>(s: Seq<A>, pred: spec_fn(A) -> bool)
    requires
        forall|i: int| 0 <= i < s.len() ==> pred(#[trigger] s[i]),
    ensures
        s.filter(pred) == s,
    decreases s.len(),
{
    reveal(Seq::filter);
    if s.len() > 0 {
        lemma_filter_keeps_all(s.drop_last(), pred);
        assert(s.drop_last().push(s.last()) =~= s);
    }
}

/// A filter that no element passes leaves nothing.
proof fn lemma_filter_keeps_none<A>(s: Seq<A>, pred: spec_fn(A) -> bool)
    requires
        forall|i: int| 0 <= i < s.len() ==> !pred(#[trigger] s[i]),
    ensures
        s.filter(pred) == Seq::<A>::empty(),
    decreases s.len(),
{
    reveal(Seq::filter);
    if s.len() > 0 {
        lemma_filter_keeps_none(s.drop_last(), pred);
    }
}

/// The outcome of projecting a plan, entry by entry: a record has one column
/// per entry of the plan, under the entry's name and with the fetched value;
/// a failure is that of the first entry whose fetch fails.
pub proof fn lemma_project_outcome(plan: PlanView, row: RowView)
    ensures
        match project_plan(plan, row) {
            Ok(record) => {
                &&& record.len() == plan.len()
                &&& forall|i: int|
                    0 <= i < plan.len() ==> (#[trigger] record[i]).0 == plan[i].0 && fetch(
                        row,
                        plan[i].0,
                        plan[i].1,
                    ) == Ok::<RenderedView, ErrorView>(record[i].1)
            },
            Err(error) => exists|i: int|
                {
                    &&& 0 <= i < plan.len()
                    &&& #[trigger] fetch(row, plan[i].0, plan[i].1) == Err::<RenderedView, ErrorView>(error)
                    &&& forall|j: int|
                        0 <= j < i ==> (#[trigger] fetch(row, plan[j].0, plan[j].1)) is Ok
                },
        },
    decreases plan.len(),
{
    if plan.len() > 0 {
        let head = plan.drop_last();
        let last = plan.last();
        lemma_project_outcome(head, row);
        match project_plan(head, row) {
            Ok(record) => {
                assert forall|j: int| 0 <= j < head.len() implies (#[trigger] fetch(
                    row,
                    plan[j].0,
                    plan[j].1,
                )) is Ok by {
                    assert(record[j].0 == head[j].0);
                }
                match fetch(row, last.0, last.1) {
                    Ok(value) => {
                        let whole = record.push((last.0, value));
                        assert forall|i: int| 0 <= i < plan.len() implies (#[trigger] whole[i]).0
                            == plan[i].0 && fetch(row, plan[i].0, plan[i].1) == Ok::<RenderedView, ErrorView>(
                            whole[i].1,
                        ) by {
                            if i < head.len() {
                                assert(record[i].0 == head[i].0);
                            }
                        }
                    },
                    Err(error) => {
                        let i = plan.len() - 1;
                        assert(fetch(row, plan[i].0, plan[i].1) == Err::<RenderedView, ErrorView>(error));
                    },
                }
            },
            Err(error) => {
                let i = choose|i: int|
                    {
                        &&& 0 <= i < head.len()
                        &&& #[trigger] fetch(row, head[i].0, head[i].1) == Err::<RenderedView, ErrorView>(
                            error,
                        )
                        &&& forall|j: int|
                            0 <= j < i ==> (#[trigger] fetch(row, head[j].0, head[j].1)) is Ok
                    };
                assert(fetch(row, plan[i].0, plan[i].1) == Err::<RenderedView, ErrorView>(error));
                assert forall|j: int| 0 <= j < i implies (#[trigger] fetch(
                    row,
                    plan[j].0,
                    plan[j].1,
                )) is Ok by {
                    assert(fetch(row, head[j].0, head[j].1) is Ok);
                }
            },
        }
    }
}

/// The names of the attributes that a list of columns reads from, in order.
pub open spec fn column_sources(schema: SchemaView, names: Seq<Seq<char>>) -> Seq<Seq<char>> {
    Seq::new(names.len(), |i: int| source_name(schema.alias_map, names[i]))
}

/// Declared order. For a known table, a query that requests exactly the
/// table's columns, and a row that holds, for every column, the attribute
/// that the column reads from, with a value of the column's kind: the
/// record has one key per column, in the table's order, and the key is the
/// name of the attribute read. Where no column has an alias, the keys are
/// the table's column names.
pub proof fn law_declared_order(schema: SchemaView, row: RowView)
    requires
        table_spec(schema.table_name) is Some,
        schema.requested_fields == column_names(table_spec(schema.table_name)->0),
        forall|i: int|
            #![trigger table_spec(schema.table_name)->0[i]]
            0 <= i < table_spec(schema.table_name)->0.len() ==> {
                let column = table_spec(schema.table_name)->0[i];
                let source = source_name(schema.alias_map, column.0);
                row.contains_key(source) && coerce(column.1, row[source]) is Some
            },
    ensures
        project_plan(projection_plan(schema, Seq::empty()), row) is Ok,
        record_keys(project_plan(projection_plan(schema, Seq::empty()), row)->Ok_0)
            == column_sources(schema, schema.requested_fields),
        (forall|i: int|
            0 <= i < schema.requested_fields.len() ==> !schema.alias_map.contains_key(
                #[trigger] schema.requested_fields[i],
            )) ==> record_keys(project_plan(projection_plan(schema, Seq::empty()), row)->Ok_0)
            == schema.requested_fields,
{
    let columns = table_spec(schema.table_name)->0;
    let hidden = Seq::<Seq<char>>::empty();
    let names = column_names(columns);
    let sources = column_sources(schema, names);
    assert forall|i: int| 0 <= i < columns.len() implies is_shown(schema, hidden)(
        #[trigger] columns[i],
    ) by {
        assert(names[i] == columns[i].0);
    }
    lemma_filter_keeps_all(columns, is_shown(schema, hidden));
    assert forall|i: int| 0 <= i < names.len() implies !is_undeclared(columns)(
        #[trigger] names[i],
    ) by {}
    lemma_filter_keeps_none(names, is_undeclared(columns));
    assert(leftover_fields(columns, schema) == Seq::<Seq<char>>::empty());
    assert(text_columns(Seq::<Seq<char>>::empty()) =~= Seq::<(Seq<char>, ValueKind)>::empty());
    lemma_filter_keeps_none(
        Seq::<(Seq<char>, ValueKind)>::empty(),
        is_shown(schema, hidden),
    );
    assert(columns_plan(Seq::<(Seq<char>, ValueKind)>::empty(), schema, hidden) =~= Seq::<
        (Seq<char>, ValueKind),
    >::empty());
    let plan = projection_plan(schema, hidden);
    assert(plan =~= columns.map_values(resolved(schema)));
    lemma_project_outcome(plan, row);
    match project_plan(plan, row) {
        Ok(record) => {
            assert(record_keys(record) =~= sources) by {
                assert forall|i: int| 0 <= i < plan.len() implies record_keys(record)[i]
                    == sources[i] by {
                    assert(record[i].0 == plan[i].0);
                    assert(names[i] == columns[i].0);
                }
            }
            if forall|i: int|
                0 <= i < names.len() ==> !schema.alias_map.contains_key(#[trigger] names[i]) {
                assert(sources =~= names);
            }
        },
        Err(error) => {
            let i = choose|i: int|
                0 <= i < plan.len() && #[trigger] fetch(row, plan[i].0, plan[i].1) == Err::<
                    RenderedView,
                    ErrorView,
                >(error);
            let column = columns[i];
            assert(row.contains_key(source_name(schema.alias_map, column.0)));
            assert(false);
        },
    }
}

/// Missing keys are never passed over. For a known table, a column that the
/// query shows and a row without the attribute that the column reads from:
/// the projection of the row fails.
pub proof fn law_missing_key_fails(
    schema: SchemaView,
    hidden: Seq<Seq<char>>,
    row: RowView,
    column: int,
)
    requires
        table_spec(schema.table_name) is Some,
        0 <= column < table_spec(schema.table_name)->0.len(),
        is_shown(schema, hidden)(table_spec(schema.table_name)->0[column]),
        !row.contains_key(
            source_name(schema.alias_map, table_spec(schema.table_name)->0[column].0),
        ),
    ensures
        project_plan(projection_plan(schema, hidden), row) is Err,
{
    let columns = table_spec(schema.table_name)->0;
    let shown = columns.filter(is_shown(schema, hidden));
    columns.lemma_filter_contains(is_shown(schema, hidden), column);
    let k = choose|k: int| 0 <= k < shown.len() && shown[k] == columns[column];
    let declared = columns_plan(columns, schema, hidden);
    let plan = projection_plan(schema, hidden);
    assert(plan[k] == declared[k]);
    assert(declared[k] == resolved(schema)(shown[k]));
    lemma_project_outcome(plan, row);
    if project_plan(plan, row) is Ok {
        let record = project_plan(plan, row)->Ok_0;
        assert(record[k].0 == plan[k].0);
        assert(fetch(row, plan[k].0, plan[k].1) is Ok);
        assert(false);
    }
}

/// A missing key is reported as such. Under the conditions of
/// [`law_missing_key_fails`], and where every attribute that the plan reads
/// and the row holds is of the kind asked for: the failure is
/// `MissingAttribute`, and it names an attribute that the row does not hold.
pub proof fn law_missing_key_reported(
    schema: SchemaView,
    hidden: Seq<Seq<char>>,
    row: RowView,
    column: int,
)
    requires
        table_spec(schema.table_name) is Some,
        0 <= column < table_spec(schema.table_name)->0.len(),
        is_shown(schema, hidden)(table_spec(schema.table_name)->0[column]),
        !row.contains_key(
            source_name(schema.alias_map, table_spec(schema.table_name)->0[column].0),
        ),
        kinds_agree(projection_plan(schema, hidden), row),
    ensures
        project_plan(projection_plan(schema, hidden), row) matches Err(
            ErrorView::MissingAttribute(name),
        ) && !row.contains_key(name),
{
    law_missing_key_fails(schema, hidden, row, column);
    let plan = projection_plan(schema, hidden);
    lemma_project_outcome(plan, row);
    let error = project_plan(plan, row)->Err_0;
    let i = choose|i: int|
        0 <= i < plan.len() && #[trigger] fetch(row, plan[i].0, plan[i].1) == Err::<RenderedView, ErrorView>(
            error,
        );
    if row.contains_key(plan[i].0) {
        assert(coerce(plan[i].1, row[plan[i].0]) is Some);
    }
}

/// One record per row. The records of a list of rows are as many as the
/// rows and stand in their order, each the record of its row; a failure is
/// that of the first row whose projection fails.
pub proof fn lemma_project_rows_outcome(plan: PlanView, rows: Seq<RowView>)
    ensures
        match project_rows(plan, rows) {
            Ok(records) => {
                &&& records.len() == rows.len()
                &&& forall|i: int|
                    0 <= i < rows.len() ==> project_plan(plan, rows[i]) == Ok::<
                        RecordView,
                        ErrorView,
                    >(#[trigger] records[i])
            },
            Err(error) => exists|i: int|
                {
                    &&& 0 <= i < rows.len()
                    &&& #[trigger] project_plan(plan, rows[i]) == Err::<RecordView, ErrorView>(
                        error,
                    )
                    &&& forall|j: int| 0 <= j < i ==> (#[trigger] project_plan(plan, rows[j])) is Ok
                },
        },
    decreases rows.len(),
{
    if rows.len() > 0 {
        let head = rows.drop_last();
        lemma_project_rows_outcome(plan, head);
        match project_rows(plan, head) {
            Ok(records) => {
                assert forall|j: int| 0 <= j < head.len() implies (#[trigger] project_plan(
                    plan,
                    rows[j],
                )) is Ok by {
                    assert(project_plan(plan, head[j]) == Ok::<RecordView, ErrorView>(records[j]));
                }
                match project_plan(plan, rows.last()) {
                    Ok(record) => {
                        let whole = records.push(record);
                        assert forall|i: int| 0 <= i < rows.len() implies project_plan(
                            plan,
                            rows[i],
                        ) == Ok::<RecordView, ErrorView>(#[trigger] whole[i]) by {
                            if i < head.len() {
                                assert(project_plan(plan, head[i]) == Ok::<RecordView, ErrorView>(
                                    records[i],
                                ));
                            }
                        }
                    },
                    Err(error) => {
                        let i = rows.len() - 1;
                        assert(project_plan(plan, rows[i]) == Err::<RecordView, ErrorView>(error));
                    },
                }
            },
            Err(error) => {
                let i = choose|i: int|
                    {
                        &&& 0 <= i < head.len()
                        &&& #[trigger] project_plan(plan, head[i]) == Err::<RecordView, ErrorView>(
                            error,
                        )
                        &&& forall|j: int|
                            0 <= j < i ==> (#[trigger] project_plan(plan, head[j])) is Ok
                    };
                assert(project_plan(plan, rows[i]) == Err::<RecordView, ErrorView>(error));
                assert forall|j: int| 0 <= j < i implies (#[trigger] project_plan(
                    plan,
                    rows[j],
                )) is Ok by {
                    assert(project_plan(plan, head[j]) is Ok);
                }
            },
        }
    }
}

/// Flattening keeps the order of the groups and of the rows in each: the
/// rows of two lists of groups, one after the other, are the rows of the
/// first list followed by the rows of the second.
pub proof fn law_flattening_keeps_order(first: Seq<Seq<RowView>>, second: Seq<Seq<RowView>>)
    ensures
        (first + second).flatten() == first.flatten() + second.flatten(),
{
    lemma_flatten_concat(first, second);
}

/// Flattening does not change the output: rendering groups gives what
/// rendering the one group of all their rows gives.
pub proof fn law_flattening_preserves_output(
    schema: SchemaView,
    hidden: Seq<Seq<char>>,
    groups: Seq<Seq<RowView>>,
)
    ensures
        render(schema, hidden, groups) == render(schema, hidden, seq![groups.flatten()]),
{
    seq![groups.flatten()].lemma_flatten_singleton();
}

/// Rendering again gives the same output: what a rendering leaves of the
/// groups renders to what the groups rendered to, and settling groups that
/// are settled changes nothing.
pub proof fn law_rendering_is_repeatable(
    schema: SchemaView,
    hidden: Seq<Seq<char>>,
    groups: Seq<Seq<RowView>>,
)
    ensures
        render(schema, hidden, settled_groups(groups)) == render(schema, hidden, groups),
        settled_groups(settled_groups(groups)) == settled_groups(groups),
{
    law_flattening_preserves_output(schema, hidden, groups);
}

/// The output is the empty marker exactly where the groups hold no row;
/// that is never a failure.
pub proof fn law_empty_input(schema: SchemaView, hidden: Seq<Seq<char>>, groups: Seq<Seq<RowView>>)
    ensures
        groups.flatten().len() == 0 <==> render(schema, hidden, groups) == Ok::<
            ProjectionView,
            ErrorView,
        >(ProjectionView::Empty),
        groups.len() == 0 ==> groups.flatten().len() == 0,
        groups.len() == 1 && groups[0].len() == 0 ==> groups.flatten().len() == 0,
{
    if groups.len() == 1 {
        groups.lemma_flatten_singleton();
    }
}

} // verus!
