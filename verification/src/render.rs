//! Assembly of the output of a query from the groups of rows that its
//! evaluation produced.

use vstd::prelude::*;
use crate::error::{ErrorView, ProjectionError};
use crate::flatten::{flat_gql_groups, lemma_flatten_views};
use crate::projector::{project_plan, project_row, projection_plan, PlanView};
use crate::record::{groups_view, records_view, rows_view, OutputRecord, RecordView, Row, RowView};
use crate::schema::{SchemaView, StatementSchema};
use crate::statement::{infos_view, select_schema, selected_schema, StatementInfo};
use crate::text::names_view;

verus! {

/// The output of a query: the marker of an empty result, or the records of
/// its rows, in order.
#[derive(Clone, Debug, PartialEq, Eq)]
pub enum Projection {
    Empty,
    Records(Vec<OutputRecord>),
}

/// Mathematical model of a [`Projection`].
pub enum ProjectionView {
    Empty,
    Records(Seq<RecordView>),
}

impl View for Projection {
    type V = ProjectionView;

    open spec fn view(&self) -> ProjectionView {
        match self {
            Projection::Empty => ProjectionView::Empty,
            Projection::Records(records) => ProjectionView::Records(records_view(records@)),
        }
    }
}

/// The records that a plan makes of a list of rows: one per row, in order.
/// Where a row fails, the result is the failure of the first row that fails.
pub open spec fn project_rows(plan: PlanView, rows: Seq<RowView>) -> Result<
    Seq<RecordView>,
    ErrorView,
>
    decreases rows.len(),
{
    if rows.len() == 0 {
        Ok(Seq::empty())
    } else {
        match project_rows(plan, rows.drop_last()) {
            Err(error) => Err(error),
            Ok(head) => match project_plan(plan, rows.last()) {
                Err(error) => Err(error),
                Ok(record) => Ok(head.push(record)),
            },
        }
    }
}

/// The output of a query with the given schema on the given groups of rows:
/// the groups are taken as one sequence of rows, group after group. Without
/// any row the output is the empty marker; else it is the records of the
/// rows, or the failure of the first row that fails.
pub open spec fn render(schema: SchemaView, hidden: Seq<Seq<char>>, groups: Seq<Seq<RowView>>)
    -> Result<ProjectionView, ErrorView> {
    let rows = groups.flatten();
    if rows.len() == 0 {
        Ok(ProjectionView::Empty)
    } else {
        match project_rows(projection_plan(schema, hidden), rows) {
            Ok(records) => Ok(ProjectionView::Records(records)),
            Err(error) => Err(error),
        }
    }
}

/// The groups as rendering leaves them: several groups become one group
/// that holds the rows of all; one group or none stay as they are.
pub open spec fn settled_groups(groups: Seq<Seq<RowView>>) -> Seq<Seq<RowView>> {
    if groups.len() > 1 {
        seq![groups.flatten()]
    } else {
        groups
    }
}

/// Projecting a list of rows with one more row.
pub proof fn lemma_project_rows_push(plan: PlanView, rows: Seq<RowView>, row: RowView)
    ensures
        project_rows(plan, rows.push(row)) == match project_rows(plan, rows) {
            Err(error) => Err(error),
            Ok(head) => match project_plan(plan, row) {
                Err(error) => Err(error),
                Ok(record) => Ok(head.push(record)),
            },
        },
{
    assert(rows.push(row).drop_last() =~= rows);
    assert(rows.push(row).last() == row);
}

/// A list of rows whose beginning fails under a plan fails in the same way.
pub proof fn lemma_project_rows_prefix_error(plan: PlanView, head: Seq<RowView>, tail: Seq<RowView>)
    requires
        project_rows(plan, head) is Err,
    ensures
        project_rows(plan, head + tail) == project_rows(plan, head),
    decreases tail.len(),
{
    if tail.len() == 0 {
        assert(head + tail =~= head);
    } else {
        lemma_project_rows_prefix_error(plan, head, tail.drop_last());
        assert(head + tail =~= (head + tail.drop_last()).push(tail.last()));
        lemma_project_rows_push(plan, head + tail.drop_last(), tail.last());
    }
}

/// Projects every row of a group, in order.
pub fn project_group(schema: &StatementSchema, rows: &Vec<Row>, hidden: &Vec<String>) -> (projected:
    Result<Vec<OutputRecord>, ProjectionError>)
    ensures
        match projected {
            Ok(records) => project_rows(
                projection_plan(schema@, names_view(hidden@)),
                rows_view(rows@),
            ) == Ok::<Seq<RecordView>, ErrorView>(records_view(records@)),
            Err(error) => project_rows(
                projection_plan(schema@, names_view(hidden@)),
                rows_view(rows@),
            ) == Err::<Seq<RecordView>, ErrorView>(error@),
        },
{
    let ghost plan = projection_plan(schema@, names_view(hidden@));
    let ghost all = rows_view(rows@);
    let mut records: Vec<OutputRecord> = Vec::new();
    let n = rows.len();
    let mut i: usize = 0;
    proof {
        assert(all.take(0) =~= Seq::<RowView>::empty());
        assert(records_view(records@) =~= Seq::<RecordView>::empty());
    }
    while i < n
        invariant
            i <= n,
            n == rows@.len(),
            all == rows_view(rows@),
            plan == projection_plan(schema@, names_view(hidden@)),
            project_rows(plan, all.take(i as int)) == Ok::<Seq<RecordView>, ErrorView>(
                records_view(records@),
            ),
        decreases n - i,
    {
        proof {
            assert(all.take(i as int + 1) =~= all.take(i as int).push(rows@[i as int]@));
            lemma_project_rows_push(plan, all.take(i as int), rows@[i as int]@);
        }
        match project_row(schema, &rows[i], hidden) {
            Ok(record) => {
                let ghost before = records_view(records@);
                records.push(record);
                assert(records_view(records@) =~= before.push(record@));
            },
            Err(error) => {
                proof {
                    assert(all =~= all.take(i as int + 1) + all.skip(i as int + 1));
                    lemma_project_rows_prefix_error(
                        plan,
                        all.take(i as int + 1),
                        all.skip(i as int + 1),
                    );
                }
                return Err(error);
            },
        }
        i += 1;
    }
    proof {
        assert(all.take(n as int) =~= all);
    }
    Ok(records)
}

/// Renders the result of a query. `groups` is what the evaluation produced,
/// `hidden_selections` names the attributes that records do not show, and
/// `stmt_info` is what was recorded of the query's statements.
///
/// Several groups are first collapsed into one, in place. The output is the
/// empty marker if there is no row at all, and else one record per row.
pub fn render_objects(
    groups: &mut Vec<Vec<Row>>,
    hidden_selections: &Vec<String>,
    stmt_info: Vec<StatementInfo>,
) -> (output: Result<Projection, ProjectionError>)
    ensures
        match output {
            Ok(projection) => render(
                selected_schema(infos_view(stmt_info@)),
                names_view(hidden_selections@),
                groups_view(old(groups)@),
            ) == Ok::<ProjectionView, ErrorView>(projection@),
            Err(error) => render(
                selected_schema(infos_view(stmt_info@)),
                names_view(hidden_selections@),
                groups_view(old(groups)@),
            ) == Err::<ProjectionView, ErrorView>(error@),
        },
        groups_view(final(groups)@) == settled_groups(groups_view(old(groups)@)),
{
    let schema = select_schema(stmt_info);
    let ghost before = groups_view(groups@);
    if groups.len() > 1 {
        proof {
            lemma_flatten_views(groups@);
        }
        flat_gql_groups(groups);
        proof {
            assert(groups_view(groups@) =~= seq![before.flatten()]);
        }
    }
    if groups.is_empty() {
        return Ok(Projection::Empty);
    }
    proof {
        assert(groups_view(groups@).len() == 1);
        groups_view(groups@).lemma_flatten_singleton();
        assert(groups_view(groups@)[0] == rows_view(groups@[0]@));
        assert(before.flatten() == rows_view(groups@[0]@));
    }
    if groups[0].is_empty() {
        return Ok(Projection::Empty);
    }
    match project_group(&schema, &groups[0], hidden_selections) {
        Ok(records) => Ok(Projection::Records(records)),
        Err(error) => Err(error),
    }
}

/// Renders the result of a query of which no attribute is hidden.
pub fn render_objects2(groups: &mut Vec<Vec<Row>>, stmt_info: Vec<StatementInfo>) -> (output:
    Result<Projection, ProjectionError>)
    ensures
        match output {
            Ok(projection) => render(
                selected_schema(infos_view(stmt_info@)),
                Seq::empty(),
                groups_view(old(groups)@),
            ) == Ok::<ProjectionView, ErrorView>(projection@),
            Err(error) => render(
                selected_schema(infos_view(stmt_info@)),
                Seq::empty(),
                groups_view(old(groups)@),
            ) == Err::<ProjectionView, ErrorView>(error@),
        },
        groups_view(final(groups)@) == settled_groups(groups_view(old(groups)@)),
{
    let hidden: Vec<String> = Vec::new();
    proof {
        assert(names_view(hidden@) =~= Seq::<Seq<char>>::empty());
    }
    render_objects(groups, &hidden, stmt_info)
}

} // verus!
