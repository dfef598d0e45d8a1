//! Projection of one row: which attributes a query's records show, in which
//! order, and how each is fetched from a row and coerced.

use vstd::prelude::*;
use crate::error::{ErrorView, ProjectionError};
use crate::record::{OutputRecord, RecordView, Row, RowView};
use crate::registry::{column_names, lookup_table, table_spec, ColumnsView, TableColumnSpec};
use crate::schema::{source_name, SchemaView, StatementSchema};
use crate::text::{contains_name, names_view};
use crate::value::{coerce, RenderedValue, RenderedView, ValueKind};

verus! {

/// A projection plan: the attributes to fetch from a row, in output order,
/// each with the kind to coerce it to. The attribute's name is also the key
/// under which the value appears in the record.
pub type PlanView = Seq<(Seq<char>, ValueKind)>;

/// Whether a column is shown: the query requested it, and the attribute it
/// reads from is not hidden.
pub open spec fn is_shown(schema: SchemaView, hidden: Seq<Seq<char>>) -> spec_fn(
    (Seq<char>, ValueKind),
) -> bool {
    |column: (Seq<char>, ValueKind)|
        schema.requested_fields.contains(column.0) && !hidden.contains(
            source_name(schema.alias_map, column.0),
        )
}

/// A column with its name replaced by the name of the attribute it reads
/// from.
pub open spec fn resolved(schema: SchemaView) -> spec_fn((Seq<char>, ValueKind)) -> (
    Seq<char>,
    ValueKind,
) {
    |column: (Seq<char>, ValueKind)| (source_name(schema.alias_map, column.0), column.1)
}

/// The plan for a list of columns: the shown ones, in order, each resolved
/// to its source attribute.
pub open spec fn columns_plan(
    columns: ColumnsView,
    schema: SchemaView,
    hidden: Seq<Seq<char>>,
) -> PlanView {
    columns.filter(is_shown(schema, hidden)).map_values(resolved(schema))
}

/// Whether a field is not among the given columns.
pub open spec fn is_undeclared(columns: ColumnsView) -> spec_fn(Seq<char>) -> bool {
    |field: Seq<char>| !column_names(columns).contains(field)
}

/// Each field as a text column.
pub open spec fn text_columns(fields: Seq<Seq<char>>) -> ColumnsView {
    Seq::new(fields.len(), |i: int| (fields[i], ValueKind::Text))
}

/// The requested fields that the table does not declare, in the order of
/// the request.
pub open spec fn leftover_fields(columns: ColumnsView, schema: SchemaView) -> Seq<Seq<char>> {
    schema.requested_fields.filter(is_undeclared(columns))
}

/// Whether a column's own name is not hidden.
pub open spec fn is_visible(hidden: Seq<Seq<char>>) -> spec_fn((Seq<char>, ValueKind)) -> bool {
    |column: (Seq<char>, ValueKind)| !hidden.contains(column.0)
}

/// The plan for a table that is not known: every requested field, in order,
/// read as text from the attribute of its own name.
pub open spec fn passthrough_plan(schema: SchemaView, hidden: Seq<Seq<char>>) -> PlanView {
    text_columns(schema.requested_fields).filter(is_visible(hidden))
}

/// The plan of a query. For a known table: the table's columns that the
/// query shows, in the table's order, then the requested fields that the
/// table does not declare, as text, in the order of the request. For any
/// other table name: the requested fields passed through.
pub open spec fn projection_plan(schema: SchemaView, hidden: Seq<Seq<char>>) -> PlanView {
    match table_spec(schema.table_name) {
        Some(columns) => columns_plan(columns, schema, hidden) + columns_plan(
            text_columns(leftover_fields(columns, schema)),
            schema,
            hidden,
        ),
        None => passthrough_plan(schema, hidden),
    }
}

/// Fetching an attribute from a row and coercing it to a kind. A row
/// without the attribute gives `MissingAttribute`; a value of another kind
/// gives `TypeMismatch`; both name the attribute.
pub open spec fn fetch(row: RowView, source: Seq<char>, kind: ValueKind) -> Result<
    RenderedView,
    ErrorView,
> {
    if !row.contains_key(source) {
        Err(ErrorView::MissingAttribute(source))
    } else {
        match coerce(kind, row[source]) {
            Some(value) => Ok(value),
            None => Err(ErrorView::TypeMismatch(source)),
        }
    }
}

/// The record that a plan makes of a row: one column per entry of the plan,
/// in order. Where a fetch fails, the result is the failure of the first
/// entry that fails.
pub open spec fn project_plan(plan: PlanView, row: RowView) -> Result<RecordView, ErrorView>
    decreases plan.len(),
{
    if plan.len() == 0 {
        Ok(Seq::empty())
    } else {
        match project_plan(plan.drop_last(), row) {
            Err(error) => Err(error),
            Ok(head) => match fetch(row, plan.last().0, plan.last().1) {
                Err(error) => Err(error),
                Ok(value) => Ok(head.push((plan.last().0, value))),
            },
        }
    }
}

/// What one column contributes to a record: nothing if the query did not
/// request it, else the fetched value under the name of its source
/// attribute.
pub open spec fn column_record(
    schema: SchemaView,
    row: RowView,
    lookup: Seq<char>,
    kind: ValueKind,
) -> Result<Option<(Seq<char>, RenderedView)>, ErrorView> {
    if !schema.requested_fields.contains(lookup) {
        Ok(None)
    } else {
        let source = source_name(schema.alias_map, lookup);
        match fetch(row, source, kind) {
            Ok(value) => Ok(Some((source, value))),
            Err(error) => Err(error),
        }
    }
}

/// Projecting a plan with one more entry.
pub proof fn lemma_project_push(plan: PlanView, entry: (Seq<char>, ValueKind), row: RowView)
    ensures
        project_plan(plan.push(entry), row) == match project_plan(plan, row) {
            Err(error) => Err(error),
            Ok(head) => match fetch(row, entry.0, entry.1) {
                Err(error) => Err(error),
                Ok(value) => Ok(head.push((entry.0, value))),
            },
        },
{
    assert(plan.push(entry).drop_last() =~= plan);
    assert(plan.push(entry).last() == entry);
}

/// A plan whose beginning fails on a row fails on it in the same way.
pub proof fn lemma_project_prefix_error(head: PlanView, tail: PlanView, row: RowView)
    requires
        project_plan(head, row) is Err,
    ensures
        project_plan(head + tail, row) == project_plan(head, row),
    decreases tail.len(),
{
    if tail.len() == 0 {
        assert(head + tail =~= head);
    } else {
        lemma_project_prefix_error(head, tail.drop_last(), row);
        assert(head + tail =~= (head + tail.drop_last()).push(tail.last()));
        lemma_project_push(head + tail.drop_last(), tail.last(), row);
    }
}

/// The plan of a list of columns with one more column.
pub proof fn lemma_columns_plan_push(
    columns: ColumnsView,
    column: (Seq<char>, ValueKind),
    schema: SchemaView,
    hidden: Seq<Seq<char>>,
)
    ensures
        columns_plan(columns.push(column), schema, hidden) == if is_shown(schema, hidden)(column) {
            columns_plan(columns, schema, hidden).push(resolved(schema)(column))
        } else {
            columns_plan(columns, schema, hidden)
        },
{
    columns.lemma_filter_push(column, is_shown(schema, hidden));
    let kept = columns.filter(is_shown(schema, hidden));
    if is_shown(schema, hidden)(column) {
        assert(kept.push(column).map_values(resolved(schema)) =~= kept.map_values(
            resolved(schema),
        ).push(resolved(schema)(column)));
    }
}

/// The plan of two lists of columns, one after the other.
pub proof fn lemma_columns_plan_add(
    first: ColumnsView,
    second: ColumnsView,
    schema: SchemaView,
    hidden: Seq<Seq<char>>,
)
    ensures
        columns_plan(first + second, schema, hidden) == columns_plan(first, schema, hidden)
            + columns_plan(second, schema, hidden),
{
    Seq::filter_distributes_over_add(first, second, is_shown(schema, hidden));
    let a = first.filter(is_shown(schema, hidden));
    let b = second.filter(is_shown(schema, hidden));
    assert((a + b).map_values(resolved(schema)) =~= a.map_values(resolved(schema)) + b.map_values(
        resolved(schema),
    ));
}

/// Fetches the attribute `source` of `row` and coerces it to `kind`.
pub fn fetch_attribute(row: &Row, source: &str, kind: ValueKind) -> (fetched: Result<
    RenderedValue,
    ProjectionError,
>)
    ensures
        match fetched {
            Ok(value) => fetch(row@, source@, kind) == Ok::<RenderedView, ErrorView>(value@),
            Err(error) => fetch(row@, source@, kind) == Err::<RenderedView, ErrorView>(error@),
        },
{
    match row.get(source) {
        None => Err(ProjectionError::MissingAttribute(source.to_owned())),
        Some(value) => match value.coerce_to(kind) {
            Some(rendered) => Ok(rendered),
            None => Err(ProjectionError::TypeMismatch(source.to_owned())),
        },
    }
}

/// The contribution of the column `lookup` to the record of `row`: `None`
/// if the query did not request the column; else the key, which is the name
/// of the attribute that the column reads from, and the value of that
/// attribute coerced to `kind`.
pub fn get_column_record(
    lookup: &str,
    schema: &StatementSchema,
    row: &Row,
    kind: ValueKind,
) -> (column: Result<Option<(String, RenderedValue)>, ProjectionError>)
    ensures
        match column {
            Ok(None) => column_record(schema@, row@, lookup@, kind) == Ok::<
                Option<(Seq<char>, RenderedView)>,
                ErrorView,
            >(None),
            Ok(Some(pair)) => column_record(schema@, row@, lookup@, kind) == Ok::<
                Option<(Seq<char>, RenderedView)>,
                ErrorView,
            >(Some((pair.0@, pair.1@))),
            Err(error) => column_record(schema@, row@, lookup@, kind) == Err::<
                Option<(Seq<char>, RenderedView)>,
                ErrorView,
            >(error@),
        },
{
    if schema.requests(lookup) {
        let source = schema.source_of(lookup);
        match fetch_attribute(row, source.as_str(), kind) {
            Ok(value) => Ok(Some((source, value))),
            Err(error) => Err(error),
        }
    } else {
        Ok(None)
    }
}

/// Appends to `record` what the columns `columns` contribute for `row`.
fn append_columns(
    record: &mut OutputRecord,
    columns: &TableColumnSpec,
    schema: &StatementSchema,
    row: &Row,
    hidden: &Vec<String>,
    Ghost(done): Ghost<PlanView>,
) -> (outcome: Result<(), ProjectionError>)
    requires
        project_plan(done, row@) == Ok::<RecordView, ErrorView>(old(record)@),
    ensures
        match outcome {
            Ok(()) => project_plan(
                done + columns_plan(columns@, schema@, names_view(hidden@)),
                row@,
            ) == Ok::<RecordView, ErrorView>(final(record)@),
            Err(error) => project_plan(
                done + columns_plan(columns@, schema@, names_view(hidden@)),
                row@,
            ) == Err::<RecordView, ErrorView>(error@),
        },
{
    let ghost all = columns@;
    let ghost concealed = names_view(hidden@);
    let n = columns.len();
    let mut i: usize = 0;
    proof {
        assert(all.take(0) =~= Seq::<(Seq<char>, ValueKind)>::empty());
        reveal(Seq::filter);
        assert(columns_plan(all.take(0), schema@, concealed) =~= Seq::<
            (Seq<char>, ValueKind),
        >::empty());
        assert(done + columns_plan(all.take(0), schema@, concealed) =~= done);
    }
    while i < n
        invariant
            i <= n,
            n == all.len(),
            all == columns@,
            concealed == names_view(hidden@),
            project_plan(done + columns_plan(all.take(i as int), schema@, concealed), row@) == Ok::<
                RecordView,
                ErrorView,
            >(record@),
        decreases n - i,
    {
        let name = columns.name_at(i);
        let kind = columns.kind_at(i);
        let source = schema.source_of(name);
        let ghost before = columns_plan(all.take(i as int), schema@, concealed);
        let ghost after = columns_plan(all.take(i as int + 1), schema@, concealed);
        proof {
            assert(all.take(i as int + 1) =~= all.take(i as int).push(all[i as int]));
            lemma_columns_plan_push(all.take(i as int), all[i as int], schema@, concealed);
        }
        if !contains_name(hidden, source.as_str()) {
            match get_column_record(name, schema, row, kind) {
                Ok(Some(pair)) => {
                    proof {
                        assert(after == before.push((pair.0@, kind)));
                        assert(done + after =~= (done + before).push((pair.0@, kind)));
                        lemma_project_push(done + before, (pair.0@, kind), row@);
                    }
                    record.push(pair.0, pair.1);
                },
                Ok(None) => {
                    assert(after == before);
                },
                Err(error) => {
                    proof {
                        let entry = (source@, kind);
                        assert(after == before.push(entry));
                        assert(done + after =~= (done + before).push(entry));
                        lemma_project_push(done + before, entry, row@);
                        let rest = columns_plan(all, schema@, concealed);
                        let tail = columns_plan(all.skip(i as int + 1), schema@, concealed);
                        assert(all =~= all.take(i as int + 1) + all.skip(i as int + 1));
                        lemma_columns_plan_add(
                            all.take(i as int + 1),
                            all.skip(i as int + 1),
                            schema@,
                            concealed,
                        );
                        assert(done + rest =~= (done + after) + tail);
                        lemma_project_prefix_error(done + after, tail, row@);
                    }
                    return Err(error);
                },
            }
        } else {
            assert(after == before);
        }
        i += 1;
    }
    proof {
        assert(all.take(n as int) =~= all);
    }
    Ok(())
}

/// The requested fields that `columns` does not declare, as text columns, in
/// the order of the request.
fn leftover(fields: &Vec<String>, columns: &TableColumnSpec) -> (rest: TableColumnSpec)
    ensures
        rest@ == text_columns(names_view(fields@).filter(is_undeclared(columns@))),
{
    let ghost names = names_view(fields@);
    let mut rest = TableColumnSpec::new();
    let n = fields.len();
    let mut i: usize = 0;
    proof {
        reveal(Seq::filter);
        assert(names.take(0) =~= Seq::<Seq<char>>::empty());
        assert(rest@ =~= text_columns(names.take(0).filter(is_undeclared(columns@))));
    }
    while i < n
        invariant
            i <= n,
            n == fields@.len(),
            names == names_view(fields@),
            rest@ == text_columns(names.take(i as int).filter(is_undeclared(columns@))),
        decreases n - i,
    {
        let field = fields[i].as_str();
        proof {
            assert(names[i as int] == field@);
            assert(names.take(i as int + 1) =~= names.take(i as int).push(field@));
            names.take(i as int).lemma_filter_push(field@, is_undeclared(columns@));
        }
        if !columns.declares(field) {
            let ghost kept = names.take(i as int).filter(is_undeclared(columns@));
            rest = rest.with(field, ValueKind::Text);
            assert(rest@ =~= text_columns(kept.push(field@)));
        }
        i += 1;
    }
    proof {
        assert(names.take(n as int) =~= names);
    }
    rest
}

/// Projects one row: the record that the plan of the query makes of it.
/// `hidden` names the attributes that records do not show.
pub fn project_row(schema: &StatementSchema, row: &Row, hidden: &Vec<String>) -> (projected:
    Result<OutputRecord, ProjectionError>)
    ensures
        match projected {
            Ok(record) => project_plan(projection_plan(schema@, names_view(hidden@)), row@) == Ok::<
                RecordView,
                ErrorView,
            >(record@),
            Err(error) => project_plan(projection_plan(schema@, names_view(hidden@)), row@)
                == Err::<RecordView, ErrorView>(error@),
        },
{
    let mut record = OutputRecord::new();
    let ghost concealed = names_view(hidden@);
    let ghost nothing = Seq::<(Seq<char>, ValueKind)>::empty();
    match lookup_table(schema.table_name()) {
        Some(columns) => {
            let ghost declared = columns_plan(columns@, schema@, concealed);
            proof {
                assert(nothing + declared =~= declared);
            }
            match append_columns(&mut record, &columns, schema, row, hidden, Ghost(nothing)) {
                Ok(()) => {},
                Err(error) => {
                    proof {
                        let rest = columns_plan(
                            text_columns(leftover_fields(columns@, schema@)),
                            schema@,
                            concealed,
                        );
                        lemma_project_prefix_error(declared, rest, row@);
                    }
                    return Err(error);
                },
            }
            let the_rest = leftover(schema.requested_fields(), &columns);
            match append_columns(&mut record, &the_rest, schema, row, hidden, Ghost(declared)) {
                Ok(()) => Ok(record),
                Err(error) => Err(error),
            }
        },
        None => {
            let fields = schema.requested_fields();
            let ghost all = text_columns(schema@.requested_fields);
            let n = fields.len();
            let mut i: usize = 0;
            proof {
                reveal(Seq::filter);
                assert(all.take(0) =~= nothing);
                assert(all.take(0).filter(is_visible(concealed)) =~= nothing);
            }
            while i < n
                invariant
                    i <= n,
                    n == fields@.len(),
                    names_view(fields@) == schema@.requested_fields,
                    all == text_columns(schema@.requested_fields),
                    concealed == names_view(hidden@),
                    projection_plan(schema@, concealed) == all.filter(is_visible(concealed)),
                    project_plan(all.take(i as int).filter(is_visible(concealed)), row@) == Ok::<
                        RecordView,
                        ErrorView,
                    >(record@),
                decreases n - i,
            {
                let field = fields[i].as_str();
                let ghost before = all.take(i as int).filter(is_visible(concealed));
                let ghost after = all.take(i as int + 1).filter(is_visible(concealed));
                proof {
                    assert(names_view(fields@)[i as int] == field@);
                    assert(all[i as int] == (field@, ValueKind::Text));
                    assert(all.take(i as int + 1) =~= all.take(i as int).push(all[i as int]));
                    all.take(i as int).lemma_filter_push(all[i as int], is_visible(concealed));
                }
                if !contains_name(hidden, field) {
                    proof {
                        lemma_project_push(before, (field@, ValueKind::Text), row@);
                    }
                    match fetch_attribute(row, field, ValueKind::Text) {
                        Ok(value) => {
                            record.push(field.to_owned(), value);
                        },
                        Err(error) => {
                            proof {
                                let whole = all.filter(is_visible(concealed));
                                let tail = all.skip(i as int + 1).filter(is_visible(concealed));
                                assert(all =~= all.take(i as int + 1) + all.skip(i as int + 1));
                                Seq::filter_distributes_over_add(
                                    all.take(i as int + 1),
                                    all.skip(i as int + 1),
                                    is_visible(concealed),
                                );
                                assert(whole == after + tail);
                                lemma_project_prefix_error(after, tail, row@);
                            }
                            return Err(error);
                        },
                    }
                }
                i += 1;
            }
            proof {
                assert(all.take(n as int) =~= all);
            }
            Ok(record)
        },
    }
}

} // verus!
