use query_git::error::ProjectionError;
use query_git::flatten::flat_gql_groups;
use query_git::ordered_map::OrderedMap;
use query_git::record::{OutputRecord, Row};
use query_git::render::{project_group, render_objects, render_objects2, Projection};
use query_git::schema::{AliasMap, StatementSchema};
use query_git::statement::{
    extract_statement_info, record_statement, select_schema, ParsedStatement, SelectPayload,
    StatementInfo, StatementKind,
};
use query_git::value::{RenderedValue, TypedAttributeValue};

fn tag_row(name: &str) -> Row {
    let mut row = Row::new();
    row.insert("name".to_string(), TypedAttributeValue::Text(name.to_string()));
    row.insert("repo".to_string(), TypedAttributeValue::Text("/r".to_string()));
    row
}

fn tag_record(name: &str) -> OutputRecord {
    let mut record = OutputRecord::new();
    record.push("name".to_string(), RenderedValue::Text(name.to_string()));
    record.push("repo".to_string(), RenderedValue::Text("/r".to_string()));
    record
}

fn select_from(table: &str, fields: Vec<&str>, aliases: Vec<(&str, &str)>) -> ParsedStatement {
    let mut alias_table: AliasMap = OrderedMap::new();
    for (field, target) in aliases {
        alias_table.insert(field.to_string(), target.to_string());
    }
    ParsedStatement {
        name: "select".to_string(),
        kind: StatementKind::Select,
        select: Some(SelectPayload {
            table_name: table.to_string(),
            fields_names: fields.into_iter().map(|f| f.to_string()).collect(),
            alias_table,
        }),
    }
}

fn other(name: &str, kind: StatementKind) -> ParsedStatement {
    ParsedStatement { name: name.to_string(), kind, select: None }
}

fn tags_info() -> Vec<StatementInfo> {
    extract_statement_info(vec![
        other("where", StatementKind::Where),
        select_from("tags", vec!["name", "repo"], vec![]),
        other("limit", StatementKind::Limit),
    ])
    .unwrap()
}

#[test]
fn no_groups_give_the_empty_marker() {
    let mut groups: Vec<Vec<Row>> = Vec::new();
    assert_eq!(render_objects2(&mut groups, tags_info()), Ok(Projection::Empty));
    assert!(groups.is_empty());
}

#[test]
fn one_empty_group_gives_the_empty_marker() {
    let mut groups: Vec<Vec<Row>> = vec![Vec::new()];
    assert_eq!(render_objects2(&mut groups, tags_info()), Ok(Projection::Empty));
    assert_eq!(groups.len(), 1);
}

#[test]
fn several_empty_groups_give_the_empty_marker() {
    let mut groups: Vec<Vec<Row>> = vec![Vec::new(), Vec::new(), Vec::new()];
    assert_eq!(render_objects2(&mut groups, tags_info()), Ok(Projection::Empty));
    assert_eq!(groups.len(), 1);
    assert!(groups[0].is_empty());
}

#[test]
fn empty_input_is_no_error_even_for_a_schema_that_rows_would_fail() {
    let info = extract_statement_info(vec![select_from("diffs", vec!["insertions"], vec![])])
        .unwrap();
    let mut groups: Vec<Vec<Row>> = vec![Vec::new()];
    assert_eq!(render_objects2(&mut groups, info), Ok(Projection::Empty));
}

#[test]
fn empty_first_group_before_rows_is_not_empty_output() {
    let mut groups = vec![Vec::new(), vec![tag_row("v1")]];
    assert_eq!(
        render_objects2(&mut groups, tags_info()),
        Ok(Projection::Records(vec![tag_record("v1")]))
    );
}

#[test]
fn single_group_is_rendered_row_by_row() {
    let mut groups = vec![vec![tag_row("v1"), tag_row("v2"), tag_row("v3")]];
    assert_eq!(
        render_objects2(&mut groups, tags_info()),
        Ok(Projection::Records(vec![tag_record("v1"), tag_record("v2"), tag_record("v3")]))
    );
    assert_eq!(groups.len(), 1);
    assert_eq!(groups[0].len(), 3);
}

#[test]
fn flattening_then_projecting_equals_projecting_directly() {
    let mut grouped = vec![vec![tag_row("r1"), tag_row("r2")], vec![tag_row("r3")]];
    let mut direct = vec![vec![tag_row("r1"), tag_row("r2"), tag_row("r3")]];
    let from_groups = render_objects2(&mut grouped, tags_info());
    let from_rows = render_objects2(&mut direct, tags_info());
    assert_eq!(from_groups, from_rows);
    assert_eq!(
        from_groups,
        Ok(Projection::Records(vec![tag_record("r1"), tag_record("r2"), tag_record("r3")]))
    );
    assert_eq!(grouped, direct);
}

#[test]
fn rendering_twice_gives_the_same_output() {
    let mut groups = vec![vec![tag_row("r1")], vec![tag_row("r2")], Vec::new(), vec![tag_row("r3")]];
    let first = render_objects2(&mut groups, tags_info());
    let second = render_objects2(&mut groups, tags_info());
    assert_eq!(first, second);
    let rows = vec![tag_row("r1"), tag_row("r2")];
    let schema = select_schema(tags_info());
    assert_eq!(
        project_group(&schema, &rows, &Vec::new()),
        project_group(&schema, &rows, &Vec::new())
    );
}

#[test]
fn flattening_concatenates_in_order() {
    let mut groups = vec![vec![tag_row("a")], Vec::new(), vec![tag_row("b"), tag_row("c")]];
    flat_gql_groups(&mut groups);
    assert_eq!(groups, vec![vec![tag_row("a"), tag_row("b"), tag_row("c")]]);
    flat_gql_groups(&mut groups);
    assert_eq!(groups, vec![vec![tag_row("a"), tag_row("b"), tag_row("c")]]);
}

#[test]
fn flattening_nothing_leaves_one_empty_group() {
    let mut groups: Vec<Vec<Row>> = Vec::new();
    flat_gql_groups(&mut groups);
    assert_eq!(groups, vec![Vec::new()]);
}

#[test]
fn failing_row_fails_the_whole_query() {
    let mut broken = Row::new();
    broken.insert("name".to_string(), TypedAttributeValue::Text("v2".to_string()));
    let mut groups = vec![vec![tag_row("v1"), broken, tag_row("v3")]];
    assert_eq!(
        render_objects2(&mut groups, tags_info()),
        Err(ProjectionError::MissingAttribute("repo".to_string()))
    );
}

#[test]
fn first_failing_row_decides_the_error() {
    let info = extract_statement_info(vec![select_from("diffs", vec!["insertions"], vec![])])
        .unwrap();
    let mut mistyped = Row::new();
    mistyped.insert("insertions".to_string(), TypedAttributeValue::Boolean(true));
    let mut groups = vec![vec![mistyped], vec![Row::new()]];
    assert_eq!(
        render_objects2(&mut groups, info),
        Err(ProjectionError::TypeMismatch("insertions".to_string()))
    );
}

#[test]
fn query_without_select_renders_empty_records() {
    let info = extract_statement_info(vec![other("where", StatementKind::Where)]).unwrap();
    let mut groups = vec![vec![tag_row("v1"), tag_row("v2")]];
    assert_eq!(
        render_objects2(&mut groups, info),
        Ok(Projection::Records(vec![OutputRecord::new(), OutputRecord::new()]))
    );
    let mut groups = vec![vec![tag_row("v1")]];
    assert_eq!(
        render_objects2(&mut groups, Vec::new()),
        Ok(Projection::Records(vec![OutputRecord::new()]))
    );
}

#[test]
fn hidden_selections_are_left_out_of_every_record() {
    let hidden = vec!["repo".to_string()];
    let mut groups = vec![vec![tag_row("v1")], vec![tag_row("v2")]];
    let mut expected = Vec::new();
    for name in ["v1", "v2"] {
        let mut record = OutputRecord::new();
        record.push("name".to_string(), RenderedValue::Text(name.to_string()));
        expected.push(record);
    }
    assert_eq!(
        render_objects(&mut groups, &hidden, tags_info()),
        Ok(Projection::Records(expected))
    );
}

#[test]
fn select_tag_without_select_shape_is_malformed() {
    let malformed = other("select", StatementKind::Select);
    assert_eq!(
        extract_statement_info(vec![other("where", StatementKind::Where), malformed]),
        Err(ProjectionError::MalformedStatement)
    );
    assert_eq!(
        record_statement(other("select", StatementKind::Select)),
        Err(ProjectionError::MalformedStatement)
    );
}

#[test]
fn other_statements_are_recorded_by_name_only() {
    let kinds = vec![
        ("where", StatementKind::Where, "Where"),
        ("having", StatementKind::Having, "Having"),
        ("limit", StatementKind::Limit, "Limit"),
        ("offset", StatementKind::Offset, "Offset"),
        ("order", StatementKind::OrderBy, "OrderBy"),
        ("group", StatementKind::GroupBy, "GroupBy"),
        ("aggregation", StatementKind::AggregateFunction, "AggregateFunction"),
    ];
    let statements = kinds.iter().map(|(name, kind, _)| other(name, *kind)).collect();
    let infos = extract_statement_info(statements).unwrap();
    assert_eq!(infos.len(), kinds.len());
    for (info, (name, _, label)) in infos.iter().zip(kinds.iter()) {
        assert_eq!(info.statement_name, *name);
        assert_eq!(info.table_info.table_name(), *label);
        assert!(info.table_info.requested_fields().is_empty());
        assert_eq!(info.table_info.alias_map().len(), 0);
    }
}

#[test]
fn payload_of_a_statement_of_another_kind_is_not_read() {
    let mut statement = select_from("tags", vec!["name"], vec![]);
    statement.name = "where".to_string();
    statement.kind = StatementKind::Where;
    let info = record_statement(statement).unwrap();
    assert_eq!(info.table_info.table_name(), "Where");
    assert!(info.table_info.requested_fields().is_empty());
}

#[test]
fn select_statement_gives_the_schema() {
    let infos = extract_statement_info(vec![
        other("limit", StatementKind::Limit),
        select_from("commits", vec!["title", "repo"], vec![("title", "subject")]),
    ])
    .unwrap();
    assert_eq!(infos[1].statement_name, "select");
    let schema = select_schema(infos);
    assert_eq!(schema.table_name(), "commits");
    assert_eq!(schema.requested_fields(), &vec!["title".to_string(), "repo".to_string()]);
    assert_eq!(schema.source_of("title"), "subject");
}

#[test]
fn first_select_record_wins() {
    let infos = extract_statement_info(vec![
        select_from("tags", vec!["name"], vec![]),
        select_from("commits", vec!["title"], vec![]),
    ])
    .unwrap();
    assert_eq!(select_schema(infos).table_name(), "tags");
}

#[test]
fn schema_is_found_by_statement_name() {
    let mut statement = select_from("tags", vec!["name"], vec![]);
    statement.name = "chosen".to_string();
    let infos = extract_statement_info(vec![statement]).unwrap();
    assert_eq!(select_schema(infos), StatementSchema::empty());
}

#[test]
fn no_statements_give_the_empty_schema() {
    assert_eq!(extract_statement_info(Vec::new()), Ok(Vec::new()));
    assert_eq!(select_schema(Vec::new()), StatementSchema::empty());
}

#[test]
fn aliased_query_end_to_end() {
    let info = extract_statement_info(vec![select_from(
        "commits",
        vec!["title", "repo"],
        vec![("title", "subject")],
    )])
    .unwrap();
    let mut row = Row::new();
    row.insert("subject".to_string(), TypedAttributeValue::Text("fix bug".to_string()));
    row.insert("repo".to_string(), TypedAttributeValue::Text("/r".to_string()));
    let mut groups = vec![vec![row]];
    let mut record = OutputRecord::new();
    record.push("subject".to_string(), RenderedValue::Text("fix bug".to_string()));
    record.push("repo".to_string(), RenderedValue::Text("/r".to_string()));
    assert_eq!(render_objects2(&mut groups, info), Ok(Projection::Records(vec![record])));
}
