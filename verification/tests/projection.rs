use query_git::error::ProjectionError;
use query_git::ordered_map::OrderedMap;
use query_git::projector::{fetch_attribute, get_column_record, project_row};
use query_git::record::{OutputRecord, Row};
use query_git::registry::lookup_table;
use query_git::schema::{AliasMap, StatementSchema};
use query_git::value::{RenderedValue, TypedAttributeValue, ValueKind};

fn text(s: &str) -> TypedAttributeValue {
    TypedAttributeValue::Text(s.to_string())
}

fn row_of(attributes: Vec<(&str, TypedAttributeValue)>) -> Row {
    let mut row = Row::new();
    for (name, value) in attributes {
        row.insert(name.to_string(), value);
    }
    row
}

fn aliases_of(pairs: Vec<(&str, &str)>) -> AliasMap {
    let mut aliases: AliasMap = OrderedMap::new();
    for (field, target) in pairs {
        aliases.insert(field.to_string(), target.to_string());
    }
    aliases
}

fn schema_of(table: &str, fields: Vec<&str>, aliases: Vec<(&str, &str)>) -> StatementSchema {
    StatementSchema::new(
        table.to_string(),
        fields.into_iter().map(|f| f.to_string()).collect(),
        aliases_of(aliases),
    )
}

fn record_of(columns: Vec<(&str, RenderedValue)>) -> OutputRecord {
    let mut record = OutputRecord::new();
    for (key, value) in columns {
        record.push(key.to_string(), value);
    }
    record
}

fn rendered_text(s: &str) -> RenderedValue {
    RenderedValue::Text(s.to_string())
}

fn keys_of(record: &OutputRecord) -> Vec<String> {
    let mut keys = Vec::new();
    for i in 0..record.len() {
        keys.push(record.key_at(i).to_string());
    }
    keys
}

fn full_row(table: &str) -> Row {
    let spec = lookup_table(table).unwrap();
    let mut row = Row::new();
    // Filled against the declared order, so that the order of the record
    // cannot come from the row.
    for i in (0..spec.len()).rev() {
        let value = match spec.kind_at(i) {
            ValueKind::Text => text("t"),
            ValueKind::Integer => TypedAttributeValue::Integer(i as i64),
            ValueKind::Boolean => TypedAttributeValue::Boolean(i % 2 == 0),
        };
        row.insert(spec.name_at(i).to_string(), value);
    }
    row
}

fn declared_names(table: &str) -> Vec<String> {
    let spec = lookup_table(table).unwrap();
    (0..spec.len()).map(|i| spec.name_at(i).to_string()).collect()
}

fn check_declared_order(table: &str, expected: Vec<&str>) {
    let names = declared_names(table);
    assert_eq!(names, expected);
    let schema = StatementSchema::new(table.to_string(), names.clone(), OrderedMap::new());
    let record = project_row(&schema, &full_row(table), &Vec::new()).unwrap();
    assert_eq!(keys_of(&record), names);
}

#[test]
fn declared_order_of_references() {
    check_declared_order("refs", vec!["name", "full_name", "type", "repo"]);
    check_declared_order("references", vec!["name", "full_name", "type", "repo"]);
}

#[test]
fn declared_order_of_commits() {
    check_declared_order(
        "commits",
        vec!["commit_id", "title", "message", "name", "email", "datetime", "repo"],
    );
}

#[test]
fn declared_order_of_diffs() {
    check_declared_order(
        "diffs",
        vec!["commit_id", "name", "email", "insertions", "deletions", "files_changed", "repo"],
    );
}

#[test]
fn declared_order_of_branches() {
    check_declared_order("branches", vec!["name", "commit_count", "is_head", "is_remote", "repo"]);
}

#[test]
fn declared_order_of_tags() {
    check_declared_order("tags", vec!["name", "repo"]);
}

#[test]
fn declared_kinds_of_diffs_and_branches() {
    let diffs = lookup_table("diffs").unwrap();
    let kinds: Vec<ValueKind> = (0..diffs.len()).map(|i| diffs.kind_at(i)).collect();
    assert_eq!(
        kinds,
        vec![
            ValueKind::Text,
            ValueKind::Text,
            ValueKind::Text,
            ValueKind::Integer,
            ValueKind::Integer,
            ValueKind::Integer,
            ValueKind::Text
        ]
    );
    let branches = lookup_table("branches").unwrap();
    let kinds: Vec<ValueKind> = (0..branches.len()).map(|i| branches.kind_at(i)).collect();
    assert_eq!(
        kinds,
        vec![
            ValueKind::Text,
            ValueKind::Integer,
            ValueKind::Boolean,
            ValueKind::Boolean,
            ValueKind::Text
        ]
    );
}

#[test]
fn request_order_does_not_change_declared_order() {
    let schema = schema_of("tags", vec!["repo", "name"], vec![]);
    let row = row_of(vec![("repo", text("/r")), ("name", text("v1"))]);
    let record = project_row(&schema, &row, &Vec::new()).unwrap();
    assert_eq!(
        record,
        record_of(vec![("name", rendered_text("v1")), ("repo", rendered_text("/r"))])
    );
}

#[test]
fn aliased_column_surfaces_under_its_source() {
    let schema = schema_of("commits", vec!["title", "repo"], vec![("title", "subject")]);
    let row = row_of(vec![("subject", text("fix bug")), ("repo", text("/r"))]);
    let record = project_row(&schema, &row, &Vec::new()).unwrap();
    assert_eq!(
        record,
        record_of(vec![("subject", rendered_text("fix bug")), ("repo", rendered_text("/r"))])
    );
    assert!(!keys_of(&record).contains(&"title".to_string()));
}

#[test]
fn unknown_table_passes_requested_fields_through() {
    let schema = schema_of("widgets", vec!["a", "b"], vec![]);
    let row = row_of(vec![("a", text("1")), ("b", text("2"))]);
    let record = project_row(&schema, &row, &Vec::new()).unwrap();
    assert_eq!(record, record_of(vec![("a", rendered_text("1")), ("b", rendered_text("2"))]));
}

#[test]
fn unknown_table_ignores_aliases() {
    let schema = schema_of("widgets", vec!["a"], vec![("a", "z")]);
    let row = row_of(vec![("a", text("1")), ("z", text("26"))]);
    let record = project_row(&schema, &row, &Vec::new()).unwrap();
    assert_eq!(record, record_of(vec![("a", rendered_text("1"))]));
}

#[test]
fn extra_field_follows_declared_columns() {
    let schema = schema_of("tags", vec!["name", "custom"], vec![]);
    let row = row_of(vec![("name", text("v1")), ("custom", text("x"))]);
    let record = project_row(&schema, &row, &Vec::new()).unwrap();
    assert_eq!(
        record,
        record_of(vec![("name", rendered_text("v1")), ("custom", rendered_text("x"))])
    );
}

#[test]
fn extra_fields_keep_request_order_and_aliases() {
    let schema = schema_of(
        "tags",
        vec!["zeta", "name", "count", "alpha"],
        vec![("count", "column_1")],
    );
    let row = row_of(vec![
        ("alpha", text("a")),
        ("column_1", TypedAttributeValue::Integer(12)),
        ("name", text("v1")),
        ("zeta", text("z")),
    ]);
    let record = project_row(&schema, &row, &Vec::new()).unwrap();
    assert_eq!(
        record,
        record_of(vec![
            ("name", rendered_text("v1")),
            ("zeta", rendered_text("z")),
            ("column_1", rendered_text("12")),
            ("alpha", rendered_text("a")),
        ])
    );
}

#[test]
fn integer_column_yields_integer() {
    let schema = schema_of("diffs", vec!["insertions"], vec![]);
    let row = row_of(vec![("insertions", TypedAttributeValue::Integer(7))]);
    let record = project_row(&schema, &row, &Vec::new()).unwrap();
    assert_eq!(record, record_of(vec![("insertions", RenderedValue::Integer(7))]));
    assert_ne!(record, record_of(vec![("insertions", rendered_text("7"))]));
}

#[test]
fn boolean_column_yields_boolean() {
    let schema = schema_of("branches", vec!["is_head", "is_remote"], vec![]);
    let row = row_of(vec![
        ("is_head", TypedAttributeValue::Boolean(true)),
        ("is_remote", TypedAttributeValue::Boolean(false)),
    ]);
    let record = project_row(&schema, &row, &Vec::new()).unwrap();
    assert_eq!(
        record,
        record_of(vec![
            ("is_head", RenderedValue::Boolean(true)),
            ("is_remote", RenderedValue::Boolean(false)),
        ])
    );
}

#[test]
fn missing_key_is_reported() {
    let schema = schema_of("tags", vec!["name", "repo"], vec![]);
    let row = row_of(vec![("name", text("v1"))]);
    assert_eq!(
        project_row(&schema, &row, &Vec::new()),
        Err(ProjectionError::MissingAttribute("repo".to_string()))
    );
}

#[test]
fn missing_alias_target_is_reported_under_its_own_name() {
    let schema = schema_of("commits", vec!["title"], vec![("title", "subject")]);
    let row = row_of(vec![("title", text("fix bug"))]);
    assert_eq!(
        project_row(&schema, &row, &Vec::new()),
        Err(ProjectionError::MissingAttribute("subject".to_string()))
    );
}

#[test]
fn missing_key_of_unknown_table_is_reported() {
    let schema = schema_of("widgets", vec!["a", "b"], vec![]);
    let row = row_of(vec![("a", text("1"))]);
    assert_eq!(
        project_row(&schema, &row, &Vec::new()),
        Err(ProjectionError::MissingAttribute("b".to_string()))
    );
}

#[test]
fn missing_extra_field_is_reported() {
    let schema = schema_of("tags", vec!["name", "custom"], vec![]);
    let row = row_of(vec![("name", text("v1"))]);
    assert_eq!(
        project_row(&schema, &row, &Vec::new()),
        Err(ProjectionError::MissingAttribute("custom".to_string()))
    );
}

#[test]
fn text_in_integer_column_is_a_mismatch() {
    let schema = schema_of("diffs", vec!["insertions"], vec![]);
    let row = row_of(vec![("insertions", text("7"))]);
    assert_eq!(
        project_row(&schema, &row, &Vec::new()),
        Err(ProjectionError::TypeMismatch("insertions".to_string()))
    );
}

#[test]
fn integer_in_boolean_column_is_a_mismatch() {
    let schema = schema_of("branches", vec!["is_head"], vec![]);
    let row = row_of(vec![("is_head", TypedAttributeValue::Integer(1))]);
    assert_eq!(
        project_row(&schema, &row, &Vec::new()),
        Err(ProjectionError::TypeMismatch("is_head".to_string()))
    );
}

#[test]
fn first_failure_in_output_order_wins() {
    // `insertions` comes before `repo` in the table, whatever the request says.
    let schema = schema_of("diffs", vec!["repo", "insertions"], vec![]);
    let row = row_of(vec![("insertions", text("many"))]);
    assert_eq!(
        project_row(&schema, &row, &Vec::new()),
        Err(ProjectionError::TypeMismatch("insertions".to_string()))
    );
}

#[test]
fn unrequested_columns_are_not_fetched() {
    let schema = schema_of("commits", vec!["title"], vec![]);
    let row = row_of(vec![("title", text("fix bug"))]);
    let record = project_row(&schema, &row, &Vec::new()).unwrap();
    assert_eq!(record, record_of(vec![("title", rendered_text("fix bug"))]));
}

#[test]
fn empty_schema_gives_empty_record() {
    let schema = StatementSchema::empty();
    let row = row_of(vec![("a", text("1"))]);
    let record = project_row(&schema, &row, &Vec::new()).unwrap();
    assert_eq!(record.len(), 0);
    assert_eq!(record, OutputRecord::new());
}

#[test]
fn hidden_attributes_are_skipped() {
    let hidden = vec!["repo".to_string(), "secret".to_string()];
    let schema = schema_of("tags", vec!["name", "repo", "secret", "custom"], vec![]);
    let row = row_of(vec![("name", text("v1")), ("custom", text("x"))]);
    let record = project_row(&schema, &row, &hidden).unwrap();
    assert_eq!(
        record,
        record_of(vec![("name", rendered_text("v1")), ("custom", rendered_text("x"))])
    );
}

#[test]
fn hidden_applies_to_the_source_of_an_alias() {
    let hidden = vec!["subject".to_string()];
    let schema = schema_of("commits", vec!["title", "repo"], vec![("title", "subject")]);
    let row = row_of(vec![("subject", text("fix bug")), ("repo", text("/r"))]);
    let record = project_row(&schema, &row, &hidden).unwrap();
    assert_eq!(record, record_of(vec![("repo", rendered_text("/r"))]));
    let hidden = vec!["title".to_string()];
    let record = project_row(&schema, &row, &hidden).unwrap();
    assert_eq!(keys_of(&record), vec!["subject".to_string(), "repo".to_string()]);
}

#[test]
fn hidden_applies_to_unknown_tables() {
    let hidden = vec!["b".to_string()];
    let schema = schema_of("widgets", vec!["a", "b", "c"], vec![]);
    let row = row_of(vec![("a", text("1")), ("c", text("3"))]);
    let record = project_row(&schema, &row, &hidden).unwrap();
    assert_eq!(record, record_of(vec![("a", rendered_text("1")), ("c", rendered_text("3"))]));
}

#[test]
fn column_record_of_unrequested_column_is_none() {
    let schema = schema_of("commits", vec!["title"], vec![]);
    let row = row_of(vec![("title", text("t")), ("repo", text("/r"))]);
    assert_eq!(get_column_record("repo", &schema, &row, ValueKind::Text), Ok(None));
}

#[test]
fn column_record_resolves_alias_and_kind() {
    let schema = schema_of("diffs", vec!["insertions", "name"], vec![("insertions", "added")]);
    let row = row_of(vec![("added", TypedAttributeValue::Integer(3)), ("name", text("ann"))]);
    assert_eq!(
        get_column_record("insertions", &schema, &row, ValueKind::Integer),
        Ok(Some(("added".to_string(), RenderedValue::Integer(3))))
    );
    assert_eq!(
        get_column_record("insertions", &schema, &row, ValueKind::Text),
        Ok(Some(("added".to_string(), rendered_text("3"))))
    );
    assert_eq!(
        get_column_record("name", &schema, &row, ValueKind::Text),
        Ok(Some(("name".to_string(), rendered_text("ann"))))
    );
    assert_eq!(
        get_column_record("name", &schema, &row, ValueKind::Boolean),
        Err(ProjectionError::TypeMismatch("name".to_string()))
    );
}

#[test]
fn column_record_reports_missing_source() {
    let schema = schema_of("diffs", vec!["insertions"], vec![("insertions", "added")]);
    let row = row_of(vec![("insertions", TypedAttributeValue::Integer(3))]);
    assert_eq!(
        get_column_record("insertions", &schema, &row, ValueKind::Integer),
        Err(ProjectionError::MissingAttribute("added".to_string()))
    );
}

#[test]
fn fetch_attribute_by_kind() {
    let row = row_of(vec![
        ("n", TypedAttributeValue::Integer(-5)),
        ("b", TypedAttributeValue::Boolean(true)),
        ("o", TypedAttributeValue::Other("2023-11-05 10:00:00".to_string())),
    ]);
    assert_eq!(fetch_attribute(&row, "n", ValueKind::Integer), Ok(RenderedValue::Integer(-5)));
    assert_eq!(fetch_attribute(&row, "n", ValueKind::Text), Ok(rendered_text("-5")));
    assert_eq!(fetch_attribute(&row, "b", ValueKind::Boolean), Ok(RenderedValue::Boolean(true)));
    assert_eq!(fetch_attribute(&row, "b", ValueKind::Text), Ok(rendered_text("true")));
    assert_eq!(
        fetch_attribute(&row, "o", ValueKind::Text),
        Ok(rendered_text("2023-11-05 10:00:00"))
    );
    assert_eq!(
        fetch_attribute(&row, "o", ValueKind::Integer),
        Err(ProjectionError::TypeMismatch("o".to_string()))
    );
    assert_eq!(
        fetch_attribute(&row, "x", ValueKind::Text),
        Err(ProjectionError::MissingAttribute("x".to_string()))
    );
}
