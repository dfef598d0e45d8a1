//! Extraction of the schema intent from the statements of a parsed query.

use vstd::prelude::*;
use crate::error::{ErrorView, ProjectionError};
use crate::ordered_map::OrderedMap;
use crate::schema::{requested_aliases, AliasMap, SchemaView, StatementSchema};
use crate::text::{names_view, str_eq};

verus! {

/// The kind that a parsed statement is tagged with.
#[derive(Clone, Copy, Debug, PartialEq, Eq, Structural)]
pub enum StatementKind {
    Select,
    Where,
    Having,
    Limit,
    Offset,
    OrderBy,
    GroupBy,
    AggregateFunction,
}

/// What a select statement carries for the projection.
#[derive(Debug, PartialEq, Eq)]
pub struct SelectPayload {
    pub table_name: String,
    pub fields_names: Vec<String>,
    pub alias_table: AliasMap,
}

/// One statement of a parsed query: the name under which the parser filed
/// it, its kind tag, and its select payload if it has the shape of a select.
#[derive(Debug, PartialEq, Eq)]
pub struct ParsedStatement {
    pub name: String,
    pub kind: StatementKind,
    pub select: Option<SelectPayload>,
}

/// What is recorded of one statement: its name and, for the select
/// statement, the schema of the query. For every other statement the schema
/// holds the label of its kind in place of a table name, and nothing else.
#[derive(Debug, PartialEq, Eq)]
pub struct StatementInfo {
    pub statement_name: String,
    pub table_info: StatementSchema,
}

/// Mathematical model of a [`SelectPayload`].
pub struct SelectView {
    pub table_name: Seq<char>,
    pub fields_names: Seq<Seq<char>>,
    pub alias_table: Map<Seq<char>, Seq<char>>,
}

/// Mathematical model of a [`ParsedStatement`].
pub struct StatementView {
    pub name: Seq<char>,
    pub kind: StatementKind,
    pub select: Option<SelectView>,
}

/// Mathematical model of a [`StatementInfo`].
pub struct InfoView {
    pub statement_name: Seq<char>,
    pub table_info: SchemaView,
}

impl View for SelectPayload {
    type V = SelectView;

    open spec fn view(&self) -> SelectView {
        SelectView {
            table_name: self.table_name@,
            fields_names: names_view(self.fields_names@),
            alias_table: self.alias_table@,
        }
    }
}

impl View for ParsedStatement {
    type V = StatementView;

    open spec fn view(&self) -> StatementView {
        StatementView {
            name: self.name@,
            kind: self.kind,
            select: match self.select {
                Some(payload) => Some(payload@),
                None => None,
            },
        }
    }
}

impl View for StatementInfo {
    type V = InfoView;

    open spec fn view(&self) -> InfoView {
        InfoView { statement_name: self.statement_name@, table_info: self.table_info@ }
    }
}

/// The models of a list of parsed statements, in order.
pub open spec fn statements_view(statements: Seq<ParsedStatement>) -> Seq<StatementView> {
    Seq::new(statements.len(), |i: int| statements[i]@)
}

/// The models of a list of statement records, in order.
pub open spec fn infos_view(infos: Seq<StatementInfo>) -> Seq<InfoView> {
    Seq::new(infos.len(), |i: int| infos[i]@)
}

/// The label under which a statement of the given kind is recorded.
pub open spec fn kind_label(kind: StatementKind) -> Seq<char> {
    match kind {
        StatementKind::Select => "Select"@,
        StatementKind::Where => "Where"@,
        StatementKind::Having => "Having"@,
        StatementKind::Limit => "Limit"@,
        StatementKind::Offset => "Offset"@,
        StatementKind::OrderBy => "OrderBy"@,
        StatementKind::GroupBy => "GroupBy"@,
        StatementKind::AggregateFunction => "AggregateFunction"@,
    }
}

/// The schema without table and fields.
pub open spec fn empty_schema() -> SchemaView {
    SchemaView {
        table_name: Seq::empty(),
        requested_fields: Seq::empty(),
        alias_map: Map::empty(),
    }
}

/// Whether a statement is tagged as a select without having a select's
/// shape.
pub open spec fn is_malformed(statement: StatementView) -> bool {
    statement.kind == StatementKind::Select && statement.select is None
}

/// What is recorded of a statement that is not malformed.
pub open spec fn statement_info(statement: StatementView) -> InfoView {
    match statement.kind {
        StatementKind::Select => InfoView {
            statement_name: statement.name,
            table_info: SchemaView {
                table_name: statement.select->0.table_name,
                requested_fields: statement.select->0.fields_names,
                alias_map: requested_aliases(
                    statement.select->0.alias_table,
                    statement.select->0.fields_names,
                ),
            },
        },
        kind => InfoView {
            statement_name: statement.name,
            table_info: SchemaView {
                table_name: kind_label(kind),
                requested_fields: Seq::empty(),
                alias_map: Map::empty(),
            },
        },
    }
}

/// Whether a statement record is that of the select statement.
pub open spec fn is_select(info: InfoView) -> bool {
    info.statement_name == "select"@
}

/// The schema of the query: that of the first record of a select statement,
/// or the empty schema where there is none.
pub open spec fn selected_schema(infos: Seq<InfoView>) -> SchemaView
    decreases infos.len(),
{
    if infos.len() == 0 {
        empty_schema()
    } else if is_select(infos.first()) {
        infos.first().table_info
    } else {
        selected_schema(infos.drop_first())
    }
}

/// The label of a statement kind.
fn label_of(kind: StatementKind) -> (label: String)
    ensures
        label@ == kind_label(kind),
{
    match kind {
        StatementKind::Select => "Select".to_owned(),
        StatementKind::Where => "Where".to_owned(),
        StatementKind::Having => "Having".to_owned(),
        StatementKind::Limit => "Limit".to_owned(),
        StatementKind::Offset => "Offset".to_owned(),
        StatementKind::OrderBy => "OrderBy".to_owned(),
        StatementKind::GroupBy => "GroupBy".to_owned(),
        StatementKind::AggregateFunction => "AggregateFunction".to_owned(),
    }
}

/// Records one statement, or fails with `MalformedStatement` if it is
/// tagged as a select but has no select payload.
pub fn record_statement(statement: ParsedStatement) -> (recorded: Result<
    StatementInfo,
    ProjectionError,
>)
    ensures
        match recorded {
            Ok(info) => !is_malformed(statement@) && info@ == statement_info(statement@),
            Err(error) => is_malformed(statement@) && error@ == ErrorView::MalformedStatement,
        },
{
    let ParsedStatement { name, kind, select } = statement;
    match kind {
        StatementKind::Select => match select {
            Some(payload) => {
                let SelectPayload { table_name, fields_names, alias_table } = payload;
                Ok(
                    StatementInfo {
                        statement_name: name,
                        table_info: StatementSchema::new(table_name, fields_names, alias_table),
                    },
                )
            },
            None => Err(ProjectionError::MalformedStatement),
        },
        _ => {
            let table_info = StatementSchema::new(label_of(kind), Vec::new(), OrderedMap::new());
            proof {
                assert(table_info@.requested_fields =~= Seq::<Seq<char>>::empty());
                assert(table_info@.alias_map =~= Map::<Seq<char>, Seq<char>>::empty());
            }
            Ok(StatementInfo { statement_name: name, table_info })
        },
    }
}

/// Records every statement of a parsed query, in order. Fails with
/// `MalformedStatement` exactly if some statement is malformed.
pub fn extract_statement_info(statements: Vec<ParsedStatement>) -> (extracted: Result<
    Vec<StatementInfo>,
    ProjectionError,
>)
    ensures
        match extracted {
            Ok(infos) => {
                &&& infos@.len() == statements@.len()
                &&& forall|i: int|
                    0 <= i < statements@.len() ==> !is_malformed(#[trigger] statements@[i]@)
                &&& forall|i: int|
                    0 <= i < statements@.len() ==> (#[trigger] infos@[i])@ == statement_info(
                        statements@[i]@,
                    )
            },
            Err(error) => {
                &&& error@ == ErrorView::MalformedStatement
                &&& exists|i: int|
                    0 <= i < statements@.len() && is_malformed(#[trigger] statements@[i]@)
            },
        },
{
    let ghost all = statements@;
    let mut rest = statements;
    let mut infos: Vec<StatementInfo> = Vec::new();
    let n = rest.len();
    let mut i: usize = 0;
    while i < n
        invariant
            i <= n,
            n == all.len(),
            all == statements@,
            rest@ == all.skip(i as int),
            infos@.len() == i,
            forall|j: int| 0 <= j < i ==> !is_malformed(#[trigger] all[j]@),
            forall|j: int| 0 <= j < i ==> (#[trigger] infos@[j])@ == statement_info(all[j]@),
        decreases n - i,
    {
        let statement = rest.remove(0);
        proof {
            assert(statement == all[i as int]);
            assert(rest@ =~= all.skip(i as int + 1));
        }
        match record_statement(statement) {
            Ok(info) => {
                infos.push(info);
            },
            Err(error) => {
                assert(is_malformed(all[i as int]@));
                return Err(error);
            },
        }
        i += 1;
    }
    Ok(infos)
}

/// The schema of the query: taken from the first record of a select
/// statement, or empty where there is none.
pub fn select_schema(stmt_info: Vec<StatementInfo>) -> (schema: StatementSchema)
    ensures
        schema@ == selected_schema(infos_view(stmt_info@)),
{
    let ghost all = infos_view(stmt_info@);
    let mut infos = stmt_info;
    let n = infos.len();
    let mut i: usize = 0;
    proof {
        assert(all.skip(0) =~= all);
    }
    while i < n
        invariant
            i <= n,
            n == infos@.len(),
            all == infos_view(infos@),
            all == infos_view(stmt_info@),
            selected_schema(all) == selected_schema(all.skip(i as int)),
        decreases n - i,
    {
        proof {
            assert(all.skip(i as int).first() == infos@[i as int]@);
            assert(all.skip(i as int).drop_first() =~= all.skip(i as int + 1));
        }
        if str_eq(infos[i].statement_name.as_str(), "select") {
            let ghost found = infos@[i as int];
            assert(is_select(all.skip(i as int).first()));
            let info = infos.remove(i);
            assert(info == found);
            return info.table_info;
        }
        i += 1;
    }
    StatementSchema::empty()
}

} // verus!
