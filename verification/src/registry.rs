//! The columns that each known table declares, in display order.

use vstd::prelude::*;
use crate::text::str_eq;
use crate::value::ValueKind;

verus! {

/// Mathematical model of a table's columns: name and kind of each, in display
/// order.
pub type ColumnsView = Seq<(Seq<char>, ValueKind)>;

/// The columns of the references table, which answers to two names.
pub open spec fn references_columns() -> ColumnsView {
    seq![
        ("name"@, ValueKind::Text),
        ("full_name"@, ValueKind::Text),
        ("type"@, ValueKind::Text),
        ("repo"@, ValueKind::Text),
    ]
}

/// The columns of the commits table.
pub open spec fn commits_columns() -> ColumnsView {
    seq![
        ("commit_id"@, ValueKind::Text),
        ("title"@, ValueKind::Text),
        ("message"@, ValueKind::Text),
        ("name"@, ValueKind::Text),
        ("email"@, ValueKind::Text),
        ("datetime"@, ValueKind::Text),
        ("repo"@, ValueKind::Text),
    ]
}

/// The columns of the diffs table.
pub open spec fn diffs_columns() -> ColumnsView {
    seq![
        ("commit_id"@, ValueKind::Text),
        ("name"@, ValueKind::Text),
        ("email"@, ValueKind::Text),
        ("insertions"@, ValueKind::Integer),
        ("deletions"@, ValueKind::Integer),
        ("files_changed"@, ValueKind::Integer),
        ("repo"@, ValueKind::Text),
    ]
}

/// The columns of the branches table.
pub open spec fn branches_columns() -> ColumnsView {
    seq![
        ("name"@, ValueKind::Text),
        ("commit_count"@, ValueKind::Integer),
        ("is_head"@, ValueKind::Boolean),
        ("is_remote"@, ValueKind::Boolean),
        ("repo"@, ValueKind::Text),
    ]
}

/// The columns of the tags table.
pub open spec fn tags_columns() -> ColumnsView {
    seq![("name"@, ValueKind::Text), ("repo"@, ValueKind::Text)]
}

/// The columns that the table of the given name declares, or `None` for a
/// name that is not a known table. Names are matched exactly, case included.
pub open spec fn table_spec(table_name: Seq<char>) -> Option<ColumnsView> {
    if table_name == "refs"@ || table_name == "references"@ {
        Some(references_columns())
    } else if table_name == "commits"@ {
        Some(commits_columns())
    } else if table_name == "diffs"@ {
        Some(diffs_columns())
    } else if table_name == "branches"@ {
        Some(branches_columns())
    } else if table_name == "tags"@ {
        Some(tags_columns())
    } else {
        None
    }
}

/// The names of a list of columns, in order.
pub open spec fn column_names(columns: ColumnsView) -> Seq<Seq<char>> {
    Seq::new(columns.len(), |i: int| columns[i].0)
}

/// The ordered column definitions of one table.
#[derive(Clone, Debug, PartialEq, Eq)]
pub struct TableColumnSpec {
    columns: Vec<(String, ValueKind)>,
}

impl View for TableColumnSpec {
    type V = ColumnsView;

    closed spec fn view(&self) -> ColumnsView {
        Seq::new(self.columns@.len(), |i: int| (self.columns@[i].0@, self.columns@[i].1))
    }
}

impl TableColumnSpec {
    /// A specification without columns.
    pub fn new() -> (spec: Self)
        ensures
            spec@ == Seq::<(Seq<char>, ValueKind)>::empty(),
    {
        let spec = TableColumnSpec { columns: Vec::new() };
        assert(spec@ =~= Seq::<(Seq<char>, ValueKind)>::empty());
        spec
    }

    /// Appends a column.
    pub fn with(self, name: &str, kind: ValueKind) -> (spec: Self)
        ensures
            spec@ == self@.push((name@, kind)),
    {
        let mut spec = self;
        spec.columns.push((name.to_owned(), kind));
        assert(spec@ =~= self@.push((name@, kind)));
        spec
    }

    /// The number of columns.
    pub fn len(&self) -> (n: usize)
        ensures
            n == self@.len(),
    {
        self.columns.len()
    }

    /// The name of the `i`-th column.
    pub fn name_at(&self, i: usize) -> (name: &str)
        requires
            i < self@.len(),
        ensures
            name@ == self@[i as int].0,
    {
        self.columns[i].0.as_str()
    }

    /// The kind of the `i`-th column.
    pub fn kind_at(&self, i: usize) -> (kind: ValueKind)
        requires
            i < self@.len(),
        ensures
            kind == self@[i as int].1,
    {
        self.columns[i].1
    }

    /// Whether the table declares a column of the given name.
    pub fn declares(&self, name: &str) -> (declared: bool)
        ensures
            declared == column_names(self@).contains(name@),
    {
        let mut i: usize = 0;
        while i < self.columns.len()
            invariant
                i <= self.columns@.len(),
                forall|j: int| 0 <= j < i ==> self.columns@[j].0@ != name@,
            decreases self.columns@.len() - i,
        {
            if str_eq(self.columns[i].0.as_str(), name) {
                assert(column_names(self@)[i as int] == name@);
                return true;
            }
            i += 1;
        }
        false
    }
}

/// Looks up the columns of a table by its name.
pub fn lookup_table(table_name: &str) -> (found: Option<TableColumnSpec>)
    ensures
        match found {
            Some(spec) => table_spec(table_name@) == Some(spec@),
            None => table_spec(table_name@) is None,
        },
{
    if str_eq(table_name, "refs") || str_eq(table_name, "references") {
        let spec = TableColumnSpec::new().with("name", ValueKind::Text).with(
            "full_name",
            ValueKind::Text,
        ).with("type", ValueKind::Text).with("repo", ValueKind::Text);
        assert(spec@ =~= references_columns());
        Some(spec)
    } else if str_eq(table_name, "commits") {
        let spec = TableColumnSpec::new().with("commit_id", ValueKind::Text).with(
            "title",
            ValueKind::Text,
        ).with("message", ValueKind::Text).with("name", ValueKind::Text).with(
            "email",
            ValueKind::Text,
        ).with("datetime", ValueKind::Text).with("repo", ValueKind::Text);
        assert(spec@ =~= commits_columns());
        Some(spec)
    } else if str_eq(table_name, "diffs") {
        let spec = TableColumnSpec::new().with("commit_id", ValueKind::Text).with(
            "name",
            ValueKind::Text,
        ).with("email", ValueKind::Text).with("insertions", ValueKind::Integer).with(
            "deletions",
            ValueKind::Integer,
        ).with("files_changed", ValueKind::Integer).with("repo", ValueKind::Text);
        assert(spec@ =~= diffs_columns());
        Some(spec)
    } else if str_eq(table_name, "branches") {
        let spec = TableColumnSpec::new().with("name", ValueKind::Text).with(
            "commit_count",
            ValueKind::Integer,
        ).with("is_head", ValueKind::Boolean).with("is_remote", ValueKind::Boolean).with(
            "repo",
            ValueKind::Text,
        );
        assert(spec@ =~= branches_columns());
        Some(spec)
    } else if str_eq(table_name, "tags") {
        let spec = TableColumnSpec::new().with("name", ValueKind::Text).with(
            "repo",
            ValueKind::Text,
        );
        assert(spec@ =~= tags_columns());
        Some(spec)
    } else {
        None
    }
}

} // verus!
