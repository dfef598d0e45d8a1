//! Rows as the engine hands them over, and the records that projection
//! produces from them.

use vstd::prelude::*;
use crate::ordered_map::OrderedMap;
use crate::value::{AttributeView, RenderedValue, RenderedView, TypedAttributeValue};

verus! {

/// A row of an evaluation result: its attributes by name.
pub type Row = OrderedMap<TypedAttributeValue>;

/// Mathematical model of a [`Row`].
pub type RowView = Map<Seq<char>, AttributeView>;

/// Mathematical model of an [`OutputRecord`]: its columns in order, each a
/// key and a value.
pub type RecordView = Seq<(Seq<char>, RenderedView)>;

/// The models of a list of rows, in order.
pub open spec fn rows_view(rows: Seq<Row>) -> Seq<RowView> {
    Seq::new(rows.len(), |i: int| rows[i]@)
}

/// The models of a list of groups of rows, in order.
pub open spec fn groups_view(groups: Seq<Vec<Row>>) -> Seq<Seq<RowView>> {
    Seq::new(groups.len(), |i: int| rows_view(groups[i]@))
}

/// The models of a list of records, in order.
pub open spec fn records_view(records: Seq<OutputRecord>) -> Seq<RecordView> {
    Seq::new(records.len(), |i: int| records[i]@)
}

/// One record of the output: columns in the order in which they were
/// appended.
#[derive(Clone, Debug, PartialEq, Eq)]
pub struct OutputRecord {
    columns: Vec<(String, RenderedValue)>,
}

impl View for OutputRecord {
    type V = RecordView;

    closed spec fn view(&self) -> RecordView {
        Seq::new(self.columns@.len(), |i: int| (self.columns@[i].0@, self.columns@[i].1@))
    }
}

impl OutputRecord {
    /// A record without columns.
    pub fn new() -> (record: Self)
        ensures
            record@ == Seq::<(Seq<char>, RenderedView)>::empty(),
    {
        let record = OutputRecord { columns: Vec::new() };
        assert(record@ =~= Seq::<(Seq<char>, RenderedView)>::empty());
        record
    }

    /// Appends a column.
    pub fn push(&mut self, key: String, value: RenderedValue)
        ensures
            final(self)@ == old(self)@.push((key@, value@)),
    {
        let ghost column = (key@, value@);
        self.columns.push((key, value));
        assert(self@ =~= old(self)@.push(column));
    }

    /// The number of columns.
    pub fn len(&self) -> (n: usize)
        ensures
            n == self@.len(),
    {
        self.columns.len()
    }

    /// The key of the `i`-th column.
    pub fn key_at(&self, i: usize) -> (key: &str)
        requires
            i < self@.len(),
        ensures
            key@ == self@[i as int].0,
    {
        self.columns[i].0.as_str()
    }

    /// The value of the `i`-th column.
    pub fn value_at(&self, i: usize) -> (value: &RenderedValue)
        requires
            i < self@.len(),
        ensures
            value@ == self@[i as int].1,
    {
        &self.columns[i].1
    }
}

} // verus!
