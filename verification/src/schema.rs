//! What a query asked for: the table it selects from, the fields it
//! requested and the aliases it gave them.

use vstd::prelude::*;
use crate::ordered_map::OrderedMap;
use crate::text::{contains_name, names_view};

verus! {

/// A map from a requested field to the name of the attribute it reads from.
pub type AliasMap = OrderedMap<String>;

/// Mathematical model of a [`StatementSchema`].
pub struct SchemaView {
    pub table_name: Seq<char>,
    pub requested_fields: Seq<Seq<char>>,
    pub alias_map: Map<Seq<char>, Seq<char>>,
}

/// The aliases of `alias_map` whose field is among `fields`.
pub open spec fn requested_aliases(
    alias_map: Map<Seq<char>, Seq<char>>,
    fields: Seq<Seq<char>>,
) -> Map<Seq<char>, Seq<char>> {
    Map::new(
        |field: Seq<char>| alias_map.contains_key(field) && fields.contains(field),
        |field: Seq<char>| alias_map[field],
    )
}

/// The name of the attribute that a column reads from: the alias given to
/// the column, or the column's own name where it has none.
pub open spec fn source_name(alias_map: Map<Seq<char>, Seq<char>>, column: Seq<char>) -> Seq<
    char,
> {
    if alias_map.contains_key(column) {
        alias_map[column]
    } else {
        column
    }
}

/// The schema intent of a query. Every alias belongs to a requested field;
/// a requested field without alias reads from the attribute of its own name.
#[derive(Debug, PartialEq, Eq)]
pub struct StatementSchema {
    table_name: String,
    requested_fields: Vec<String>,
    alias_map: AliasMap,
}

impl View for StatementSchema {
    type V = SchemaView;

    closed spec fn view(&self) -> SchemaView {
        SchemaView {
            table_name: self.table_name@,
            requested_fields: names_view(self.requested_fields@),
            alias_map: self.alias_map@,
        }
    }
}

impl StatementSchema {
    #[verifier::type_invariant]
    spec fn aliases_are_requested(self) -> bool {
        forall|field: Seq<char>| #[trigger]
            self.alias_map@.contains_key(field) ==> names_view(self.requested_fields@).contains(
                field,
            )
    }

    /// The schema of a query on `table_name` that requests `requested_fields`
    /// in that order. Of `alias_map` it keeps the aliases of requested
    /// fields; an alias of any other name is dropped.
    pub fn new(table_name: String, requested_fields: Vec<String>, alias_map: AliasMap) -> (schema:
        Self)
        ensures
            schema@.table_name == table_name@,
            schema@.requested_fields == names_view(requested_fields@),
            schema@.alias_map == requested_aliases(alias_map@, names_view(requested_fields@)),
    {
        let ghost fields = names_view(requested_fields@);
        let mut kept: AliasMap = OrderedMap::new();
        let n = alias_map.len();
        let mut i: usize = 0;
        while i < n
            invariant
                i <= n,
                n == alias_map.names().len(),
                alias_map.names().no_duplicates(),
                fields == names_view(requested_fields@),
                kept@ =~= Map::new(
                    |field: Seq<char>|
                        alias_map.names().take(i as int).contains(field) && fields.contains(field),
                    |field: Seq<char>| alias_map@[field],
                ),
            decreases n - i,
        {
            let name = alias_map.name_at(i);
            let target = alias_map.value_at(i);
            let ghost before = kept@;
            let ghost seen = alias_map.names().take(i as int);
            let ghost next = alias_map.names().take(i as int + 1);
            proof {
                assert(next =~= seen.push(name@));
                assert forall|field: Seq<char>| next.contains(field) <==> (seen.contains(field)
                    || field == name@) by {
                    if next.contains(field) {
                        let j = next.index_of(field);
                        assert(next[j] == field);
                        if j < i {
                            assert(seen[j] == field);
                        }
                    }
                    if seen.contains(field) {
                        let j = seen.index_of(field);
                        assert(seen[j] == field);
                        assert(next[j] == field);
                    }
                    if field == name@ {
                        assert(next[i as int] == field);
                    }
                }
            }
            if contains_name(&requested_fields, name) {
                kept.insert(name.to_owned(), target.clone());
            }
            i += 1;
        }
        proof {
            alias_map.lemma_names_are_keys();
            assert(alias_map.names().take(n as int) =~= alias_map.names());
            assert(kept@ =~= requested_aliases(alias_map@, fields));
        }
        StatementSchema { table_name, requested_fields, alias_map: kept }
    }

    /// The schema of a query without select statement: no table, no fields.
    pub fn empty() -> (schema: Self)
        ensures
            schema@.table_name == Seq::<char>::empty(),
            schema@.requested_fields == Seq::<Seq<char>>::empty(),
            schema@.alias_map == Map::<Seq<char>, Seq<char>>::empty(),
    {
        let schema = StatementSchema {
            table_name: String::new(),
            requested_fields: Vec::new(),
            alias_map: OrderedMap::new(),
        };
        assert(schema@.requested_fields =~= Seq::<Seq<char>>::empty());
        schema
    }

    /// The name of the table selected from.
    pub fn table_name(&self) -> (name: &str)
        ensures
            name@ == self@.table_name,
    {
        self.table_name.as_str()
    }

    /// The requested fields, in the order of the query.
    pub fn requested_fields(&self) -> (fields: &Vec<String>)
        ensures
            names_view(fields@) == self@.requested_fields,
    {
        &self.requested_fields
    }

    /// The aliases of the requested fields.
    pub fn alias_map(&self) -> (aliases: &AliasMap)
        ensures
            aliases@ == self@.alias_map,
            forall|field: Seq<char>| #[trigger]
                aliases@.contains_key(field) ==> self@.requested_fields.contains(field),
    {
        proof {
            use_type_invariant(self);
        }
        &self.alias_map
    }

    /// Whether the query requested the field `name`.
    pub fn requests(&self, name: &str) -> (requested: bool)
        ensures
            requested == self@.requested_fields.contains(name@),
    {
        contains_name(&self.requested_fields, name)
    }

    /// The name of the attribute that `column` reads from.
    pub fn source_of(&self, column: &str) -> (source: String)
        ensures
            source@ == source_name(self@.alias_map, column@),
    {
        match self.alias_map.get(column) {
            Some(target) => target.clone(),
            None => column.to_owned(),
        }
    }
}

} // verus!
