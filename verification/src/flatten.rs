//! Collapsing the groups of an evaluation result into one group.

use vstd::prelude::*;
use crate::record::{groups_view, rows_view, Row};

verus! {

/// The contents of a list of groups, in order.
pub open spec fn group_contents<T>(groups: Seq<Vec<T>>) -> Seq<Seq<T>> {
    Seq::new(groups.len(), |i: int| groups[i]@)
}

/// Replaces the groups by one group that holds the rows of all of them:
/// group after group, and within each group in its own order. Where there
/// was no group, the one group is empty.
pub fn flat_gql_groups(groups: &mut Vec<Vec<Row>>)
    ensures
        final(groups)@.len() == 1,
        final(groups)@[0]@ == group_contents(old(groups)@).flatten(),
{
    let ghost before = group_contents(groups@);
    let mut main_group: Vec<Row> = Vec::new();
    let n = groups.len();
    let mut i: usize = 0;
    while i < n
        invariant
            i <= n,
            n == groups@.len(),
            before.len() == n,
            main_group@ == before.take(i as int).flatten(),
            forall|j: int| i <= j < n ==> groups@[j]@ == before[j],
        decreases n - i,
    {
        let ghost moved = groups@[i as int]@;
        let ghost rest = groups@;
        let mut group: Vec<Row> = Vec::new();
        core::mem::swap(&mut groups[i], &mut group);
        main_group.append(&mut group);
        proof {
            assert(before.take(i as int + 1) =~= before.take(i as int).push(moved));
            before.take(i as int).lemma_flatten_push(moved);
        }
        i += 1;
    }
    proof {
        assert(before.take(n as int) =~= before);
    }
    groups.clear();
    groups.push(main_group);
}

/// Flattening the models of groups gives the models of the flattened rows.
pub proof fn lemma_flatten_views(groups: Seq<Vec<Row>>)
    ensures
        rows_view(group_contents(groups).flatten()) == groups_view(groups).flatten(),
    decreases groups.len(),
{
    let contents = group_contents(groups);
    let views = groups_view(groups);
    if groups.len() == 0 {
        assert(rows_view(contents.flatten()) =~= views.flatten());
    } else {
        let head = groups.drop_last();
        lemma_flatten_views(head);
        assert(contents =~= group_contents(head).push(groups.last()@));
        assert(views =~= groups_view(head).push(rows_view(groups.last()@)));
        group_contents(head).lemma_flatten_push(groups.last()@);
        groups_view(head).lemma_flatten_push(rows_view(groups.last()@));
        assert(rows_view(contents.flatten()) =~= views.flatten());
    }
}

} // verus!
