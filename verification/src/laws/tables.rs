//! Laws of the file table: its order, and the mapping that it stands for.
use vstd::prelude::*;

verus! {

broadcast use vstd::string::group_string_axioms;

/// Two texts are ordered by what they have behind the start that they share: the one that ends
/// there comes first, else the one with the smaller character. No text comes before itself.
pub proof fn law_order_is_by_first_difference(start: Seq<char>, a: Seq<char>, b: Seq<char>)
    requires
        b.len() > 0,
        a.len() > 0 ==> (a[0] as int) < (b[0] as int),
    ensures
        crate::table::precedes(start + a, start + b),
        !crate::table::precedes(start + b, start + a),
        !crate::table::precedes(start, start),
    decreases start.len(),
{
    if start.len() > 0 {
        let rest = start.drop_first();
        law_order_is_by_first_difference(rest, a, b);
        assert((start + a).drop_first() =~= rest + a);
        assert((start + b).drop_first() =~= rest + b);
    } else {
        assert(start + a =~= a);
        assert(start + b =~= b);
    }
}

/// A row before another in a table that is in order has a path that comes before the other's.
pub proof fn law_rows_are_in_order(rows: Seq<(Seq<char>, Seq<char>)>, i: int, j: int)
    requires
        crate::table::ordered(rows),
        0 <= i < j < rows.len(),
    ensures
        crate::table::precedes(rows[i].0, rows[j].0),
        rows[i].0 != rows[j].0,
{
    let b = seq!['a'];
    law_order_is_by_first_difference(rows[i].0, Seq::empty(), b);
}

/// A table maps the path of each row to the row's content id, and no other path to anything.
pub proof fn law_table_maps_its_rows(rows: Seq<(Seq<char>, Seq<char>)>, key: Seq<char>)
    requires
        crate::table::ordered(rows),
    ensures
        forall|i: int|
            0 <= i < rows.len() ==> crate::table::as_map(rows).dom().contains(
                #[trigger] rows[i].0,
            ) && crate::table::as_map(rows)[rows[i].0] == rows[i].1,
        (forall|i: int| 0 <= i < rows.len() ==> #[trigger] rows[i].0 != key)
            ==> !crate::table::as_map(rows).dom().contains(key),
{
    assert forall|i: int| 0 <= i < rows.len() implies crate::table::as_map(rows).dom().contains(
        #[trigger] rows[i].0,
    ) && crate::table::as_map(rows)[rows[i].0] == rows[i].1 by {
        assert(crate::table::row_of(rows, rows[i].0, i));
        crate::table::lemma_row_unique(rows, rows[i].0, i);
    }
}

} // verus!
