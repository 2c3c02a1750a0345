//! First-match lookup in a table of `(key, value)` rows, and what it finds.

use vstd::prelude::*;

verus! {

/// Looks `key` up in a table of `(key, value)` rows; the first matching row wins.
pub open spec fn lookup<V>(rows: Seq<(Seq<char>, V)>, key: Seq<char>) -> Option<V>
    decreases rows.len(),
{
    if rows.len() == 0 {
        None
    } else if rows[0].0 == key {
        Some(rows[0].1)
    } else {
        lookup(rows.drop_first(), key)
    }
}

/// No two rows of the table share a key.
pub open spec fn keys_unique<V>(rows: Seq<(Seq<char>, V)>) -> bool {
    forall|i: int, j: int| 0 <= i < j < rows.len() ==> rows[i].0 != rows[j].0
}

/// A key that occurs in no row of the table.
pub open spec fn absent<V>(rows: Seq<(Seq<char>, V)>, key: Seq<char>) -> bool {
    forall|i: int| 0 <= i < rows.len() ==> rows[i].0 != key
}

/// A first-match lookup in a table without repeated keys finds every row.
pub proof fn lemma_lookup_row<V>(rows: Seq<(Seq<char>, V)>, i: int)
    requires
        keys_unique(rows),
        0 <= i < rows.len(),
    ensures
        lookup(rows, rows[i].0) == Some(rows[i].1),
    decreases rows.len(),
{
    if i > 0 {
        let t = rows.drop_first();
        assert(rows[0].0 != rows[i].0);
        assert(t[i - 1] == rows[i]);
        assert(keys_unique(t)) by {
            assert forall|a: int, b: int| 0 <= a < b < t.len() implies t[a].0 != t[b].0 by {
                assert(t[a] == rows[a + 1] && t[b] == rows[b + 1]);
            }
        }
        lemma_lookup_row(t, i - 1);
    }
}

/// A lookup of a key that no row holds finds nothing.
pub proof fn lemma_lookup_absent<V>(rows: Seq<(Seq<char>, V)>, key: Seq<char>)
    requires
        absent(rows, key),
    ensures
        lookup(rows, key) is None,
    decreases rows.len(),
{
    if rows.len() > 0 {
        let t = rows.drop_first();
        assert forall|a: int| 0 <= a < t.len() implies t[a].0 != key by {
            assert(t[a] == rows[a + 1]);
        }
        lemma_lookup_absent(t, key);
    }
}

} // verus!
