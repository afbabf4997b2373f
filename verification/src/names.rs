//! The reference resolver: an in-memory reference table (tags, companies or
//! categories) that maps display names to small integer surrogate keys and
//! back. Ids are assigned on insertion, first row getting id 1.

use vstd::prelude::*;
use crate::models::Name;
use crate::text::str_eq;

verus! {

/// One reference table. The `i`-th row always carries id `i + 1`, which is
/// the table's well-formedness invariant.
#[derive(Debug)]
pub struct NameTable {
    pub rows: Vec<Name>,
}

/// Every row's id is its position plus one, so ids are unique and dense.
pub open spec fn table_wf(rows: Seq<Name>) -> bool {
    forall|i: int| 0 <= i < rows.len() ==> (#[trigger] rows[i]).id == i + 1
}

/// Some row of the table carries this display name.
pub open spec fn table_has_name(rows: Seq<Name>, n: Seq<char>) -> bool {
    exists|i: int| 0 <= i < rows.len() && (#[trigger] rows[i]).name@ == n
}

/// Index of the first row carrying this display name; -1 when there is none.
/// Lookup by name picks the first match, so a duplicate name resolves
/// deterministically.
pub open spec fn name_index(rows: Seq<Name>, n: Seq<char>) -> int
    decreases rows.len(),
{
    if rows.len() == 0 {
        -1
    } else if rows[0].name@ == n {
        0
    } else {
        let r = name_index(rows.subrange(1, rows.len() as int), n);
        if r == -1 {
            -1
        } else {
            r + 1
        }
    }
}

/// The name a given id resolves to: the row at position `id - 1` of a
/// well-formed table, absent when the id is out of range.
pub open spec fn spec_name_of(rows: Seq<Name>, id: int) -> Option<Seq<char>> {
    if 1 <= id <= rows.len() {
        Some(rows[id - 1].name@)
    } else {
        None
    }
}

proof fn lemma_name_index_found(rows: Seq<Name>, n: Seq<char>)
    requires
        table_has_name(rows, n),
    ensures
        0 <= name_index(rows, n) < rows.len(),
        rows[name_index(rows, n)].name@ == n,
    decreases rows.len(),
{
    if rows.len() > 0 && rows[0].name@ != n {
        let tail = rows.subrange(1, rows.len() as int);
        assert(table_has_name(tail, n)) by {
            let i = choose|i: int| 0 <= i < rows.len() && (#[trigger] rows[i]).name@ == n;
            assert(tail[i - 1].name@ == n);
        }
        lemma_name_index_found(tail, n);
    }
}

proof fn lemma_name_index_absent(rows: Seq<Name>, n: Seq<char>)
    requires
        !table_has_name(rows, n),
    ensures
        name_index(rows, n) == -1,
    decreases rows.len(),
{
    if rows.len() > 0 {
        assert(rows[0].name@ != n);
        let tail = rows.subrange(1, rows.len() as int);
        assert(!table_has_name(tail, n)) by {
            if table_has_name(tail, n) {
                let i = choose|i: int| 0 <= i < tail.len() && (#[trigger] tail[i]).name@ == n;
                assert(rows[i + 1].name@ == n);
            }
        }
        lemma_name_index_absent(tail, n);
    }
}

/// The index found by a left-to-right scan that saw no match before `i` is
/// the first-match index.
proof fn lemma_name_index_at(rows: Seq<Name>, n: Seq<char>, i: int)
    requires
        0 <= i < rows.len(),
        rows[i].name@ == n,
        forall|m: int| 0 <= m < i ==> (#[trigger] rows[m]).name@ != n,
    ensures
        name_index(rows, n) == i,
    decreases rows.len(),
{
    if i == 0 {
    } else {
        let tail = rows.subrange(1, rows.len() as int);
        assert(tail[i - 1].name@ == n);
        assert(forall|m: int| 0 <= m < i - 1 ==> (#[trigger] tail[m]).name@ != n) by {
            assert(forall|m: int| 0 <= m < i - 1 ==> tail[m] == #[trigger] rows[m + 1]);
        }
        lemma_name_index_at(tail, n, i - 1);
    }
}

impl NameTable {
    /// An empty reference table.
    pub fn new() -> (r: NameTable)
        ensures
            r.rows@ =~= Seq::<Name>::empty(),
            table_wf(r.rows@),
    {
        NameTable { rows: Vec::new() }
    }

    /// Insert a display name with its description; the new row is appended
    /// and receives the next id, which is returned.
    pub fn insert(&mut self, name: &str, description: &str) -> (id: i32)
        requires
            table_wf(old(self).rows@),
            old(self).rows@.len() < 0x7fff_ffff,
        ensures
            table_wf(final(self).rows@),
            final(self).rows@.len() == old(self).rows@.len() + 1,
            id == old(self).rows@.len() + 1,
            final(self).rows@ == old(self).rows@.push(
                Name { id, name: final(self).rows@.last().name, description: final(self).rows@.last().description },
            ),
            final(self).rows@.last().name@ == name@,
            final(self).rows@.last().description@ == description@,
    {
        let id = (self.rows.len() as i32) + 1;
        let row = Name { id, name: name.to_owned(), description: description.to_owned() };
        self.rows.push(row);
        id
    }

    /// Resolve a display name to its id: the id of the first row carrying the
    /// name, or `None` when no row does.
    pub fn get_id(&self, name: &str) -> (r: Option<i32>)
        ensures
            r is Some <==> table_has_name(self.rows@, name@),
            r is Some ==> r == Some(self.rows@[name_index(self.rows@, name@)].id),
    {
        let n = self.rows.len();
        let mut i: usize = 0;
        while i < n
            invariant
                i <= n == self.rows@.len(),
                forall|m: int| 0 <= m < i ==> (#[trigger] self.rows@[m]).name@ != name@,
            decreases n - i,
        {
            if str_eq(self.rows[i].name.as_str(), name) {
                proof {
                    lemma_name_index_at(self.rows@, name@, i as int);
                }
                return Some(self.rows[i].id);
            }
            i += 1;
        }
        proof {
            if table_has_name(self.rows@, name@) {
                let m = choose|m: int|
                    0 <= m < self.rows@.len() && (#[trigger] self.rows@[m]).name@ == name@;
                assert(false);
            }
        }
        None
    }

    /// Resolve an id to its display name. In a well-formed table this is the
    /// name of the row at position `id - 1`; `None` when the id is out of
    /// range.
    pub fn get_name(&self, id: i32) -> (r: Option<String>)
        requires
            table_wf(self.rows@),
        ensures
            r is Some <==> spec_name_of(self.rows@, id as int) is Some,
            r matches Some(s) ==> spec_name_of(self.rows@, id as int) == Some(s@),
    {
        if id >= 1 && (id as usize) <= self.rows.len() {
            Some(self.rows[(id as usize) - 1].name.clone())
        } else {
            None
        }
    }

    /// All rows, in id order.
    pub fn all(&self) -> (r: &Vec<Name>)
        ensures
            r == &self.rows,
    {
        &self.rows
    }

    /// How many names the table holds.
    pub fn len(&self) -> (r: usize)
        ensures
            r == self.rows@.len(),
    {
        self.rows.len()
    }
}

/// Name resolution round-trips: in a well-formed table that holds a name,
/// resolving the name to an id and the id back to a name returns the very
/// name that was looked up.
pub proof fn lemma_name_resolution_round_trip(rows: Seq<Name>, n: Seq<char>)
    requires
        table_wf(rows),
        table_has_name(rows, n),
    ensures
        ({
            let idx = name_index(rows, n);
            &&& 0 <= idx < rows.len()
            &&& spec_name_of(rows, rows[idx].id as int) == Some(n)
        }),
{
    lemma_name_index_found(rows, n);
    let idx = name_index(rows, n);
    assert(rows[idx].id == idx + 1);
}

} // verus!
