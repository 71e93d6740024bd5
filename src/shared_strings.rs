//! The shared string table: each distinct text of the workbook's cells,
//! stored once and referred to by its index.
use vstd::prelude::*;
use crate::xml::{append, bytes_eq};

verus! {

/// No text occurs twice.
pub open spec fn distinct(t: Seq<Seq<u8>>) -> bool {
    forall|i: int, j: int| 0 <= i < j < t.len() ==> t[i] != t[j]
}

/// Interning `v` into the table `t`: the table after, and the index of `v`
/// in it. A text already there keeps its index and leaves the table as it
/// was; a new one is appended.
pub open spec fn intern_spec(t: Seq<Seq<u8>>, v: Seq<u8>) -> (Seq<Seq<u8>>, nat) {
    if t.contains(v) {
        (t, (choose|i: int| 0 <= i < t.len() && t[i] == v) as nat)
    } else {
        (t.push(v), t.len())
    }
}

pub struct SharedStringTable {
    strings: Vec<Vec<u8>>,
}

impl View for SharedStringTable {
    type V = Seq<Seq<u8>>;

    closed spec fn view(&self) -> Seq<Seq<u8>> {
        self.strings@.map_values(|s: Vec<u8>| s@)
    }
}

impl SharedStringTable {
    pub fn new() -> (r: SharedStringTable)
        ensures
            r@ == Seq::<Seq<u8>>::empty(),
            distinct(r@),
    {
        let r = SharedStringTable { strings: Vec::new() };
        assert(r@ =~= Seq::<Seq<u8>>::empty());
        r
    }

    pub fn len(&self) -> (r: usize)
        ensures
            r == self@.len(),
    {
        self.strings.len()
    }

    /// The text at `index`.
    pub fn get(&self, index: usize) -> (r: &Vec<u8>)
        requires
            index < self@.len(),
        ensures
            r@ == self@[index as int],
    {
        &self.strings[index]
    }

    /// The index of `value`, which is added where it is not there yet.
    pub fn intern(&mut self, value: &[u8]) -> (r: usize)
        requires
            distinct(old(self)@),
        ensures
            distinct(final(self)@),
            (final(self)@, r as nat) == intern_spec(old(self)@, value@),
            final(self)@[r as int] == value@,
    {
        let mut i: usize = 0;
        while i < self.strings.len()
            invariant
                0 <= i <= self@.len(),
                self@ == old(self)@,
                distinct(self@),
                forall|j: int| 0 <= j < i ==> self@[j] != value@,
            decreases self@.len() - i,
        {
            if bytes_eq(self.strings[i].as_slice(), value) {
                proof {
                    let t = self@;
                    assert(t.contains(value@)) by {
                        assert(t[i as int] == value@);
                    }
                    let c = choose|k: int| 0 <= k < t.len() && t[k] == value@;
                    assert(c == i) by {
                        if c < i {
                            assert(t[c] != value@);
                        } else if c > i {
                            assert(t[i as int] != t[c]);
                        }
                    }
                }
                assert(keeps_texts(old(self)@, self@));
                return i;
            }
            i = i + 1;
        }
        let ghost t = self@;
        assert(!t.contains(value@));
        let mut copy: Vec<u8> = Vec::new();
        append(&mut copy, value);
        assert(copy@ =~= value@);
        self.strings.push(copy);
        assert(self@ =~= t.push(value@));
        i
    }
}

/// `after` starts with the texts of `before`, at the same indices.
pub open spec fn keeps_texts(before: Seq<Seq<u8>>, after: Seq<Seq<u8>>) -> bool {
    &&& before.len() <= after.len()
    &&& forall|x: int| 0 <= x < before.len() ==> #[trigger] after[x] == before[x]
}

/// Each cell of `rows` has at its place in `indices` the index of its own
/// text in `table`.
pub open spec fn indexes_cells(
    table: Seq<Seq<u8>>,
    rows: Seq<Seq<Seq<u8>>>,
    indices: Seq<Seq<usize>>,
) -> bool {
    &&& indices.len() == rows.len()
    &&& forall|i: int|
        0 <= i < rows.len() ==> {
            &&& (#[trigger] indices[i]).len() == rows[i].len()
            &&& forall|j: int|
                0 <= j < rows[i].len() ==> {
                    &&& (#[trigger] indices[i][j]) < table.len()
                    &&& table[indices[i][j] as int] == rows[i][j]
                }
        }
}

pub open spec fn rows_view(rows: Seq<Vec<Vec<u8>>>) -> Seq<Seq<Seq<u8>>> {
    rows.map_values(|r: Vec<Vec<u8>>| r@.map_values(|c: Vec<u8>| c@))
}

pub open spec fn indices_view(v: Seq<Vec<usize>>) -> Seq<Seq<usize>> {
    v.map_values(|r: Vec<usize>| r@)
}

/// Interns the text of every cell, row by row, and gives the index of each
/// cell's text; texts already in the table keep their indices.
pub fn intern_rows(table: &mut SharedStringTable, rows: &Vec<Vec<Vec<u8>>>) -> (r: Vec<Vec<usize>>)
    requires
        distinct(old(table)@),
    ensures
        distinct(final(table)@),
        keeps_texts(old(table)@, final(table)@),
        indexes_cells(final(table)@, rows_view(rows@), indices_view(r@)),
{
    let ghost rv = rows_view(rows@);
    let mut out: Vec<Vec<usize>> = Vec::new();
    let mut i: usize = 0;
    while i < rows.len()
        invariant
            0 <= i <= rows@.len(),
            rv == rows_view(rows@),
            distinct(table@),
            keeps_texts(old(table)@, table@),
            indexes_cells(table@, rv.take(i as int), indices_view(out@)),
        decreases rows@.len() - i,
    {
        let row = &rows[i];
        assert(rv[i as int] == row@.map_values(|c: Vec<u8>| c@));
        let ghost t0 = table@;
        let mut idx: Vec<usize> = Vec::new();
        let mut j: usize = 0;
        while j < row.len()
            invariant
                0 <= j <= row@.len(),
                rv == rows_view(rows@),
                rv[i as int] == row@.map_values(|c: Vec<u8>| c@),
                distinct(table@),
                keeps_texts(old(table)@, table@),
                keeps_texts(t0, table@),
                idx@.len() == j,
                forall|k: int| 0 <= k < j ==> (#[trigger] idx@[k]) < table@.len() && table@[idx@[k] as int]
                    == rv[i as int][k],
            decreases row@.len() - j,
        {
            let x = table.intern(row[j].as_slice());
            idx.push(x);
            j = j + 1;
        }
        let ghost before = indices_view(out@);
        out.push(idx);
        proof {
            assert(indices_view(out@) =~= before.push(idx@));
            assert(rv.take(i as int + 1) =~= rv.take(i as int).push(rv[i as int]));
            assert forall|a: int| 0 <= a < i + 1 implies {
                &&& (#[trigger] indices_view(out@)[a]).len() == rv.take(i as int + 1)[a].len()
                &&& forall|b: int|
                    0 <= b < rv.take(i as int + 1)[a].len() ==> {
                        &&& (#[trigger] indices_view(out@)[a][b]) < table@.len()
                        &&& table@[indices_view(out@)[a][b] as int] == rv.take(i as int + 1)[a][b]
                    }
            } by {
                if a < i {
                    assert(indices_view(out@)[a] == before[a]);
                    assert(rv.take(i as int + 1)[a] == rv.take(i as int)[a]);
                    assert forall|b: int| 0 <= b < rv.take(i as int + 1)[a].len() implies {
                        &&& (#[trigger] indices_view(out@)[a][b]) < table@.len()
                        &&& table@[indices_view(out@)[a][b] as int] == rv.take(i as int + 1)[a][b]
                    } by {
                        assert(before[a][b] < t0.len());
                        assert(t0[before[a][b] as int] == rv.take(i as int)[a][b]);
                    }
                }
            }
        }
        i = i + 1;
    }
    assert(rv.take(i as int) =~= rv);
    out
}

/// Interning a text a second time gives the same index and leaves the
/// table unchanged.
pub proof fn lemma_intern_idempotent(t: Seq<Seq<u8>>, v: Seq<u8>)
    requires
        distinct(t),
    ensures
        intern_spec(intern_spec(t, v).0, v) == intern_spec(t, v),
{
    let (u, i) = intern_spec(t, v);
    assert(u.contains(v)) by {
        if t.contains(v) {
        } else {
            assert(u[t.len() as int] == v);
        }
    }
    let c = choose|k: int| 0 <= k < u.len() && u[k] == v;
    if t.contains(v) {
    } else {
        assert(c == t.len()) by {
            if c < t.len() {
                assert(t.contains(v)) by {
                    assert(t[c] == v);
                }
            }
        }
    }
}

} // verus!
