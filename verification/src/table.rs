use crate::principal::Principal;
use vstd::prelude::*;

verus! {

/// One row of a [`Table`].
pub struct Row<V> {
    pub key: Principal,
    pub value: V,
}

/// A durable mapping from principals to records, last writer wins.
///
/// Rows stay in the order in which their keys were first written.
pub struct Table<V> {
    rows: Vec<Row<V>>,
}

/// Row `i` of `rows` exists and is the row of `key`.
pub open spec fn has_row<V>(rows: Seq<Row<V>>, key: Principal, i: int) -> bool {
    0 <= i < rows.len() && rows[i].key == key
}

/// No principal has two rows.
pub open spec fn distinct_keys<V>(rows: Seq<Row<V>>) -> bool {
    forall|i: int, j: int| 0 <= i < j < rows.len() ==> rows[i].key != rows[j].key
}

/// The mapping that `rows` stand for: each key to the value of its row.
pub open spec fn map_of<V>(rows: Seq<Row<V>>) -> Map<Principal, V> {
    Map::new(
        |key: Principal| exists|i: int| has_row(rows, key, i),
        |key: Principal| rows[choose|i: int| has_row(rows, key, i)].value,
    )
}

/// Among rows with distinct keys, the row of a key holds what the mapping
/// gives for it.
pub proof fn lemma_map_of_row<V>(rows: Seq<Row<V>>, key: Principal, i: int)
    requires
        distinct_keys(rows),
        has_row(rows, key, i),
    ensures
        map_of(rows).dom().contains(key),
        map_of(rows)[key] == rows[i].value,
{
    let j = choose|j: int| has_row(rows, key, j);
    assert(has_row(rows, key, j));
    assert(i == j);
}

impl<V> Table<V> {
    /// The rows of the table, in the order in which their keys were first written.
    pub closed spec fn rows(self) -> Seq<Row<V>> {
        self.rows@
    }

    /// No principal has two rows.
    pub open spec fn well_formed(self) -> bool {
        distinct_keys(self.rows())
    }

    /// The mapping the table stands for.
    pub open spec fn view(self) -> Map<Principal, V> {
        map_of(self.rows())
    }

    pub fn new() -> (table: Self)
        ensures
            table.well_formed(),
            table@ == Map::<Principal, V>::empty(),
    {
        let table = Table { rows: Vec::new() };
        assert(table@ =~= Map::<Principal, V>::empty());
        table
    }

    /// Position of the row of `key`, if it has one.
    fn find(&self, key: &Principal) -> (found: Option<usize>)
        requires
            self.well_formed(),
        ensures
            match found {
                Some(i) => has_row(self.rows@, *key, i as int),
                None => !self@.dom().contains(*key),
            },
    {
        let mut i: usize = 0;
        while i < self.rows.len()
            invariant
                i <= self.rows@.len(),
                forall|j: int| 0 <= j < i ==> self.rows@[j].key != *key,
            decreases self.rows@.len() - i,
        {
            if self.rows[i].key.same(key) {
                return Some(i);
            }
            i += 1;
        }
        assert(forall|j: int| !has_row(self.rows@, *key, j));
        None
    }

    /// Whether `key` has a record.
    pub fn contains(&self, key: &Principal) -> (r: bool)
        requires
            self.well_formed(),
        ensures
            r == self@.dom().contains(*key),
    {
        match self.find(key) {
            Some(i) => {
                proof {
                    lemma_map_of_row(self.rows@, *key, i as int);
                }
                true
            },
            None => false,
        }
    }

    /// The record of `key`, if it has one.
    pub fn get(&self, key: &Principal) -> (r: Option<&V>)
        requires
            self.well_formed(),
        ensures
            r == (if self@.dom().contains(*key) {
                Some(&self@[*key])
            } else {
                None
            }),
    {
        match self.find(key) {
            Some(i) => {
                proof {
                    lemma_map_of_row(self.rows@, *key, i as int);
                }
                Some(&self.rows[i].value)
            },
            None => None,
        }
    }

    /// Writes `value` as the record of `key`, replacing the one it had.
    pub fn set(&mut self, key: Principal, value: V)
        requires
            old(self).well_formed(),
        ensures
            final(self).well_formed(),
            final(self)@ == old(self)@.insert(key, value),
    {
        let ghost before = *self;
        match self.find(&key) {
            Some(i) => {
                self.rows.set(i, Row { key, value });
                proof {
                    let after = *self;
                    assert(after.well_formed());
                    assert forall|k: Principal|
                        after@.dom().contains(k) == before@.insert(key, value).dom().contains(
                            k,
                        ) by {
                        if after@.dom().contains(k) {
                            let j = choose|j: int| has_row(after.rows@, k, j);
                            assert(has_row(after.rows@, k, j));
                            assert(has_row(before.rows@, k, j));
                        }
                        if before@.dom().contains(k) {
                            let j = choose|j: int| has_row(before.rows@, k, j);
                            assert(has_row(before.rows@, k, j));
                            assert(has_row(after.rows@, k, j));
                        }
                        if k == key {
                            assert(has_row(after.rows@, k, i as int));
                        }
                    }
                    assert forall|k: Principal| after@.dom().contains(k) implies after@[k]
                        == before@.insert(key, value)[k] by {
                        let j = choose|j: int| has_row(after.rows@, k, j);
                        assert(has_row(after.rows@, k, j));
                        lemma_map_of_row(after.rows@, k, j);
                        if k == key {
                            assert(has_row(after.rows@, k, i as int));
                        } else {
                            assert(has_row(before.rows@, k, j));
                            lemma_map_of_row(before.rows@, k, j);
                        }
                    }
                    assert(after@ =~= before@.insert(key, value));
                }
            },
            None => {
                self.rows.push(Row { key, value });
                proof {
                    let after = *self;
                    let n = before.rows@.len() as int;
                    assert forall|j: int| 0 <= j < n implies before.rows@[j].key != key by {
                        if before.rows@[j].key == key {
                            assert(has_row(before.rows@, key, j));
                        }
                    }
                    assert(after.well_formed());
                    assert(has_row(after.rows@, key, n));
                    assert forall|k: Principal|
                        after@.dom().contains(k) == before@.insert(key, value).dom().contains(
                            k,
                        ) by {
                        if after@.dom().contains(k) && k != key {
                            let j = choose|j: int| has_row(after.rows@, k, j);
                            assert(has_row(after.rows@, k, j));
                            assert(has_row(before.rows@, k, j));
                        }
                        if before@.dom().contains(k) {
                            let j = choose|j: int| has_row(before.rows@, k, j);
                            assert(has_row(before.rows@, k, j));
                            assert(has_row(after.rows@, k, j));
                        }
                    }
                    assert forall|k: Principal| after@.dom().contains(k) implies after@[k]
                        == before@.insert(key, value)[k] by {
                        let j = choose|j: int| has_row(after.rows@, k, j);
                        assert(has_row(after.rows@, k, j));
                        lemma_map_of_row(after.rows@, k, j);
                        if k == key {
                            lemma_map_of_row(after.rows@, k, n);
                        } else {
                            assert(has_row(before.rows@, k, j));
                            lemma_map_of_row(before.rows@, k, j);
                        }
                    }
                    assert(after@ =~= before@.insert(key, value));
                }
            },
        }
    }

    /// Removes the record of `key` and hands it out, if it has one.
    pub fn take(&mut self, key: &Principal) -> (r: Option<V>)
        requires
            old(self).well_formed(),
        ensures
            final(self).well_formed(),
            final(self)@ == old(self)@.remove(*key),
            r == (if old(self)@.dom().contains(*key) {
                Some(old(self)@[*key])
            } else {
                None
            }),
    {
        let ghost before = *self;
        match self.find(key) {
            Some(i) => {
                let row = self.rows.remove(i);
                proof {
                    let after = *self;
                    lemma_map_of_row(before.rows@, *key, i as int);
                    assert forall|a: int, b: int|
                        0 <= a < b < after.rows@.len() implies after.rows@[a].key
                        != after.rows@[b].key by {
                        let a0 = if a < i { a } else { a + 1 };
                        let b0 = if b < i { b } else { b + 1 };
                        assert(after.rows@[a] == before.rows@[a0]);
                        assert(after.rows@[b] == before.rows@[b0]);
                    }
                    assert forall|k: Principal|
                        after@.dom().contains(k) == before@.remove(*key).dom().contains(k) by {
                        if after@.dom().contains(k) {
                            let j = choose|j: int| has_row(after.rows@, k, j);
                            assert(has_row(after.rows@, k, j));
                            let j0 = if j < i { j } else { j + 1 };
                            assert(has_row(before.rows@, k, j0));
                        }
                        if before@.dom().contains(k) && k != *key {
                            let j = choose|j: int| has_row(before.rows@, k, j);
                            assert(has_row(before.rows@, k, j));
                            let j1 = if j < i { j } else { j - 1 };
                            assert(has_row(after.rows@, k, j1));
                        }
                    }
                    assert forall|k: Principal| after@.dom().contains(k) implies after@[k]
                        == before@.remove(*key)[k] by {
                        let j = choose|j: int| has_row(after.rows@, k, j);
                        assert(has_row(after.rows@, k, j));
                        lemma_map_of_row(after.rows@, k, j);
                        let j0 = if j < i { j } else { j + 1 };
                        assert(has_row(before.rows@, k, j0));
                        lemma_map_of_row(before.rows@, k, j0);
                    }
                    assert(after@ =~= before@.remove(*key));
                }
                Some(row.value)
            },
            None => {
                assert(self@ =~= before@.remove(*key));
                None
            },
        }
    }

    /// The number of rows.
    pub fn len(&self) -> (n: usize)
        ensures
            n == self.rows().len(),
    {
        self.rows.len()
    }

    /// Row `i`.
    pub fn row(&self, i: usize) -> (row: &Row<V>)
        requires
            i < self.rows().len(),
        ensures
            *row == self.rows()[i as int],
    {
        &self.rows[i]
    }

    /// The table as plain rows.
    pub fn into_rows(self) -> (rows: Vec<Row<V>>)
        ensures
            rows@ == self.rows(),
    {
        self.rows
    }

    /// The table of `rows`, where no principal has two of them.
    pub fn from_rows(rows: Vec<Row<V>>) -> (table: Option<Self>)
        ensures
            match table {
                Some(t) => distinct_keys(rows@) && t.rows() == rows@,
                None => !distinct_keys(rows@),
            },
    {
        let mut j: usize = 0;
        while j < rows.len()
            invariant
                j <= rows@.len(),
                forall|a: int, b: int| 0 <= a < b < j ==> rows@[a].key != rows@[b].key,
            decreases rows@.len() - j,
        {
            let mut i: usize = 0;
            while i < j
                invariant
                    i <= j < rows@.len(),
                    forall|a: int| 0 <= a < i ==> rows@[a].key != rows@[j as int].key,
                decreases j - i,
            {
                if rows[i].key.same(&rows[j].key) {
                    return None;
                }
                i += 1;
            }
            j += 1;
        }
        Some(Table { rows })
    }
}

/// The lists of a table of identifier lists, as sequences.
pub open spec fn lists_of(table: Map<Principal, Vec<u64>>) -> Map<Principal, Seq<u64>> {
    Map::new(|p: Principal| table.dom().contains(p), |p: Principal| table[p]@)
}

/// The list that `table` holds for `key`; empty where it holds none.
pub open spec fn list_of(table: Map<Principal, Vec<u64>>, key: Principal) -> Seq<u64> {
    if table.dom().contains(key) {
        table[key]@
    } else {
        Seq::empty()
    }
}

} // verus!
