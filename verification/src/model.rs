use crate::text::{spells, to_chars};
use vstd::prelude::*;

verus! {

/// The weights of one feature family as plain values: each entry pairs a
/// feature value with its weight.
pub type Entries = Seq<(Seq<char>, int)>;

/// A weight table as plain values: each element pairs a family tag with the
/// entries of that family.
pub type Tables = Seq<(Seq<char>, Entries)>;

/// The plain value of one family's stored entries.
pub open spec fn entries_view(entries: Seq<(String, i32)>) -> Entries {
    entries.map_values(|e: (String, i32)| (e.0@, e.1 as int))
}

/// The plain value of a stored weight table.
pub open spec fn tables_view(tables: Seq<(String, Vec<(String, i32)>)>) -> Tables {
    tables.map_values(|t: (String, Vec<(String, i32)>)| (t.0@, entries_view(t.1@)))
}

/// Whether every weight fits a 32-bit signed integer.
pub open spec fn weights_fit(tables: Tables) -> bool {
    forall|k: int, j: int|
        0 <= k < tables.len() && 0 <= j < tables[k].1.len() ==> i32::MIN <= (
        #[trigger] tables[k].1[j]).1 <= i32::MAX
}

/// The weight of the first entry at or after `from` whose value is `value`,
/// or zero where there is none.
pub open spec fn entry_weight(entries: Entries, value: Seq<char>, from: int) -> int
    decreases entries.len() - from,
{
    if from < 0 || from >= entries.len() {
        0
    } else if entries[from].0 == value {
        entries[from].1
    } else {
        entry_weight(entries, value, from + 1)
    }
}

/// The index of the first table at or after `from` whose tag is `family`.
pub open spec fn find_table(tables: Tables, family: Seq<char>, from: int) -> Option<int>
    decreases tables.len() - from,
{
    if from < 0 || from >= tables.len() {
        None
    } else if tables[from].0 == family {
        Some(from)
    } else {
        find_table(tables, family, from + 1)
    }
}

/// The weight that a table gives to a feature key; a key it does not hold
/// weighs zero.
pub open spec fn weight_in(tables: Tables, family: Seq<char>, value: Seq<char>) -> int {
    match find_table(tables, family, 0) {
        Some(k) => entry_weight(tables[k].1, value, 0),
        None => 0,
    }
}

proof fn lemma_find_table_in_range(tables: Tables, family: Seq<char>, from: int)
    ensures
        match find_table(tables, family, from) {
            Some(k) => from <= k < tables.len() && 0 <= k && tables[k].0 == family,
            None => true,
        },
    decreases tables.len() - from,
{
    if !(from < 0 || from >= tables.len()) && tables[from].0 != family {
        lemma_find_table_in_range(tables, family, from + 1);
    }
}

proof fn lemma_entry_weight_fits(entries: Entries, value: Seq<char>, from: int)
    requires
        forall|j: int| 0 <= j < entries.len() ==> i32::MIN <= (#[trigger] entries[j]).1 <= i32::MAX,
    ensures
        i32::MIN <= entry_weight(entries, value, from) <= i32::MAX,
    decreases entries.len() - from,
{
    if !(from < 0 || from >= entries.len()) && entries[from].0 != value {
        lemma_entry_weight_fits(entries, value, from + 1);
    }
}

/// A table whose weights fit 32 bits gives every key a weight that fits.
pub proof fn lemma_weight_fits(tables: Tables, family: Seq<char>, value: Seq<char>)
    requires
        weights_fit(tables),
    ensures
        i32::MIN <= weight_in(tables, family, value) <= i32::MAX,
{
    lemma_find_table_in_range(tables, family, 0);
    match find_table(tables, family, 0) {
        Some(k) => {
            lemma_entry_weight_fits(tables[k].1, value, 0);
        },
        None => {},
    }
}

/// The sum of the first `n` weights of `entries`.
pub open spec fn entries_total(entries: Entries, n: int) -> int
    decreases n,
{
    if n <= 0 {
        0
    } else {
        entries_total(entries, n - 1) + entries[n - 1].1
    }
}

/// The sum of the weights of the first `n` families.
pub open spec fn tables_total(tables: Tables, n: int) -> int
    decreases n,
{
    if n <= 0 {
        0
    } else {
        tables_total(tables, n - 1) + entries_total(
            tables[n - 1].1,
            tables[n - 1].1.len() as int,
        )
    }
}

/// The number of entries of the first `n` families.
pub open spec fn entries_count(tables: Tables, n: int) -> int
    decreases n,
{
    if n <= 0 {
        0
    } else {
        entries_count(tables, n - 1) + tables[n - 1].1.len()
    }
}

/// The sum of all weights of a table.
pub open spec fn total_weight(tables: Tables) -> int {
    tables_total(tables, tables.len() as int)
}

proof fn lemma_entries_total_bounded(entries: Entries, n: int)
    requires
        forall|j: int| 0 <= j < entries.len() ==> i32::MIN <= (#[trigger] entries[j]).1 <= i32::MAX,
        0 <= n <= entries.len(),
    ensures
        -n * 0x8000_0000 <= entries_total(entries, n) <= n * 0x8000_0000,
    decreases n,
{
    if n > 0 {
        lemma_entries_total_bounded(entries, n - 1);
    }
}

proof fn lemma_entries_count_grows(tables: Tables, n: int, m: int)
    requires
        0 <= n <= m <= tables.len(),
    ensures
        0 <= entries_count(tables, n) <= entries_count(tables, m),
    decreases m,
{
    if n < m {
        lemma_entries_count_grows(tables, n, m - 1);
    } else if n > 0 {
        lemma_entries_count_grows(tables, n - 1, n - 1);
    }
}

/// A scoring model: an immutable table from feature key to integer weight,
/// grouped by feature family.
#[derive(Debug, PartialEq, Eq)]
pub struct Model {
    tables: Vec<(String, Vec<(String, i32)>)>,
}

impl View for Model {
    type V = Tables;

    closed spec fn view(&self) -> Tables {
        tables_view(self.tables@)
    }
}

impl Model {
    /// The weight of a feature key in this model.
    pub open spec fn weight(&self, family: Seq<char>, value: Seq<char>) -> int {
        weight_in(self@, family, value)
    }

    /// The weights of every model fit 32 bits.
    pub proof fn lemma_weights_fit(&self)
        ensures
            weights_fit(self@),
    {
    }

    /// Builds a model from its families. Where a family or a value occurs
    /// twice, the first occurrence counts.
    pub fn new(tables: Vec<(String, Vec<(String, i32)>)>) -> (model: Model)
        ensures
            model@ == tables_view(tables@),
    {
        Model { tables }
    }

    /// The families as they were given to [`Model::new`].
    pub fn as_inner(&self) -> (tables: &Vec<(String, Vec<(String, i32)>)>)
        ensures
            tables_view(tables@) == self@,
    {
        &self.tables
    }

    /// The normalization constant of the model: the negated sum of all its
    /// weights, where the model has no more entries than a `usize` counts
    /// and the constant fits 64 bits.
    pub fn base_score(&self) -> (base: Option<i64>)
        ensures
            base == (if entries_count(self@, self@.len() as int) <= usize::MAX && i64::MIN
                <= -total_weight(self@) <= i64::MAX {
                Some((-total_weight(self@)) as i64)
            } else {
                None::<i64>
            }),
    {
        let mut count: usize = 0;
        let mut total: i128 = 0;
        let mut k: usize = 0;
        while k < self.tables.len()
            invariant
                k <= self.tables@.len(),
                self@.len() == self.tables@.len(),
                count as int == entries_count(self@, k as int),
                total as int == tables_total(self@, k as int),
                -count * 0x8000_0000 <= total <= count * 0x8000_0000,
            decreases self.tables@.len() - k,
        {
            let entries: &Vec<(String, i32)> = &self.tables[k].1;
            assert(self@[k as int].1 == entries_view(entries@));
            if entries.len() > usize::MAX - count {
                proof {
                    lemma_entries_count_grows(self@, k + 1, self@.len() as int);
                }
                return None;
            }
            let mut sum: i128 = 0;
            let mut j: usize = 0;
            while j < entries.len()
                invariant
                    j <= entries@.len(),
                    sum as int == entries_total(entries_view(entries@), j as int),
                    -j * 0x8000_0000 <= sum <= j * 0x8000_0000,
                decreases entries@.len() - j,
            {
                assert(entries_view(entries@)[j as int].1 == entries@[j as int].1 as int);
                sum = sum + entries[j].1 as i128;
                j = j + 1;
            }
            total = total + sum;
            count = count + entries.len();
            k = k + 1;
        }
        let base: i128 = -total;
        if base < i64::MIN as i128 || base > i64::MAX as i128 {
            None
        } else {
            Some(base as i64)
        }
    }

    /// The entries of the first family tagged `key`.
    pub fn get(&self, key: &str) -> (found: Option<&Vec<(String, i32)>>)
        ensures
            match find_table(self@, key@, 0) {
                Some(k) => found.is_some() && entries_view(found.unwrap()@) == self@[k].1,
                None => found.is_none(),
            },
    {
        let tag: Vec<char> = to_chars(key);
        let mut k: usize = 0;
        while k < self.tables.len()
            invariant
                k <= self.tables@.len(),
                tag@ == key@,
                find_table(self@, key@, 0) == find_table(self@, key@, k as int),
            decreases self.tables@.len() - k,
        {
            if spells(self.tables[k].0.as_str(), &tag) {
                return Some(&self.tables[k].1);
            }
            k = k + 1;
        }
        None
    }

    /// The weight of the key made of `family` and `value`, zero where the
    /// model does not hold it.
    pub fn lookup(&self, family: &str, value: &Vec<char>) -> (weight: i32)
        ensures
            weight as int == self.weight(family@, value@),
    {
        match self.get(family) {
            Some(entries) => {
                let mut j: usize = 0;
                while j < entries.len()
                    invariant
                        j <= entries@.len(),
                        self.weight(family@, value@) == entry_weight(
                            entries_view(entries@),
                            value@,
                            0,
                        ),
                        entry_weight(entries_view(entries@), value@, 0) == entry_weight(
                            entries_view(entries@),
                            value@,
                            j as int,
                        ),
                    decreases entries@.len() - j,
                {
                    assert(entries_view(entries@)[j as int] == (
                        entries@[j as int].0@,
                        entries@[j as int].1 as int,
                    ));
                    if spells(entries[j].0.as_str(), value) {
                        return entries[j].1;
                    }
                    j = j + 1;
                }
                0
            },
            None => 0,
        }
    }
}

} // verus!
