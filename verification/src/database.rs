//! The cache store: one entry for every digest, kept as a table by digest, with
//! the merge that synchronising two stores amounts to.

use crate::table::{
    distinct_keys, lemma_table_keys, lemma_table_push, lemma_table_remove, lemma_table_update,
    lemma_table_value, table_of,
};
use crate::sorting::{in_order, lemma_placed_at, lemma_sorted_by_sorts, ranks, sorted_by};
use crate::text::same_text;
use vstd::prelude::*;

verus! {

/// A point in time: seconds since the start of 1970 in UTC, and nanoseconds
/// within the second.
#[derive(Clone, Copy, Debug, PartialEq, Eq, Structural)]
pub struct Timestamp {
    pub secs: i64,
    pub nanos: u32,
}

/// An entry of the store.
#[derive(Debug, Clone)]
pub struct HashEntry {
    pub hash: String,
    pub name: String,
    pub folder: String,
    pub created_at: Option<Timestamp>,
}

/// An entry as it is shown: its time is written out.
#[derive(Debug)]
pub struct HashEntryOutput {
    pub hash: String,
    pub name: String,
    pub folder: String,
    pub created_at: String,
}

/// An entry as plain text.
pub ghost struct EntryView {
    pub hash: Seq<char>,
    pub name: Seq<char>,
    pub folder: Seq<char>,
    pub created_at: Option<Timestamp>,
}

/// A shown entry as plain text.
pub ghost struct OutputView {
    pub hash: Seq<char>,
    pub name: Seq<char>,
    pub folder: Seq<char>,
    pub created_at: Seq<char>,
}

impl View for HashEntry {
    type V = EntryView;

    open spec fn view(&self) -> EntryView {
        EntryView {
            hash: self.hash@,
            name: self.name@,
            folder: self.folder@,
            created_at: self.created_at,
        }
    }
}

impl View for HashEntryOutput {
    type V = OutputView;

    open spec fn view(&self) -> OutputView {
        OutputView {
            hash: self.hash@,
            name: self.name@,
            folder: self.folder@,
            created_at: self.created_at@,
        }
    }
}

/// The views of a list of entries.
pub open spec fn entry_views(entries: Seq<HashEntry>) -> Seq<EntryView> {
    Seq::new(entries.len(), |i: int| entries[i]@)
}

/// The views of a list of shown entries.
pub open spec fn output_views(entries: Seq<HashEntryOutput>) -> Seq<OutputView> {
    Seq::new(entries.len(), |i: int| entries[i]@)
}

/// A list of entries as pairs of digest and entry.
pub open spec fn keyed(entries: Seq<EntryView>) -> Seq<(Seq<char>, EntryView)> {
    Seq::new(entries.len(), |i: int| (entries[i].hash, entries[i]))
}

/// The table that a list of entries stands for; of two entries with one digest
/// the later one counts.
pub open spec fn entries_table(entries: Seq<EntryView>) -> Map<Seq<char>, EntryView> {
    table_of(keyed(entries))
}

/// The store after the entries were written into it one after the other, each
/// in the place of the entry that had its digest.
pub open spec fn upserted(store: Map<Seq<char>, EntryView>, entries: Seq<EntryView>) -> Map<
    Seq<char>,
    EntryView,
>
    decreases entries.len(),
{
    if entries.len() == 0 {
        store
    } else {
        upserted(store, entries.drop_last()).insert(entries.last().hash, entries.last())
    }
}

/// `a` is not earlier than `b`; no time at all is earlier than any time.
pub open spec fn not_earlier(a: Option<Timestamp>, b: Option<Timestamp>) -> bool {
    match (a, b) {
        (_, None) => true,
        (None, Some(_)) => false,
        (Some(x), Some(y)) => x.secs > y.secs || (x.secs == y.secs && x.nanos >= y.nanos),
    }
}

/// Whether `a` is not earlier than `b`.
pub fn is_not_earlier(a: &Option<Timestamp>, b: &Option<Timestamp>) -> (r: bool)
    ensures
        r == not_earlier(*a, *b),
{
    match (a, b) {
        (_, None) => true,
        (None, Some(_)) => false,
        (Some(x), Some(y)) => x.secs > y.secs || (x.secs == y.secs && x.nanos >= y.nanos),
    }
}

/// The rule of the list: an entry may stand in front of one that is not later.
pub open spec fn recency() -> spec_fn(EntryView, EntryView) -> bool {
    |a: EntryView, b: EntryView| not_earlier(a.created_at, b.created_at)
}

/// The entries from the latest to the earliest; entries of one time keep their order.
pub open spec fn by_recency(entries: Seq<EntryView>) -> Seq<EntryView> {
    sorted_by(entries, recency())
}

/// From the latest to the earliest.
pub open spec fn latest_first(entries: Seq<EntryView>) -> bool {
    in_order(entries, recency())
}

/// The list that `by_recency` gives is ordered from the latest to the earliest
/// and holds the same entries as often.
pub proof fn lemma_by_recency_sorts(entries: Seq<EntryView>)
    ensures
        latest_first(by_recency(entries)),
        by_recency(entries).to_multiset() == entries.to_multiset(),
        by_recency(entries).len() == entries.len(),
{
    assert(ranks(recency()));
    lemma_sorted_by_sorts(entries, recency());
}

/// What `DateTime::from_timestamp` and `DateTime::to_rfc3339` make of a point in
/// time; `None` where chrono has no date for it.
pub uninterp spec fn rfc3339_text(secs: i64, nanos: u32) -> Option<Seq<char>>;

/// Calls `DateTime::from_timestamp` and, on the date it gives, `to_rfc3339`.
/// The text is a function of the two numbers alone; `None` stands for a point in
/// time that chrono refuses.
#[verifier::external_body]
fn rfc3339(secs: i64, nanos: u32) -> (text: Option<String>)
    ensures
        text is Some <==> rfc3339_text(secs, nanos) is Some,
        text matches Some(t) ==> t@ == rfc3339_text(secs, nanos).unwrap(),
{
    match chrono::DateTime::from_timestamp(secs, nanos) {
        Some(time) => Some(time.to_rfc3339()),
        None => None,
    }
}

/// The time of an entry as it is shown: written out, or empty where the entry
/// has no time or none that can be written.
pub open spec fn time_text(time: Option<Timestamp>) -> Seq<char> {
    match time {
        Some(t) => match rfc3339_text(t.secs, t.nanos) {
            Some(text) => text,
            None => Seq::empty(),
        },
        None => Seq::empty(),
    }
}

/// An entry as it is shown.
pub open spec fn shown(entry: EntryView) -> OutputView {
    OutputView {
        hash: entry.hash,
        name: entry.name,
        folder: entry.folder,
        created_at: time_text(entry.created_at),
    }
}

/// Writes the time of an entry out; `text` is what chrono made of the time.
pub fn show_time(text: Option<String>) -> (shown: String)
    ensures
        shown@ == match text {
            Some(t) => t@,
            None => Seq::<char>::empty(),
        },
{
    match text {
        Some(t) => t,
        None => String::new(),
    }
}

/// A copy of an entry.
pub fn copy_entry(entry: &HashEntry) -> (copy: HashEntry)
    ensures
        copy@ == entry@,
{
    HashEntry {
        hash: entry.hash.clone(),
        name: entry.name.clone(),
        folder: entry.folder.clone(),
        created_at: entry.created_at,
    }
}

/// Writing a list of entries into a store gives what the list's table holds,
/// and of the store what the list does not hold.
pub proof fn lemma_upserted_is_union(store: Map<Seq<char>, EntryView>, entries: Seq<EntryView>)
    ensures
        upserted(store, entries) == store.union_prefer_right(entries_table(entries)),
    decreases entries.len(),
{
    if entries.len() == 0 {
        assert(keyed(entries) =~= Seq::empty());
        assert(store.union_prefer_right(entries_table(entries)) =~= store);
    } else {
        lemma_upserted_is_union(store, entries.drop_last());
        assert(keyed(entries).drop_last() =~= keyed(entries.drop_last()));
        assert(keyed(entries).last() == (entries.last().hash, entries.last()));
        assert(upserted(store, entries) =~= store.union_prefer_right(entries_table(entries)));
    }
}

/// The place of the entry of `hash` among the rows, where there is one.
pub open spec fn row_of(rows: Seq<EntryView>, hash: Seq<char>) -> Option<int> {
    if exists|i: int| 0 <= i < rows.len() && (#[trigger] rows[i]).hash == hash {
        Some(choose|i: int| 0 <= i < rows.len() && (#[trigger] rows[i]).hash == hash)
    } else {
        None
    }
}

/// The rows after `entry` was written: in the place of the row that had its
/// digest, or behind all rows where none had it.
pub open spec fn rows_with(rows: Seq<EntryView>, entry: EntryView) -> Seq<EntryView> {
    match row_of(rows, entry.hash) {
        Some(i) => rows.update(i, entry),
        None => rows.push(entry),
    }
}

/// The rows after the entries were written one after the other.
pub open spec fn rows_with_all(rows: Seq<EntryView>, entries: Seq<EntryView>) -> Seq<EntryView>
    decreases entries.len(),
{
    if entries.len() == 0 {
        rows
    } else {
        rows_with(rows_with_all(rows, entries.drop_last()), entries.last())
    }
}

/// The rows after the entry of `hash` was taken out; the others keep their order.
pub open spec fn rows_without(rows: Seq<EntryView>, hash: Seq<char>) -> Seq<EntryView> {
    match row_of(rows, hash) {
        Some(i) => rows.remove(i),
        None => rows,
    }
}

/// Among rows with distinct digests a digest has one place.
pub proof fn lemma_row_of(rows: Seq<EntryView>, hash: Seq<char>, i: int)
    requires
        distinct_keys(keyed(rows)),
        0 <= i < rows.len(),
        rows[i].hash == hash,
    ensures
        row_of(rows, hash) == Some(i),
{
    let j = choose|j: int| 0 <= j < rows.len() && (#[trigger] rows[j]).hash == hash;
    assert(keyed(rows)[i].0 == hash && keyed(rows)[j].0 == hash);
    if i < j {
        assert(keyed(rows)[i].0 != keyed(rows)[j].0);
    }
    if j < i {
        assert(keyed(rows)[j].0 != keyed(rows)[i].0);
    }
}

/// Rows with distinct digests and their table hold the same entries: each row
/// stands in the table under its digest, and each entry of the table is a row.
pub proof fn lemma_rows_hold_the_table(rows: Seq<EntryView>)
    requires
        distinct_keys(keyed(rows)),
    ensures
        forall|i: int|
            0 <= i < rows.len() ==> entries_table(rows).contains_key((#[trigger] rows[i]).hash)
                && entries_table(rows)[rows[i].hash] == rows[i],
        forall|k: Seq<char>| #[trigger]
            entries_table(rows).contains_key(k) ==> row_of(rows, k) is Some && rows[row_of(
                rows,
                k,
            ).unwrap()] == entries_table(rows)[k],
        forall|k: Seq<char>| row_of(rows, k) is Some <==> #[trigger] entries_table(rows).contains_key(k),
{
    let pairs = keyed(rows);
    assert forall|i: int| 0 <= i < rows.len() implies entries_table(rows).contains_key(
        (#[trigger] rows[i]).hash,
    ) && entries_table(rows)[rows[i].hash] == rows[i] by {
        lemma_table_value(pairs, i);
        assert(pairs[i] == (rows[i].hash, rows[i]));
    }
    assert forall|k: Seq<char>| #[trigger] entries_table(rows).contains_key(k) implies row_of(
        rows,
        k,
    ) is Some && rows[row_of(rows, k).unwrap()] == entries_table(rows)[k] by {
        lemma_table_keys(pairs, k);
        let i = choose|i: int| 0 <= i < pairs.len() && (#[trigger] pairs[i]).0 == k;
        assert(rows[i].hash == k);
        lemma_row_of(rows, k, i);
        lemma_table_value(pairs, i);
    }
    assert forall|k: Seq<char>| row_of(rows, k) is Some implies #[trigger] entries_table(
        rows,
    ).contains_key(k) by {
        let i = row_of(rows, k).unwrap();
        assert(rows[i].hash == k);
        lemma_table_value(pairs, i);
        assert(pairs[i] == (rows[i].hash, rows[i]));
    }
}

/// The cache store: its rows, and as its view the table that they stand for.
pub struct DatabaseManager {
    entries: Vec<HashEntry>,
}

impl View for DatabaseManager {
    type V = Map<Seq<char>, EntryView>;

    open spec fn view(&self) -> Map<Seq<char>, EntryView> {
        entries_table(self.rows())
    }
}

impl DatabaseManager {
    /// The entries in the order in which the store keeps them: that in which
    /// their digests were first written.
    pub closed spec fn rows(&self) -> Seq<EntryView> {
        entry_views(self.entries@)
    }

    /// No digest has two rows.
    pub open spec fn well_formed(&self) -> bool {
        distinct_keys(keyed(self.rows()))
    }

    /// An empty store.
    pub fn new() -> (store: Self)
        ensures
            store.well_formed(),
            store@ == Map::<Seq<char>, EntryView>::empty(),
            store.rows() == Seq::<EntryView>::empty(),
    {
        let store = DatabaseManager { entries: Vec::new() };
        assert(entry_views(store.entries@) =~= Seq::empty());
        assert(keyed(entry_views(store.entries@)) =~= Seq::empty());
        store
    }

    /// The place of the entry of `hash` among the rows.
    fn position(&self, hash: &str) -> (found: Option<usize>)
        ensures
            match found {
                Some(i) => i < self.entries@.len() && self.entries@[i as int].hash@ == hash@,
                None => row_of(self.rows(), hash@) is None && forall|j: int|
                    0 <= j < self.entries@.len() ==> (#[trigger] keyed(
                        entry_views(self.entries@),
                    )[j]).0 != hash@,
            },
    {
        let mut i: usize = 0;
        while i < self.entries.len()
            invariant
                i <= self.entries.len(),
                forall|j: int|
                    0 <= j < i ==> (#[trigger] keyed(entry_views(self.entries@))[j]).0 != hash@,
            decreases self.entries.len() - i,
        {
            if same_text(self.entries[i].hash.as_str(), hash) {
                return Some(i);
            }
            i += 1;
        }
        proof {
            let rows = entry_views(self.entries@);
            if exists|j: int| 0 <= j < rows.len() && (#[trigger] rows[j]).hash == hash@ {
                let j = choose|j: int| 0 <= j < rows.len() && (#[trigger] rows[j]).hash == hash@;
                assert(keyed(rows)[j].0 == hash@);
            }
        }
        None
    }

    /// The number of entries.
    pub fn len(&self) -> (n: usize)
        ensures
            n == self.rows().len(),
    {
        self.entries.len()
    }

    /// Writes `entry` into the store, in the place of the entry that had its digest.
    pub fn upsert(&mut self, entry: HashEntry)
        requires
            old(self).well_formed(),
        ensures
            final(self).well_formed(),
            final(self)@ == old(self)@.insert(entry.hash@, entry@),
            final(self).rows() == rows_with(old(self).rows(), entry@),
    {
        let ghost before = keyed(entry_views(self.entries@));
        let ghost rows = entry_views(self.entries@);
        match self.position(entry.hash.as_str()) {
            Some(i) => {
                proof {
                    lemma_table_update(before, i as int, entry@);
                    lemma_row_of(rows, entry.hash@, i as int);
                }
                self.entries.set(i, entry);
                assert(keyed(entry_views(self.entries@)) =~= before.update(
                    i as int,
                    (before[i as int].0, entry@),
                ));
                assert(entry_views(self.entries@) =~= rows.update(i as int, entry@));
            },
            None => {
                proof {
                    lemma_table_push(before, entry.hash@, entry@);
                }
                self.entries.push(entry);
                assert(keyed(entry_views(self.entries@)) =~= before.push((entry.hash@, entry@)));
                assert(entry_views(self.entries@) =~= rows.push(entry@));
            },
        }
    }

    /// Enters a file under its digest with the time `now`, in the place of the
    /// entry that the digest had.
    pub fn save_hash(&mut self, hash: String, name: String, folder: String, now: Timestamp)
        requires
            old(self).well_formed(),
        ensures
            final(self).well_formed(),
            final(self)@ == old(self)@.insert(
                hash@,
                EntryView { hash: hash@, name: name@, folder: folder@, created_at: Some(now) },
            ),
            final(self).rows() == rows_with(
                old(self).rows(),
                EntryView { hash: hash@, name: name@, folder: folder@, created_at: Some(now) },
            ),
    {
        self.upsert(HashEntry { hash, name, folder, created_at: Some(now) });
    }

    /// The name entered under `hash`, if there is an entry.
    pub fn get_name(&self, hash: &str) -> (name: Option<String>)
        requires
            self.well_formed(),
        ensures
            name is Some <==> self@.contains_key(hash@),
            name matches Some(n) ==> n@ == self@[hash@].name,
    {
        proof {
            lemma_table_keys(keyed(entry_views(self.entries@)), hash@);
        }
        match self.position(hash) {
            Some(i) => {
                proof {
                    lemma_table_value(keyed(entry_views(self.entries@)), i as int);
                    assert(keyed(entry_views(self.entries@))[i as int].0 == hash@);
                }
                Some(self.entries[i].name.clone())
            },
            None => None,
        }
    }

    /// Whether there is an entry under `hash`.
    pub fn contains(&self, hash: &str) -> (found: bool)
        ensures
            found == self@.contains_key(hash@),
    {
        proof {
            lemma_table_keys(keyed(entry_views(self.entries@)), hash@);
        }
        match self.position(hash) {
            Some(i) => {
                assert(keyed(entry_views(self.entries@))[i as int].0 == hash@);
                true
            },
            None => false,
        }
    }

    /// Takes the entry of `hash` out of the store, if there is one.
    pub fn delete_hash(&mut self, hash: &str)
        requires
            old(self).well_formed(),
        ensures
            final(self).well_formed(),
            final(self)@ == old(self)@.remove(hash@),
            final(self).rows() == rows_without(old(self).rows(), hash@),
    {
        let ghost before = keyed(entry_views(self.entries@));
        let ghost rows = entry_views(self.entries@);
        proof {
            lemma_table_keys(before, hash@);
        }
        match self.position(hash) {
            Some(i) => {
                proof {
                    lemma_table_remove(before, i as int);
                    assert(before[i as int].0 == hash@);
                    lemma_row_of(rows, hash@, i as int);
                }
                self.entries.remove(i);
                assert(keyed(entry_views(self.entries@)) =~= before.remove(i as int));
                assert(entry_views(self.entries@) =~= rows.remove(i as int));
            },
            None => {
                assert(self@.remove(hash@) =~= self@);
            },
        }
    }

    /// Takes every entry out of the store.
    pub fn clear_all(&mut self)
        ensures
            final(self).well_formed(),
            final(self)@ == Map::<Seq<char>, EntryView>::empty(),
            final(self).rows() == Seq::<EntryView>::empty(),
    {
        self.entries.clear();
        assert(entry_views(self.entries@) =~= Seq::empty());
        assert(keyed(entry_views(self.entries@)) =~= Seq::empty());
    }

    /// Copies of all entries, in the order of the rows.
    pub fn select_all(&self) -> (entries: Vec<HashEntry>)
        ensures
            entries@.len() == self.rows().len(),
            entry_views(entries@) == self.rows(),
    {
        let mut entries: Vec<HashEntry> = Vec::new();
        let mut i: usize = 0;
        while i < self.entries.len()
            invariant
                i <= self.entries.len(),
                entries@.len() == i,
                entry_views(entries@) == entry_views(self.entries@).take(i as int),
            decreases self.entries.len() - i,
        {
            let ghost before = entry_views(entries@);
            entries.push(copy_entry(&self.entries[i]));
            assert(entry_views(entries@) =~= before.push(self.entries@[i as int]@));
            assert(entry_views(self.entries@).take(i + 1) =~= entry_views(self.entries@).take(
                i as int,
            ).push(self.entries@[i as int]@));
            i += 1;
        }
        assert(entry_views(self.entries@).take(self.entries@.len() as int) =~= entry_views(
            self.entries@,
        ));
        entries
    }

    /// The digests of all entries, in the order of the rows.
    pub fn hashes(&self) -> (hashes: Vec<String>)
        ensures
            hashes@.len() == self.rows().len(),
            crate::text::texts(hashes@) == self.rows().map_values(|e: EntryView| e.hash),
    {
        let mut hashes: Vec<String> = Vec::new();
        let mut i: usize = 0;
        while i < self.entries.len()
            invariant
                i <= self.entries.len(),
                hashes@.len() == i,
                crate::text::texts(hashes@) == entry_views(self.entries@).take(
                    i as int,
                ).map_values(|e: EntryView| e.hash),
            decreases self.entries.len() - i,
        {
            let ghost before = crate::text::texts(hashes@);
            hashes.push(self.entries[i].hash.clone());
            assert(crate::text::texts(hashes@) =~= before.push(self.entries@[i as int].hash@));
            assert(entry_views(self.entries@).take(i + 1) =~= entry_views(self.entries@).take(
                i as int,
            ).push(self.entries@[i as int]@));
            assert(entry_views(self.entries@).take(i as int).push(
                self.entries@[i as int]@,
            ).map_values(|e: EntryView| e.hash) =~= entry_views(self.entries@).take(
                i as int,
            ).map_values(|e: EntryView| e.hash).push(self.entries@[i as int].hash@));
            i += 1;
        }
        assert(entry_views(self.entries@).take(self.entries@.len() as int) =~= entry_views(
            self.entries@,
        ));
        hashes
    }

    /// Writes the entries into the store one after the other, each in the place
    /// of the entry that had its digest.
    pub fn upsert_all(&mut self, entries: &Vec<HashEntry>)
        requires
            old(self).well_formed(),
        ensures
            final(self).well_formed(),
            final(self)@ == upserted(old(self)@, entry_views(entries@)),
            final(self)@ == old(self)@.union_prefer_right(entries_table(entry_views(entries@))),
            final(self).rows() == rows_with_all(old(self).rows(), entry_views(entries@)),
    {
        let ghost start = self@;
        let ghost start_rows = self.rows();
        let ghost all = entry_views(entries@);
        let mut i: usize = 0;
        while i < entries.len()
            invariant
                i <= entries.len(),
                self.well_formed(),
                all == entry_views(entries@),
                self@ == upserted(start, all.take(i as int)),
                self.rows() == rows_with_all(start_rows, all.take(i as int)),
            decreases entries.len() - i,
        {
            proof {
                assert(all.take(i + 1).drop_last() =~= all.take(i as int));
                assert(all.take(i + 1).last() == entries@[i as int]@);
            }
            self.upsert(copy_entry(&entries[i]));
            i += 1;
        }
        proof {
            assert(all.take(entries@.len() as int) =~= all);
            lemma_upserted_is_union(start, all);
        }
    }

    /// A store that holds the given entries; of two with one digest the later
    /// one counts.
    pub fn from_entries(entries: &Vec<HashEntry>) -> (store: Self)
        ensures
            store.well_formed(),
            store@ == entries_table(entry_views(entries@)),
            store.rows() == rows_with_all(Seq::<EntryView>::empty(), entry_views(entries@)),
    {
        let mut store = DatabaseManager::new();
        store.upsert_all(entries);
        assert(Map::<Seq<char>, EntryView>::empty().union_prefer_right(
            entries_table(entry_views(entries@)),
        ) =~= entries_table(entry_views(entries@)));
        store
    }

    /// Writes every entry of this store into `remote`: afterwards `remote`
    /// holds this store's entry for each digest that this store has, and its
    /// own for every other.
    pub fn push_to_remote(&self, remote: &mut DatabaseManager)
        requires
            self.well_formed(),
            old(remote).well_formed(),
        ensures
            final(remote).well_formed(),
            final(remote)@ == old(remote)@.union_prefer_right(self@),
            final(remote).rows() == rows_with_all(old(remote).rows(), self.rows()),
    {
        let entries = self.select_all();
        remote.upsert_all(&entries);
    }

    /// Writes every entry of `remote` into this store: afterwards this store
    /// holds the remote entry for each digest that `remote` has, and its own for
    /// every other.
    pub fn pull_from_remote(&mut self, remote: &DatabaseManager)
        requires
            old(self).well_formed(),
            remote.well_formed(),
        ensures
            final(self).well_formed(),
            final(self)@ == old(self)@.union_prefer_right(remote@),
            final(self).rows() == rows_with_all(old(self).rows(), remote.rows()),
    {
        let entries = remote.select_all();
        self.upsert_all(&entries);
    }

    /// All entries as they are shown, from the latest to the earliest; entries
    /// of one time stand in the order of the rows.
    pub fn list_all(&self) -> (list: Vec<HashEntryOutput>)
        ensures
            output_views(list@) == by_recency(self.rows()).map_values(|e: EntryView| shown(e)),
            list@.len() == self.rows().len(),
            latest_first(by_recency(self.rows())),
            by_recency(self.rows()).to_multiset() == self.rows().to_multiset(),
    {
        let ghost rows = entry_views(self.entries@);
        let mut order: Vec<usize> = Vec::new();
        let mut i: usize = 0;
        assert(rows.take(0) =~= Seq::<EntryView>::empty());
        while i < self.entries.len()
            invariant
                i <= self.entries.len(),
                rows == entry_views(self.entries@),
                order@.len() == i,
                forall|k: int| 0 <= k < order@.len() ==> (#[trigger] order@[k]) < i,
                Seq::new(order@.len(), |k: int| rows[order@[k] as int]) == by_recency(
                    rows.take(i as int),
                ),
            decreases self.entries.len() - i,
        {
            let ghost ordered = by_recency(rows.take(i as int));
            let mut p: usize = order.len();
            while p > 0 && !is_not_earlier(
                &self.entries[order[p - 1]].created_at,
                &self.entries[i].created_at,
            )
                invariant
                    p <= order@.len(),
                    i < self.entries.len(),
                    rows == entry_views(self.entries@),
                    forall|k: int| 0 <= k < order@.len() ==> (#[trigger] order@[k]) < i,
                    Seq::new(order@.len(), |k: int| rows[order@[k] as int]) == ordered,
                    forall|k: int|
                        p <= k < ordered.len() ==> !not_earlier(
                            (#[trigger] ordered[k]).created_at,
                            rows[i as int].created_at,
                        ),
                decreases p,
            {
                assert(ordered[p - 1] == rows[order@[p - 1] as int]);
                p -= 1;
            }
            proof {
                if p > 0 {
                    assert(ordered[p - 1] == rows[order@[p - 1] as int]);
                }
                lemma_placed_at(ordered, rows[i as int], recency(), p as int);
                assert(rows.take(i + 1).drop_last() =~= rows.take(i as int));
                assert(rows.take(i + 1).last() == rows[i as int]);
            }
            order.insert(p, i);
            assert(Seq::new(order@.len(), |k: int| rows[order@[k] as int]) =~= ordered.insert(
                p as int,
                rows[i as int],
            ));
            i += 1;
        }
        assert(rows.take(self.entries@.len() as int) =~= rows);
        proof {
            lemma_by_recency_sorts(rows);
        }
        let ghost sorted = by_recency(rows);
        let mut list: Vec<HashEntryOutput> = Vec::new();
        let mut k: usize = 0;
        while k < order.len()
            invariant
                k <= order@.len(),
                rows == entry_views(self.entries@),
                order@.len() == self.entries@.len(),
                forall|j: int| 0 <= j < order@.len() ==> (#[trigger] order@[j]) < self.entries@.len(),
                Seq::new(order@.len(), |j: int| rows[order@[j] as int]) == sorted,
                output_views(list@) == sorted.take(k as int).map_values(|e: EntryView| shown(e)),
            decreases order.len() - k,
        {
            let entry = &self.entries[order[k]];
            assert(sorted[k as int] == rows[order@[k as int] as int]);
            let time = match entry.created_at {
                Some(t) => show_time(rfc3339(t.secs, t.nanos)),
                None => String::new(),
            };
            let ghost before = output_views(list@);
            list.push(
                HashEntryOutput {
                    hash: entry.hash.clone(),
                    name: entry.name.clone(),
                    folder: entry.folder.clone(),
                    created_at: time,
                },
            );
            assert(entry@ == sorted[k as int]);
            assert(output_views(list@) =~= before.push(shown(sorted[k as int])));
            assert(sorted.take(k + 1) =~= sorted.take(k as int).push(sorted[k as int]));
            assert(sorted.take(k as int).push(sorted[k as int]).map_values(
                |e: EntryView| shown(e),
            ) =~= sorted.take(k as int).map_values(|e: EntryView| shown(e)).push(
                shown(sorted[k as int]),
            ));
            k += 1;
        }
        assert(sorted.take(order@.len() as int) =~= sorted);
        list
    }
}

/// After one store has pushed to another and then pulled from it, the two hold
/// the same entries: for every digest of the first store its entry, for every
/// other digest the entry of the second.
pub proof fn lemma_push_then_pull_converges(
    local: Map<Seq<char>, EntryView>,
    remote: Map<Seq<char>, EntryView>,
)
    ensures
        ({
            let remote_after = remote.union_prefer_right(local);
            let local_after = local.union_prefer_right(remote_after);
            &&& local_after == remote_after
            &&& local_after.dom() == local.dom().union(remote.dom())
            &&& forall|k: Seq<char>| local.contains_key(k) ==> #[trigger] local_after[k] == local[k]
            &&& forall|k: Seq<char>|
                remote.contains_key(k) && !local.contains_key(k) ==> #[trigger] local_after[k]
                    == remote[k]
        }),
{
    let remote_after = remote.union_prefer_right(local);
    let local_after = local.union_prefer_right(remote_after);
    assert(local_after =~= remote_after);
    assert(local_after.dom() =~= local.dom().union(remote.dom()));
}

} // verus!
