//! The journal of digests that one input root has already had transformed.

use crate::text::{same_text, texts};
use vstd::prelude::*;

verus! {

/// What `serde_json::from_str` makes of a text when asked for a list of strings.
pub uninterp spec fn json_string_list(text: Seq<char>) -> Option<Seq<Seq<char>>>;

/// What `serde_json::to_string` writes for a list of strings.
pub uninterp spec fn string_list_json(items: Seq<Seq<char>>) -> Seq<char>;

/// Calls `serde_json::from_str` for a `Vec<String>`. The parsed list is a
/// function of the text alone; `None` stands for every parse error.
#[verifier::external_body]
fn parse_string_list(text: &str) -> (list: Option<Vec<String>>)
    ensures
        list is Some <==> json_string_list(text@) is Some,
        list matches Some(v) ==> texts(v@) == json_string_list(text@).unwrap(),
{
    match serde_json::from_str::<Vec<String>>(text) {
        Ok(list) => Some(list),
        Err(_) => None,
    }
}

/// Calls `serde_json::to_string` on a `Vec<String>`. The text is a function of
/// the list alone. As the crate documents, writing fails only where a value
/// refuses to be written or a map has keys that are no strings; a list of
/// strings is neither, so there is always a text.
#[verifier::external_body]
fn write_string_list(items: &Vec<String>) -> (json: Option<String>)
    ensures
        json is Some,
        json.unwrap()@ == string_list_json(texts(items@)),
{
    match serde_json::to_string(items) {
        Ok(json) => Some(json),
        Err(_) => None,
    }
}

/// The set of the members of a list of digests.
pub open spec fn digest_set(list: Seq<Seq<char>>) -> Set<Seq<char>> {
    list.to_set()
}

/// A set of content digests, kept in the order in which they were first added.
pub struct HistoryRecord {
    entries: Vec<String>,
}

impl View for HistoryRecord {
    type V = Set<Seq<char>>;

    closed spec fn view(&self) -> Set<Seq<char>> {
        texts(self.entries@).to_set()
    }
}

/// The views of a list with one more string.
proof fn lemma_texts_push(v: Seq<String>, s: String)
    ensures
        texts(v.push(s)) == texts(v).push(s@),
{
    assert(texts(v.push(s)) =~= texts(v).push(s@));
}

/// The members of a list with one more item.
proof fn lemma_push_to_set<A>(s: Seq<A>, a: A)
    ensures
        s.push(a).to_set() == s.to_set().insert(a),
{
    assert forall|x: A| s.push(a).to_set().contains(x) <==> s.to_set().insert(a).contains(
        x,
    ) by {
        if s.push(a).contains(x) {
            let i = choose|i: int| 0 <= i < s.push(a).len() && s.push(a)[i] == x;
            if i < s.len() {
                assert(s[i] == x);
            }
        }
        if s.contains(x) {
            let i = choose|i: int| 0 <= i < s.len() && s[i] == x;
            assert(s.push(a)[i] == x);
        }
        if x == a {
            assert(s.push(a)[s.len() as int] == a);
        }
    }
    assert(s.push(a).to_set() =~= s.to_set().insert(a));
}

impl HistoryRecord {
    /// No digest is held twice.
    pub closed spec fn well_formed(&self) -> bool {
        texts(self.entries@).no_duplicates()
    }

    /// The digests in the order in which they were first added.
    pub closed spec fn order(&self) -> Seq<Seq<char>> {
        texts(self.entries@)
    }

    /// An empty record.
    pub fn new() -> (record: Self)
        ensures
            record.well_formed(),
            record@ == Set::<Seq<char>>::empty(),
            record.order() == Seq::<Seq<char>>::empty(),
    {
        let record = HistoryRecord { entries: Vec::new() };
        assert(texts(record.entries@) =~= Seq::<Seq<char>>::empty());
        assert(record@ =~= Set::<Seq<char>>::empty());
        record
    }

    /// Whether `hash` is in the record.
    pub fn contains(&self, hash: &str) -> (found: bool)
        ensures
            found == self@.contains(hash@),
    {
        let mut i: usize = 0;
        while i < self.entries.len()
            invariant
                i <= self.entries.len(),
                forall|j: int| 0 <= j < i ==> texts(self.entries@)[j] != hash@,
            decreases self.entries.len() - i,
        {
            if same_text(self.entries[i].as_str(), hash) {
                assert(texts(self.entries@)[i as int] == hash@);
                return true;
            }
            i += 1;
        }
        false
    }

    /// Adds `hash`; says whether it was new.
    pub fn insert(&mut self, hash: String) -> (fresh: bool)
        requires
            old(self).well_formed(),
        ensures
            final(self).well_formed(),
            final(self)@ == old(self)@.insert(hash@),
            fresh == !old(self)@.contains(hash@),
            final(self).order() == if fresh {
                old(self).order().push(hash@)
            } else {
                old(self).order()
            },
    {
        if self.contains(hash.as_str()) {
            assert(self@.insert(hash@) =~= self@);
            false
        } else {
            proof {
                lemma_texts_push(self.entries@, hash);
                lemma_push_to_set(texts(self.entries@), hash@);
            }
            self.entries.push(hash);
            true
        }
    }

    /// A record holds finitely many digests.
    pub proof fn lemma_is_finite(&self)
        ensures
            self@.finite(),
    {
    }

    /// The number of digests in the record.
    pub fn len(&self) -> (n: usize)
        requires
            self.well_formed(),
        ensures
            n == self@.len(),
            n == self.order().len(),
            self@.finite(),
    {
        proof {
            texts(self.entries@).unique_seq_to_set();
        }
        self.entries.len()
    }

    /// Whether the record holds no digest.
    pub fn is_empty(&self) -> (empty: bool)
        ensures
            empty == (self@ == Set::<Seq<char>>::empty()),
    {
        proof {
            if self.entries@.len() > 0 {
                assert(texts(self.entries@)[0] == self.entries@[0]@);
                assert(self@.contains(texts(self.entries@)[0]));
            } else {
                assert(self@ =~= Set::<Seq<char>>::empty());
            }
        }
        self.entries.len() == 0
    }

    /// The record made of the members of `list`, each kept where it first occurs.
    pub fn from_list(list: &Vec<String>) -> (record: Self)
        ensures
            record.well_formed(),
            record@ == digest_set(texts(list@)),
    {
        let mut record = HistoryRecord::new();
        let mut i: usize = 0;
        assert(texts(list@).take(0).to_set() =~= Set::<Seq<char>>::empty());
        while i < list.len()
            invariant
                i <= list.len(),
                record.well_formed(),
                record@ == texts(list@).take(i as int).to_set(),
            decreases list.len() - i,
        {
            proof {
                lemma_push_to_set(texts(list@).take(i as int), list@[i as int]@);
                assert(texts(list@).take(i + 1) =~= texts(list@).take(i as int).push(
                    list@[i as int]@,
                ));
            }
            record.insert(list[i].clone());
            i += 1;
        }
        assert(texts(list@).take(list@.len() as int) =~= texts(list@));
        record
    }

    /// The digests as a list, in the order in which they were first added.
    pub fn to_list(&self) -> (list: Vec<String>)
        requires
            self.well_formed(),
        ensures
            texts(list@) == self.order(),
            texts(list@).to_set() == self@,
            texts(list@).no_duplicates(),
    {
        let list = self.entries.clone();
        assert(texts(list@) =~= texts(self.entries@));
        list
    }
}

/// The record that a history file stands for: the digests of the list of
/// strings it holds, or nothing where the file is absent or holds anything else.
pub open spec fn stored_history(content: Option<Seq<char>>) -> Set<Seq<char>> {
    match content {
        Some(text) => match json_string_list(text) {
            Some(list) => digest_set(list),
            None => Set::empty(),
        },
        None => Set::empty(),
    }
}

/// Reads a record from the content of a history file; `None` stands for a file
/// that could not be read. A content that is no list of strings gives the empty
/// record.
pub fn load_history(content: Option<&str>) -> (record: HistoryRecord)
    ensures
        record.well_formed(),
        record@ == stored_history(
            match content {
                Some(text) => Some(text@),
                None => None,
            },
        ),
{
    match content {
        Some(text) => match parse_string_list(text) {
            Some(list) => HistoryRecord::from_list(&list),
            None => HistoryRecord::new(),
        },
        None => HistoryRecord::new(),
    }
}

/// The content to write to the history file for `history`: its digests as a
/// list, in the order in which they were first added.
pub fn save_history(history: &HistoryRecord) -> (content: String)
    requires
        history.well_formed(),
    ensures
        content@ == string_list_json(history.order()),
{
    let list = history.to_list();
    write_string_list(&list).unwrap()
}

} // verus!
