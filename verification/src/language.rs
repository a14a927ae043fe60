//! The texts of the user interface, read from a file of sections and
//! `key = value` lines.

use crate::text::{
    chars_of, find_char, first_index, same_text, string_of_range, trim_bounds, trimmed,
};
use crate::table::{
    distinct_keys, lemma_table_keys, lemma_table_last_value, lemma_table_push,
    lemma_table_update, lemma_table_update_last, table_of,
};
use vstd::prelude::*;

verus! {

/// The texts of one language, by key.
#[derive(Clone, Debug, Default)]
pub struct Language {
    /// Keys and texts in the order in which they were first read. Of two pairs
    /// with one key the later one counts; the language itself makes no such pairs.
    pub strings: Vec<(String, String)>,
}

/// The keys and texts of a list of pairs.
pub open spec fn pair_texts(pairs: Seq<(String, String)>) -> Seq<(Seq<char>, Seq<char>)> {
    Seq::new(pairs.len(), |i: int| (pairs[i].0@, pairs[i].1@))
}

/// Where the reader stands in a file: the section it is in, and what it has read.
pub ghost struct ReadState {
    pub section: Seq<char>,
    pub strings: Map<Seq<char>, Seq<char>>,
}

/// What one line does to the reader. Empty lines and lines that begin with `;`
/// or `#` do nothing. A line in square brackets opens a section. In the section
/// `strings` a line with an `=` sets the key before it to the text after it.
pub open spec fn read_line(state: ReadState, line: Seq<char>) -> ReadState {
    let t = trimmed(line);
    if t.len() == 0 || t[0] == ';' || t[0] == '#' {
        state
    } else if t[0] == '[' && t.last() == ']' {
        ReadState { section: t.subrange(1, t.len() - 1), strings: state.strings }
    } else if state.section == "strings"@ {
        match first_index(t, '=') {
            Some(i) => ReadState {
                section: state.section,
                strings: state.strings.insert(
                    trimmed(t.subrange(0, i)),
                    trimmed(t.subrange(i + 1, t.len() as int)),
                ),
            },
            None => state,
        }
    } else {
        state
    }
}

/// What the lines of `text` do to the reader, one after the other.
pub open spec fn read_text(state: ReadState, text: Seq<char>) -> ReadState
    decreases text.len(),
{
    match first_index(text, '\n') {
        Some(i) => if 0 <= i < text.len() {
            read_text(read_line(state, text.subrange(0, i)), text.subrange(i + 1, text.len() as int))
        } else {
            state
        },
        None => read_line(state, text),
    }
}

/// The table that a language file holds.
pub open spec fn language_table(content: Seq<char>) -> Map<Seq<char>, Seq<char>> {
    read_text(ReadState { section: Seq::empty(), strings: Map::empty() }, content).strings
}

impl Language {
    /// No key is held twice.
    pub open spec fn well_formed(&self) -> bool {
        distinct_keys(pair_texts(self.strings@))
    }

    /// The texts by key.
    pub open spec fn table(&self) -> Map<Seq<char>, Seq<char>> {
        table_of(pair_texts(self.strings@))
    }

    /// A language without texts: it holds no pair, so its table is empty.
    pub fn new() -> (language: Self)
        ensures
            language.well_formed(),
            language.strings@ == Seq::<(String, String)>::empty(),
            language.table() == Map::<Seq<char>, Seq<char>>::empty(),
    {
        let language = Language { strings: Vec::new() };
        assert(pair_texts(language.strings@) =~= Seq::empty());
        language
    }

    /// The position of the last pair that has `key`.
    fn position(&self, key: &str) -> (found: Option<usize>)
        ensures
            match found {
                Some(i) => i < self.strings@.len() && pair_texts(self.strings@)[i as int].0 == key@
                    && forall|j: int|
                    i < j < self.strings@.len() ==> (#[trigger] pair_texts(self.strings@)[j]).0
                        != key@,
                None => forall|j: int|
                    0 <= j < self.strings@.len() ==> (#[trigger] pair_texts(self.strings@)[j]).0
                        != key@,
            },
    {
        let mut i: usize = self.strings.len();
        while i > 0
            invariant
                i <= self.strings.len(),
                forall|j: int|
                    i <= j < self.strings@.len() ==> (#[trigger] pair_texts(self.strings@)[j]).0
                        != key@,
            decreases i,
        {
            i -= 1;
            if same_text(self.strings[i].0.as_str(), key) {
                return Some(i);
            }
        }
        None
    }

    /// Sets the text of `key`, in place of the one it had. No key comes to
    /// stand twice by it.
    pub fn set(&mut self, key: String, value: String)
        ensures
            final(self).table() == old(self).table().insert(key@, value@),
            old(self).well_formed() ==> final(self).well_formed(),
    {
        let ghost before = pair_texts(self.strings@);
        match self.position(key.as_str()) {
            Some(i) => {
                proof {
                    lemma_table_update_last(before, i as int, value@);
                    if distinct_keys(before) {
                        lemma_table_update(before, i as int, value@);
                    }
                }
                self.strings.set(i, (key, value));
                assert(pair_texts(self.strings@) =~= before.update(
                    i as int,
                    (before[i as int].0, value@),
                ));
            },
            None => {
                proof {
                    lemma_table_push(before, key@, value@);
                }
                self.strings.push((key, value));
                assert(pair_texts(self.strings@) =~= before.push((key@, value@)));
            },
        }
    }

    /// The text of `key`, or the key itself where the language has no text for it.
    pub fn get(&self, key: &str) -> (text: String)
        ensures
            text@ == if self.table().contains_key(key@) {
                self.table()[key@]
            } else {
                key@
            },
    {
        proof {
            lemma_table_keys(pair_texts(self.strings@), key@);
        }
        match self.position(key) {
            Some(i) => {
                proof {
                    lemma_table_last_value(pair_texts(self.strings@), i as int);
                }
                self.strings[i].1.clone()
            },
            None => key.to_owned(),
        }
    }

    /// Reads one line, already split into characters, in the section `section`.
    fn read_chars(&mut self, section: &mut String, chars: &Vec<char>, from: usize, to: usize)
        requires
            old(self).well_formed(),
            from <= to <= chars.len(),
        ensures
            final(self).well_formed(),
            (ReadState { section: final(section)@, strings: final(self).table() }) == read_line(
                ReadState { section: old(section)@, strings: old(self).table() },
                chars@.subrange(from as int, to as int),
            ),
    {
        let ghost line = chars@.subrange(from as int, to as int);
        let mut buffer: Vec<char> = Vec::new();
        let mut k: usize = from;
        while k < to
            invariant
                from <= k <= to <= chars.len(),
                buffer@ == chars@.subrange(from as int, k as int),
            decreases to - k,
        {
            buffer.push(chars[k]);
            assert(chars@.subrange(from as int, k + 1) =~= chars@.subrange(from as int, k as int).push(
                chars@[k as int],
            ));
            k += 1;
        }
        let (a, b) = trim_bounds(&buffer);
        let ghost t = trimmed(line);
        assert(t == buffer@.subrange(a as int, b as int));
        if a == b {
            return ;
        }
        let first = buffer[a];
        let last = buffer[b - 1];
        assert(t[0] == first && t.last() == last);
        if first == ';' || first == '#' {
            return ;
        }
        if first == '[' && last == ']' {
            *section = string_of_range(&buffer, a + 1, b - 1);
            assert(t.subrange(1, t.len() - 1) =~= buffer@.subrange(a + 1, b - 1));
            return ;
        }
        if same_text(section.as_str(), "strings") {
            match find_char(&buffer, a, b, '=') {
                Some(i) => {
                    let mut key_part: Vec<char> = Vec::new();
                    let mut j: usize = a;
                    while j < a + i
                        invariant
                            a <= j <= a + i < b <= buffer.len(),
                            key_part@ == buffer@.subrange(a as int, j as int),
                        decreases a + i - j,
                    {
                        key_part.push(buffer[j]);
                        assert(buffer@.subrange(a as int, j + 1) =~= buffer@.subrange(
                            a as int,
                            j as int,
                        ).push(buffer@[j as int]));
                        j += 1;
                    }
                    let mut value_part: Vec<char> = Vec::new();
                    let mut j: usize = a + i + 1;
                    while j < b
                        invariant
                            a + i + 1 <= j <= b <= buffer.len(),
                            value_part@ == buffer@.subrange(a + i + 1, j as int),
                        decreases b - j,
                    {
                        value_part.push(buffer[j]);
                        assert(buffer@.subrange(a + i + 1, j + 1) =~= buffer@.subrange(
                            a + i + 1,
                            j as int,
                        ).push(buffer@[j as int]));
                        j += 1;
                    }
                    assert(key_part@ =~= t.subrange(0, i as int));
                    assert(value_part@ =~= t.subrange(i + 1, t.len() as int));
                    let (ka, kb) = trim_bounds(&key_part);
                    let (va, vb) = trim_bounds(&value_part);
                    let key = string_of_range(&key_part, ka, kb);
                    let value = string_of_range(&value_part, va, vb);
                    self.set(key, value);
                },
                None => {},
            }
        }
    }

    /// Reads the content of a language file.
    pub fn load(content: &str) -> (language: Self)
        ensures
            language.well_formed(),
            language.table() == language_table(content@),
    {
        let chars = chars_of(content);
        let mut language = Language::new();
        let mut section = String::new();
        let mut from: usize = 0;
        assert(chars@.subrange(0, chars@.len() as int) =~= chars@);
        loop
            invariant_except_break
                from <= chars.len(),
                language.well_formed(),
                language_table(content@) == read_text(
                    ReadState { section: section@, strings: language.table() },
                    chars@.subrange(from as int, chars@.len() as int),
                ).strings,
            ensures
                language.well_formed(),
                language.table() == language_table(content@),
            decreases chars.len() - from,
        {
            let ghost rest = chars@.subrange(from as int, chars@.len() as int);
            match find_char(&chars, from, chars.len(), '\n') {
                Some(i) => {
                    language.read_chars(&mut section, &chars, from, from + i);
                    assert(rest.subrange(0, i as int) =~= chars@.subrange(
                        from as int,
                        from + i,
                    ));
                    assert(rest.subrange(i + 1, rest.len() as int) =~= chars@.subrange(
                        from + i + 1,
                        chars@.len() as int,
                    ));
                    from = from + i + 1;
                },
                None => {
                    language.read_chars(&mut section, &chars, from, chars.len());
                    break ;
                },
            }
        }
        language
    }
}

} // verus!
