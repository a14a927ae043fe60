//! Which entries of a directory tree are input files: the names that a scan
//! passes by, the extensions that it takes, and the choice among what a walk
//! of the tree has found.

use crate::text::{
    chars_of, ends_with, last_index, lowered, rfind_char, same_text, string_of_range, texts,
    to_ascii_lower,
};
use vstd::prelude::*;

verus! {

/// A scan passes by hidden entries, the folders `translated` and `error`, and
/// whatever has a name that ends in `_output`.
pub open spec fn is_kept_name(name: Seq<char>) -> bool {
    &&& !(name.len() > 0 && name[0] == '.')
    &&& name != "translated"@
    &&& name != "error"@
    &&& !"_output"@.is_suffix_of(name)
}

/// Whether a scan looks at an entry of this name, and below it.
pub fn keeps_entry(name: &str) -> (kept: bool)
    ensures
        kept == is_kept_name(name@),
{
    let chars = chars_of(name);
    if chars.len() > 0 && chars[0] == '.' {
        return false;
    }
    if same_text(name, "translated") || same_text(name, "error") {
        return false;
    }
    let suffix = chars_of("_output");
    !ends_with(&chars, &suffix)
}

/// The extension of a file name as `Path::extension` reads it: what follows
/// the last dot, unless the name is `..`, has no dot, or has its only dot in
/// front.
pub open spec fn extension_of(name: Seq<char>) -> Option<Seq<char>> {
    if name == ".."@ {
        None
    } else {
        match last_index(name, '.') {
            Some(i) => if i == 0 {
                None
            } else {
                Some(name.subrange(i + 1, name.len() as int))
            },
            None => None,
        }
    }
}

/// The extension of a file name.
pub fn file_extension(name: &str) -> (extension: Option<String>)
    ensures
        extension is Some <==> extension_of(name@) is Some,
        extension matches Some(e) ==> e@ == extension_of(name@).unwrap(),
{
    if same_text(name, "..") {
        return None;
    }
    let chars = chars_of(name);
    match rfind_char(&chars, '.') {
        Some(i) => if i == 0 {
            None
        } else {
            Some(string_of_range(&chars, i + 1, chars.len()))
        },
        None => None,
    }
}

/// The extensions of the files that are taken, whatever the case of their letters.
pub open spec fn is_image_extension(extension: Seq<char>) -> bool {
    let e = lowered(extension);
    e == "jpg"@ || e == "jpeg"@ || e == "png"@ || e == "webp"@
}

/// Whether files of this extension are taken.
pub fn image_extension(extension: &str) -> (taken: bool)
    ensures
        taken == is_image_extension(extension@),
{
    let chars = chars_of(extension);
    let lower = to_ascii_lower(&chars);
    same_text(lower.as_str(), "jpg") || same_text(lower.as_str(), "jpeg") || same_text(
        lower.as_str(),
        "png",
    ) || same_text(lower.as_str(), "webp")
}

/// Whether a file of this name is taken as an image.
pub open spec fn is_image_name(name: Seq<char>) -> bool {
    match extension_of(name) {
        Some(e) => is_image_extension(e),
        None => false,
    }
}

/// Whether a file of this name is taken as an image.
pub fn image_name(name: &str) -> (taken: bool)
    ensures
        taken == is_image_name(name@),
{
    match file_extension(name) {
        Some(e) => image_extension(e.as_str()),
        None => false,
    }
}

/// An entry that a walk of the tree has found.
pub struct ScanEntry {
    /// The entry's path.
    pub path: String,
    /// The names on the way to the entry: that of the root of the walk, those
    /// of the folders below it, and last the entry's own.
    pub names: Vec<String>,
    /// Whether the entry is a file.
    pub is_file: bool,
}

/// A `ScanEntry` as plain text.
pub ghost struct ScanEntryView {
    pub path: Seq<char>,
    pub names: Seq<Seq<char>>,
    pub is_file: bool,
}

impl View for ScanEntry {
    type V = ScanEntryView;

    open spec fn view(&self) -> ScanEntryView {
        ScanEntryView { path: self.path@, names: texts(self.names@), is_file: self.is_file }
    }
}

/// The views of a list of entries.
pub open spec fn scan_views(entries: Seq<ScanEntry>) -> Seq<ScanEntryView> {
    Seq::new(entries.len(), |i: int| entries[i]@)
}

/// None of the names is passed by.
pub open spec fn all_kept(names: Seq<Seq<char>>) -> bool {
    forall|i: int| 0 <= i < names.len() ==> is_kept_name(#[trigger] names[i])
}

/// An entry is an input file when it is a file with the extension of an image
/// and the scan passes by none of the names on the way to it.
pub open spec fn is_input_file(entry: ScanEntryView) -> bool {
    entry.is_file && entry.names.len() > 0 && all_kept(entry.names) && is_image_name(
        entry.names.last(),
    )
}

/// The paths of the input files among the entries, in the order of the walk.
pub open spec fn images_among(entries: Seq<ScanEntryView>) -> Seq<Seq<char>> {
    entries.filter(|e: ScanEntryView| is_input_file(e)).map_values(|e: ScanEntryView| e.path)
}

/// Whether the scan passes by none of the names.
pub fn keeps_all(names: &Vec<String>) -> (kept: bool)
    ensures
        kept == all_kept(texts(names@)),
{
    let mut i: usize = 0;
    while i < names.len()
        invariant
            i <= names.len(),
            forall|j: int| 0 <= j < i ==> is_kept_name(#[trigger] texts(names@)[j]),
        decreases names.len() - i,
    {
        if !keeps_entry(names[i].as_str()) {
            assert(!is_kept_name(texts(names@)[i as int]));
            return false;
        }
        i += 1;
    }
    true
}

/// Whether an entry is an input file.
pub fn input_file(entry: &ScanEntry) -> (taken: bool)
    ensures
        taken == is_input_file(entry@),
{
    if !entry.is_file || entry.names.len() == 0 {
        return false;
    }
    let last = entry.names.len() - 1;
    assert(texts(entry.names@).last() == entry.names@[last as int]@);
    keeps_all(&entry.names) && image_name(entry.names[last].as_str())
}

/// Picks the input files out of what a walk of the tree has found: the paths
/// of the image files that are not hidden and lie in no folder that the scan
/// passes by, in the order of the walk.
pub fn find_all_images(entries: &Vec<ScanEntry>) -> (images: Vec<String>)
    ensures
        texts(images@) == images_among(scan_views(entries@)),
{
    let ghost all = scan_views(entries@);
    let ghost taken = |e: ScanEntryView| is_input_file(e);
    let ghost path = |e: ScanEntryView| e.path;
    let mut images: Vec<String> = Vec::new();
    let mut i: usize = 0;
    assert(all.take(0) =~= Seq::<ScanEntryView>::empty());
    assert(texts(images@) =~= Seq::<Seq<char>>::empty());
    while i < entries.len()
        invariant
            i <= entries.len(),
            all == scan_views(entries@),
            taken == |e: ScanEntryView| is_input_file(e),
            path == |e: ScanEntryView| e.path,
            texts(images@) == all.take(i as int).filter(taken).map_values(path),
        decreases entries.len() - i,
    {
        let ghost before = texts(images@);
        proof {
            let next = all.take(i + 1);
            assert(next.drop_last() =~= all.take(i as int));
            assert(next.last() == entries@[i as int]@);
            reveal_with_fuel(Seq::filter, 2);
        }
        if input_file(&entries[i]) {
            let ghost kept = all.take(i as int).filter(taken);
            images.push(entries[i].path.clone());
            assert(texts(images@) =~= before.push(entries@[i as int].path@));
            assert(kept.push(entries@[i as int]@).map_values(path) =~= kept.map_values(path).push(
                entries@[i as int].path@,
            ));
        }
        i += 1;
    }
    assert(all.take(entries@.len() as int) =~= all);
    images
}

} // verus!
