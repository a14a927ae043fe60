//! The tree of folders and files that is offered for selection.

use crate::scanner::{extension_of, file_extension};
use crate::sorting::{in_order, lemma_placed_at, lemma_sorted_by_sorts, ranks, sorted_by};
use crate::lists::reversed;
use crate::text::{chars_of, ends_with, lemma_text_le_total, lemma_text_le_transitive, lowered, same_text, text_le, text_not_after, texts, to_ascii_lower};
use vstd::prelude::*;

verus! {

/// How deep below the root the tree is read.
pub const MAX_TREE_DEPTH: u32 = 3;

/// A folder or a file in the tree.
#[derive(Debug)]
pub struct FileNode {
    pub name: String,
    pub path: String,
    /// `None` for a file; for a folder what it holds, which may be nothing.
    pub children: Option<Vec<FileNode>>,
    pub selected: bool,
    pub expanded: bool,
}

/// The tree leaves out hidden entries, the folder `translated`, and whatever
/// has a name that ends in `_output`.
pub open spec fn is_listed_name(name: Seq<char>) -> bool {
    &&& !(name.len() > 0 && name[0] == '.')
    &&& name != "translated"@
    &&& !"_output"@.is_suffix_of(name)
}

/// Whether the tree shows an entry of this name.
pub fn lists_name(name: &str) -> (listed: bool)
    ensures
        listed == is_listed_name(name@),
{
    let chars = chars_of(name);
    if chars.len() > 0 && chars[0] == '.' {
        return false;
    }
    if same_text(name, "translated") {
        return false;
    }
    let suffix = chars_of("_output");
    !ends_with(&chars, &suffix)
}

/// The files that the tree shows are images and archives, by their extension
/// in any case of letters.
pub open spec fn is_listed_file(name: Seq<char>) -> bool {
    match extension_of(name) {
        Some(e) => {
            let e = lowered(e);
            e == "jpg"@ || e == "jpeg"@ || e == "png"@ || e == "webp"@ || e == "zip"@ || e
                == "rar"@ || e == "cbz"@ || e == "cbr"@
        },
        None => false,
    }
}

/// Whether the tree shows a file of this name.
pub fn lists_file(name: &str) -> (listed: bool)
    ensures
        listed == is_listed_file(name@),
{
    match file_extension(name) {
        Some(e) => {
            let chars = chars_of(e.as_str());
            let lower = to_ascii_lower(&chars);
            let l = lower.as_str();
            same_text(l, "jpg") || same_text(l, "jpeg") || same_text(l, "png") || same_text(
                l,
                "webp",
            ) || same_text(l, "zip") || same_text(l, "rar") || same_text(l, "cbz") || same_text(
                l,
                "cbr",
            )
        },
        None => false,
    }
}

/// Whether an entry of a folder gets a node: its name is shown, and it is a
/// folder or a file that the tree shows.
pub fn lists_entry(name: &str, is_dir: bool, is_file: bool) -> (listed: bool)
    ensures
        listed == (is_listed_name(name@) && (is_dir || (is_file && is_listed_file(name@)))),
{
    lists_name(name) && (is_dir || (is_file && lists_file(name)))
}

/// The order of the nodes of a folder: folders before files, and by name
/// within each.
pub open spec fn node_rule() -> spec_fn(FileNode, FileNode) -> bool {
    |a: FileNode, b: FileNode|
        if (a.children is Some) == (b.children is Some) {
            text_le(a.name@, b.name@)
        } else {
            a.children is Some
        }
}

/// The order of names.
pub open spec fn name_rule() -> spec_fn(Seq<char>, Seq<char>) -> bool {
    |a: Seq<char>, b: Seq<char>| text_le(a, b)
}

/// The order of nodes ranks every two nodes, and so does the order of names.
pub proof fn lemma_rules_rank()
    ensures
        ranks(node_rule()),
        ranks(name_rule()),
{
    assert forall|a: FileNode, b: FileNode| #[trigger]
        node_rule()(a, b) || #[trigger] node_rule()(b, a) by {
        lemma_text_le_total(a.name@, b.name@);
    }
    assert forall|a: FileNode, b: FileNode, c: FileNode| #[trigger]
        node_rule()(a, b) && #[trigger] node_rule()(b, c) implies node_rule()(a, c) by {
        if (a.children is Some) == (b.children is Some) && (b.children is Some) == (c.children
            is Some) {
            lemma_text_le_transitive(a.name@, b.name@, c.name@);
        }
    }
    assert forall|a: Seq<char>, b: Seq<char>| #[trigger]
        name_rule()(a, b) || #[trigger] name_rule()(b, a) by {
        lemma_text_le_total(a, b);
    }
    assert forall|a: Seq<char>, b: Seq<char>, c: Seq<char>| #[trigger]
        name_rule()(a, b) && #[trigger] name_rule()(b, c) implies name_rule()(a, c) by {
        lemma_text_le_transitive(a, b, c);
    }
}

/// Whether `a` may stand in front of `b` among the nodes of a folder.
fn node_before(a: &FileNode, b: &FileNode) -> (r: bool)
    ensures
        r == node_rule()(*a, *b),
{
    let a_folder = a.children.is_some();
    let b_folder = b.children.is_some();
    if a_folder == b_folder {
        let x = chars_of(a.name.as_str());
        let y = chars_of(b.name.as_str());
        text_not_after(&x, &y)
    } else {
        a_folder
    }
}

/// Puts the nodes of a folder in order: folders before files, and by name
/// within each; nodes of one name keep their order.
pub fn sort_nodes(nodes: Vec<FileNode>) -> (sorted: Vec<FileNode>)
    ensures
        sorted@ == sorted_by(nodes@, node_rule()),
        in_order(sorted@, node_rule()),
        sorted@.to_multiset() == nodes@.to_multiset(),
{
    let ghost all = nodes@;
    let total: usize = nodes.len();
    let mut rest = reversed(nodes);
    let mut sorted: Vec<FileNode> = Vec::new();
    let mut done: usize = 0;
    assert(all.take(0) =~= Seq::<FileNode>::empty());
    while rest.len() > 0
        invariant
            all.len() == total,
            done + rest@.len() == all.len(),
            all.take(done as int) + rest@.reverse() == all,
            sorted@ == sorted_by(all.take(done as int), node_rule()),
        decreases rest.len(),
    {
        let ghost rest_before = rest@;
        let node = rest.pop().unwrap();
        proof {
            assert(rest_before.reverse() =~= seq![node] + rest@.reverse());
            assert(all[done as int] == (all.take(done as int) + rest_before.reverse())[done as int]);
            assert(all.take(done + 1).drop_last() =~= all.take(done as int));
            assert(all.take(done + 1).last() == node);
            assert(all.take(done + 1) + rest@.reverse() =~= all.take(done as int)
                + rest_before.reverse());
        }
        let mut p: usize = sorted.len();
        while p > 0 && !node_before(&sorted[p - 1], &node)
            invariant
                p <= sorted@.len(),
                forall|k: int| p <= k < sorted@.len() ==> !node_rule()(#[trigger] sorted@[k], node),
            decreases p,
        {
            p -= 1;
        }
        proof {
            lemma_placed_at(sorted@, node, node_rule(), p as int);
        }
        sorted.insert(p, node);
        done += 1;
    }
    proof {
        assert(all.take(all.len() as int) =~= all);
        lemma_rules_rank();
        lemma_sorted_by_sorts(all, node_rule());
    }
    sorted
}

/// Puts names in the order of strings.
pub fn sort_names(names: Vec<String>) -> (sorted: Vec<String>)
    ensures
        texts(sorted@) == sorted_by(texts(names@), name_rule()),
        in_order(texts(sorted@), name_rule()),
        texts(sorted@).to_multiset() == texts(names@).to_multiset(),
{
    let ghost all = texts(names@);
    let total: usize = names.len();
    let mut rest = reversed(names);
    let mut sorted: Vec<String> = Vec::new();
    let mut done: usize = 0;
    assert(texts(rest@).reverse() =~= all);
    assert(all.take(0) =~= Seq::<Seq<char>>::empty());
    assert(texts(sorted@) =~= Seq::<Seq<char>>::empty());
    while rest.len() > 0
        invariant
            all.len() == total,
            done + rest@.len() == all.len(),
            all.take(done as int) + texts(rest@).reverse() == all,
            texts(sorted@) == sorted_by(all.take(done as int), name_rule()),
        decreases rest.len(),
    {
        let ghost rest_before = texts(rest@);
        let ghost sorted_before = texts(sorted@);
        let name = rest.pop().unwrap();
        proof {
            assert(texts(rest@) =~= rest_before.drop_last());
            assert(rest_before.reverse() =~= seq![name@] + texts(rest@).reverse());
            assert(all[done as int] == (all.take(done as int) + rest_before.reverse())[done as int]);
            assert(all.take(done + 1).drop_last() =~= all.take(done as int));
            assert(all.take(done + 1).last() == name@);
            assert(all.take(done + 1) + texts(rest@).reverse() =~= all.take(done as int)
                + rest_before.reverse());
        }
        let name_chars = chars_of(name.as_str());
        let mut p: usize = sorted.len();
        while p > 0 && !text_not_after(&chars_of(sorted[p - 1].as_str()), &name_chars)
            invariant
                p <= sorted@.len(),
                name_chars@ == name@,
                sorted_before == texts(sorted@),
                forall|k: int|
                    p <= k < sorted_before.len() ==> !name_rule()(
                        #[trigger] sorted_before[k],
                        name@,
                    ),
            decreases p,
        {
            assert(sorted_before[p - 1] == sorted@[p - 1]@);
            p -= 1;
        }
        proof {
            if p > 0 {
                assert(sorted_before[p - 1] == sorted@[p - 1]@);
            }
            lemma_placed_at(sorted_before, name@, name_rule(), p as int);
        }
        sorted.insert(p, name);
        assert(texts(sorted@) =~= sorted_before.insert(p as int, name@));
        done += 1;
    }
    proof {
        assert(all.take(all.len() as int) =~= all);
        lemma_rules_rank();
        lemma_sorted_by_sorts(all, name_rule());
    }
    sorted
}

/// A name is hidden when it begins with a dot.
pub open spec fn is_hidden(name: Seq<char>) -> bool {
    name.len() > 0 && name[0] == '.'
}

/// The folders that are offered below a folder: those that are not hidden, in
/// the order of their names.
pub fn list_subdirectories(folders: Vec<String>) -> (listed: Vec<String>)
    ensures
        texts(listed@) == sorted_by(
            texts(folders@).filter(|n: Seq<char>| !is_hidden(n)),
            name_rule(),
        ),
{
    let ghost shown = |n: Seq<char>| !is_hidden(n);
    let mut visible: Vec<String> = Vec::new();
    let mut i: usize = 0;
    assert(texts(folders@).take(0) =~= Seq::<Seq<char>>::empty());
    assert(texts(visible@) =~= Seq::<Seq<char>>::empty());
    while i < folders.len()
        invariant
            i <= folders.len(),
            shown == |n: Seq<char>| !is_hidden(n),
            texts(visible@) == texts(folders@).take(i as int).filter(shown),
        decreases folders.len() - i,
    {
        let ghost before = texts(visible@);
        proof {
            let next = texts(folders@).take(i + 1);
            assert(next.drop_last() =~= texts(folders@).take(i as int));
            assert(next.last() == folders@[i as int]@);
            reveal_with_fuel(Seq::filter, 2);
        }
        let chars = chars_of(folders[i].as_str());
        if !(chars.len() > 0 && chars[0] == '.') {
            visible.push(folders[i].clone());
            assert(texts(visible@) =~= before.push(folders@[i as int]@));
        }
        i += 1;
    }
    assert(texts(folders@).take(folders@.len() as int) =~= texts(folders@));
    sort_names(visible)
}

impl FileNode {
    /// The node of a file: selected, not expanded.
    pub fn file(name: String, path: String) -> (node: FileNode)
        ensures
            node.name == name,
            node.path == path,
            node.children is None,
            node.selected,
            !node.expanded,
    {
        FileNode { name, path, children: None, selected: true, expanded: false }
    }

    /// Whether a folder at this depth is shown without what it holds: the tree
    /// is read no deeper than `max_depth`.
    pub fn is_cut_off(depth: u32, max_depth: u32) -> (cut: bool)
        ensures
            cut == (depth > max_depth),
    {
        depth > max_depth
    }

    /// The node of a folder at `depth` below the root, with the nodes of what
    /// it holds put in order. Only the root is expanded.
    pub fn folder(name: String, path: String, children: Vec<FileNode>, depth: u32) -> (node:
        FileNode)
        ensures
            node.name == name,
            node.path == path,
            node.children matches Some(c) && c@ == sorted_by(children@, node_rule()),
            node.selected,
            node.expanded == (depth < 1),
    {
        FileNode {
            name,
            path,
            children: Some(sort_nodes(children)),
            selected: true,
            expanded: depth < 1,
        }
    }

    /// The node of a folder that lies too deep to be read: it is shown empty.
    pub fn cut_off_folder(name: String, path: String) -> (node: FileNode)
        ensures
            node.name == name,
            node.path == path,
            node.children matches Some(c) && c@.len() == 0,
            node.selected,
            !node.expanded,
    {
        FileNode { name, path, children: Some(Vec::new()), selected: true, expanded: false }
    }
}

} // verus!
