use tapi::file_ops::{
    list_subdirectories, lists_entry, lists_file, lists_name, sort_names, sort_nodes, FileNode,
    MAX_TREE_DEPTH,
};
use tapi::text::{chars_of, text_not_after};

fn names(items: &[&str]) -> Vec<String> {
    items.iter().map(|s| s.to_string()).collect()
}

#[test]
fn the_tree_leaves_out_hidden_and_output_entries() {
    assert!(lists_name("ch1"));
    assert!(!lists_name(".f_history"));
    assert!(!lists_name("translated"));
    assert!(!lists_name("ch1_output"));
    assert!(lists_name("error"));
    assert!(lists_file("a.PNG") && lists_file("b.cbr") && lists_file("c.rar") && lists_file("d.zip"));
    assert!(!lists_file("a.pdf") && !lists_file("a.txt") && !lists_file("a"));
    assert!(lists_entry("ch1", true, false));
    assert!(lists_entry("a.webp", false, true));
    assert!(!lists_entry("a.txt", false, true));
    assert!(!lists_entry(".x", true, false));
    assert!(!lists_entry("a.png", false, false));
    assert_eq!(MAX_TREE_DEPTH, 3);
}

#[test]
fn strings_are_ordered_like_std_orders_them() {
    let words = ["", "a", "B", "ab", "a b", "Z", "é", "日本", "b", "aa", "a_", "10", "9"];
    for x in words {
        for y in words {
            assert_eq!(text_not_after(&chars_of(x), &chars_of(y)), x <= y, "{x:?} {y:?}");
        }
    }
    let mut expected = names(&words);
    expected.sort();
    assert_eq!(sort_names(names(&words)), expected);
}

#[test]
fn folders_come_before_files_and_names_are_in_order() {
    let nodes = vec![
        FileNode::file("b.png".into(), "/r/b.png".into()),
        FileNode::folder("z".into(), "/r/z".into(), Vec::new(), 1),
        FileNode::file("a.png".into(), "/r/a.png".into()),
        FileNode::cut_off_folder("c".into(), "/r/c".into()),
        FileNode::file("a.png".into(), "/r/other/a.png".into()),
    ];
    let sorted = sort_nodes(nodes);
    let order: Vec<(&str, &str)> =
        sorted.iter().map(|n| (n.name.as_str(), n.path.as_str())).collect();
    assert_eq!(
        order,
        vec![
            ("c", "/r/c"),
            ("z", "/r/z"),
            ("a.png", "/r/a.png"),
            ("a.png", "/r/other/a.png"),
            ("b.png", "/r/b.png")
        ]
    );
}

#[test]
fn nodes_of_folders_and_files() {
    let file = FileNode::file("a.png".into(), "/r/a.png".into());
    assert!(file.children.is_none() && file.selected && !file.expanded);
    let root = FileNode::folder(
        "r".into(),
        "/r".into(),
        vec![
            FileNode::file("b".into(), "/r/b".into()),
            FileNode::folder("a".into(), "/r/a".into(), Vec::new(), 1),
        ],
        0,
    );
    assert!(root.expanded && root.selected);
    let children = root.children.unwrap();
    assert_eq!(children[0].name, "a");
    assert!(!children[0].expanded);
    assert_eq!(children[1].name, "b");
    let deep = FileNode::cut_off_folder("d".into(), "/r/a/b/c/d".into());
    assert_eq!(deep.children.map(|c| c.len()), Some(0));
    assert!(FileNode::is_cut_off(4, 3));
    assert!(!FileNode::is_cut_off(3, 3));
}

#[test]
fn visible_folders_in_order() {
    assert_eq!(
        list_subdirectories(names(&["vol2", ".git", "Vol1", "vol10", ".cache", "extras"])),
        names(&["Vol1", "extras", "vol10", "vol2"])
    );
    assert!(list_subdirectories(Vec::new()).is_empty());
}
