use dev_sync::fstree::FsTree;

#[derive(Debug, PartialEq, Clone)]
struct Item {
    i: i8,
    s: String,
}

fn item(i: i8, s: &str) -> Item {
    Item { i, s: String::from(s) }
}

#[test]
fn fstree_it_works() {
    let mut tree: FsTree<Item> = FsTree::new();
    let item1 = item(1, "s1");
    let item2 = item(2, "s2");
    let item3 = item(3, "s3");
    tree.insert("/tmp/dir1/subdir1/subsubdir1", item1.clone());
    tree.insert("/tmp/dir2/subdir1/subsubdir2/", item2.clone());
    tree.insert("/tmp/dir1", item3.clone());
    assert_eq!(tree.get_closest("/tmp/dir1/file1").unwrap(), &item3);
    assert_eq!(tree.get_closest("/tmp/dir1/subdir1/file1").unwrap(), &item3);
    assert_eq!(
        tree.get_closest("/tmp/dir1/subdir1/subsubdir1/subsubsubdir1/file1").unwrap(),
        &item1
    );
    assert_eq!(tree.get_closest("/tmp/dir2/subdir1/subsubdir2/file1").unwrap(), &item2);
    assert_eq!(tree.get_closest("/random/file1"), None);
    let item4 = item(4, "s4");
    tree.insert("/", item4.clone());
    assert_eq!(tree.get_closest("/random/file1").unwrap(), &item4);
}

#[test]
fn iterator_works() {
    let mut tree: FsTree<Item> = FsTree::new();
    let item1 = item(1, "s1");
    let item2 = item(2, "s2");
    let item3 = item(3, "s3");
    let item4 = item(4, "s4");
    tree.insert("/tmp/dir1/subdir1/subsubdir1", item1.clone());
    tree.insert("/tmp/dir2/subdir1/subsubdir2", item2.clone());
    tree.insert("/tmp/dir1", item3.clone());
    tree.insert("/", item4.clone());

    let mut v: Vec<&Item> = Vec::new();
    for item in tree.values() {
        v.push(item);
    }
    assert_eq!(v.len(), 4);
    assert!(v.contains(&&item1));
    assert!(v.contains(&&item2));
    assert!(v.contains(&&item3));
    assert!(v.contains(&&item4));
}

#[test]
fn closest_prefers_deeper_workspace() {
    let mut tree: FsTree<&str> = FsTree::new();
    tree.insert("/tmp/dir1", "outer");
    tree.insert("/tmp/dir1/subdir1/subsubdir1", "inner");
    assert_eq!(tree.get_closest("/tmp/dir1/file1"), Some(&"outer"));
    assert_eq!(tree.get_closest("/tmp/dir1/subdir1/subsubdir1/deep/file"), Some(&"inner"));
    assert_eq!(tree.get_closest("/tmp/dir1/subdir1/subsubdir1"), Some(&"inner"));
    assert_eq!(tree.get_closest("/tmp/dir1/subdir1"), Some(&"outer"));
    assert_eq!(tree.get_closest("/unrelated/file"), None);
    tree.insert("/", "root");
    assert_eq!(tree.get_closest("/unrelated/file"), Some(&"root"));
    assert_eq!(tree.get_closest("/tmp/dir1/file1"), Some(&"outer"));
}

#[test]
fn reinsert_overwrites_payload() {
    let mut tree: FsTree<u32> = FsTree::new();
    tree.insert("/a/b", 1);
    tree.insert("/a/b/", 2);
    assert_eq!(tree.get_closest("/a/b"), Some(&2));
    assert_eq!(tree.get_closest("/a/b/c"), Some(&2));
    assert_eq!(tree.values().len(), 1);
}

#[test]
fn values_count_each_stored_path_once() {
    let mut tree: FsTree<u32> = FsTree::new();
    assert_eq!(tree.values().len(), 0);
    tree.insert("/x", 7);
    tree.insert("/x/y/z", 7);
    tree.insert("/w", 9);
    let mut vals: Vec<u32> = tree.values().into_iter().copied().collect();
    vals.sort();
    assert_eq!(vals, vec![7, 7, 9]);
}

#[test]
fn paths_compare_by_segments() {
    let mut tree: FsTree<u32> = FsTree::new();
    tree.insert("/a/b", 1);
    assert_eq!(tree.get_closest("/a/./b/c"), Some(&1));
    assert_eq!(tree.get_closest("//a//b/"), Some(&1));
    assert_eq!(tree.get_closest("/a/bc"), None);
    assert_eq!(tree.get_closest("/a/../a/b"), None);
    assert_eq!(tree.get_closest("a/b"), None);
    let segs = vec!["/".to_string(), "a".to_string(), "b".to_string()];
    assert_eq!(tree.get_with_path(&segs), Some(&1));
    let mut rel: FsTree<u32> = FsTree::new();
    rel.insert_with_path(&vec![".".to_string(), "x".to_string()], 2);
    assert_eq!(rel.get_closest("./x/y"), Some(&2));
    assert_eq!(rel.get_closest("x/y"), None);
}

#[test]
fn insert_with_segments() {
    let mut tree: FsTree<u32> = FsTree::new();
    let segs = vec!["/".to_string(), "a".to_string()];
    tree.insert_with_path(&segs, 5);
    let query = vec!["/".to_string(), "a".to_string(), "b".to_string()];
    assert_eq!(tree.get_with_path(&query), Some(&5));
    let other = vec!["/".to_string(), "b".to_string()];
    assert_eq!(tree.get_with_path(&other), None);
}
