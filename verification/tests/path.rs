use std::collections::hash_map::DefaultHasher;
use std::hash::{Hash, Hasher};
use steit::path::Path;

fn hash_of(path: &Path) -> u64 {
    let mut hasher = DefaultHasher::new();
    path.hash(&mut hasher);
    hasher.finish()
}

#[test]
fn root_is_empty() {
    let root = Path::root();
    assert!(root.is_root());
    assert_eq!(root.len(), 0);
    assert!(root.tags().is_empty());
}

#[test]
fn child_appends_and_leaves_the_receiver_alone() {
    let root = Path::root();
    let child = root.child(7);
    assert!(root.is_root());
    assert_eq!(child.tags(), &vec![7u16]);
    let grandchild = child.child(0).child(65535);
    assert_eq!(child.tags(), &vec![7u16]);
    assert_eq!(grandchild.tags(), &vec![7u16, 0, 65535]);
    assert_eq!(grandchild.len(), 3);
    assert!(!grandchild.is_root());
}

#[test]
fn parent_removes_the_last_tag() {
    let path = Path::from_tags(vec![1, 2, 3]);
    assert_eq!(path.parent().tags(), &vec![1u16, 2]);
    assert_eq!(path.parent().parent().tags(), &vec![1u16]);
    assert!(path.parent().parent().parent().is_root());
    assert_eq!(path.tags(), &vec![1u16, 2, 3]);
}

#[test]
fn parent_of_root_is_root() {
    let root = Path::root();
    assert!(root.parent().is_root());
    assert!(root.parent().parent() == root);
}

#[test]
fn parent_of_child_is_the_path_itself() {
    for tags in [vec![], vec![0u16], vec![5, 2], vec![65535, 65535, 1, 0]] {
        let path = Path::from_tags(tags.clone());
        for tag in [0u16, 1, 2, 65535] {
            assert!(path.child(tag).parent() == path);
            assert_eq!(path.child(tag).parent().tags(), &tags);
        }
    }
}

#[test]
fn paths_are_equal_when_their_tags_are() {
    assert!(Path::root() == Path::root());
    assert!(Path::from_tags(vec![1, 2]) == Path::root().child(1).child(2));
    assert!(Path::from_tags(vec![1, 2]) != Path::from_tags(vec![2, 1]));
    assert!(Path::from_tags(vec![1, 2]) != Path::from_tags(vec![1]));
    assert!(Path::from_tags(vec![1]) != Path::from_tags(vec![1, 2]));
    assert!(Path::from_tags(vec![1, 2]) != Path::from_tags(vec![1, 3]));
    assert!(Path::root() != Path::from_tags(vec![0]));
}

#[test]
fn equal_paths_hash_alike() {
    let one = Path::root().child(3).child(4);
    let other = Path::from_tags(vec![3, 4]);
    assert_eq!(hash_of(&one), hash_of(&other));
    assert_eq!(hash_of(&one.clone()), hash_of(&one));
}

#[test]
fn clone_is_equal_and_independent() {
    let path = Path::from_tags(vec![9, 8]);
    let copy = path.clone();
    assert!(copy == path);
    assert_eq!(copy.child(1).tags(), &vec![9u16, 8, 1]);
    assert_eq!(path.tags(), &vec![9u16, 8]);
}
