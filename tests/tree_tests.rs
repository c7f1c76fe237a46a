use address_book::run;
use address_book::tree::{NodeRefHolder, Tree};

#[test]
fn test_tree_low_level_node_manipulation() {
    let mut tree: Tree<i32> = Tree::new();
    let child_node = NodeRefHolder::new(&mut tree, 3);
    let parent_node = NodeRefHolder::new(&mut tree, 5);
    assert!(!child_node.has_parent(&tree));
    parent_node.add_child_and_update_its_parent(&mut tree, &child_node);

    assert!(child_node.has_parent(&tree));
    let parent = child_node.get_parent(&tree).unwrap();
    assert_eq!(tree.node(parent).value, 5);
    assert_eq!(tree.node(child_node.get_internal_ref_copy()).value, 3);
    assert!(!parent_node.has_parent(&tree));
    assert_eq!(tree.node(parent_node.get_internal_ref_copy()).children, vec![child_node.get_internal_ref_copy()]);
}

#[test]
fn test_tree_simple_api() {
    run();
    let mut tree: Tree<i32> = Tree::new();
    let root_ref_holder = NodeRefHolder::new(&mut tree, 5);
    let child_ref = root_ref_holder.add_child(&mut tree, 3);

    assert_eq!(tree.node(child_ref).value, 3);
    assert_eq!(tree.node(root_ref_holder.get_internal_ref_copy()).value, 5);
    assert_eq!(tree.node(root_ref_holder.get_internal_ref_copy()).children.len(), 1);
    assert_eq!(
        tree.node(child_ref).value,
        tree.node(tree.node(root_ref_holder.get_internal_ref_copy()).children[0]).value
    );
    assert_eq!(tree.len(), 2);
}

#[test]
fn children_keep_insertion_order() {
    let mut tree: Tree<&str> = Tree::new();
    let root = NodeRefHolder::new(&mut tree, "root");
    let a = root.add_child(&mut tree, "a");
    let b = root.add_child(&mut tree, "b");
    assert_eq!(tree.node(root.strong_ref).children, vec![a, b]);
    assert_eq!(tree.node(b).parent, Some(root.strong_ref));
}
