use rget::{Tree, TreeNode, ROOT};

#[test]
fn test_default_tree() {
    let root = TreeNode::new(10);
    let t: Tree<usize> = Tree::new(root);
    assert!(t.root().value == 10);
}

#[test]
fn test_queue_traverse() {
    let root = TreeNode::new(10);
    let mut t: Tree<usize> = Tree::new(root);

    let n1 = t.push_node(ROOT, TreeNode::new(1));
    let n2 = t.push_node(n1, TreeNode::new(2));
    let _n3 = t.push_node(n1, TreeNode::new(3));
    let n4 = t.push_node(n1, TreeNode::new(4));
    let n5 = t.push_node(n2, TreeNode::new(5));
    let _n6 = t.push_node(n4, TreeNode::new(6));
    let _n7 = t.push_node(n4, TreeNode::new(7));
    let n8 = t.push_node(n5, TreeNode::new(8));
    let _n9 = t.push_node(n8, TreeNode::new(9));

    let nodes: Vec<usize> = t.traverse().into_iter().copied().collect();
    assert_eq!(nodes, vec![10, 1, 2, 3, 4, 5, 6, 7, 8, 9]);
}

#[test]
fn level_order_is_not_creation_order() {
    let mut t: Tree<&str> = Tree::new(TreeNode::new("r"));
    let a = t.push_node(ROOT, TreeNode::new("a"));
    let a1 = t.push_node(a, TreeNode::new("a1"));
    let b = t.push_node(ROOT, TreeNode::new("b"));
    let _a2 = t.push_node(a, TreeNode::new("a2"));
    let _a11 = t.push_node(a1, TreeNode::new("a11"));
    let _b1 = t.push_node(b, TreeNode::new("b1"));
    let values: Vec<&str> = t.traverse().into_iter().copied().collect();
    assert_eq!(values, vec!["r", "a", "b", "a1", "a2", "b1", "a11"]);
    assert_eq!(t.level_order_ids(), vec![0, 1, 3, 2, 4, 6, 5]);
    assert_eq!(t.len(), 7);
}

#[test]
fn push_node_appends_in_order() {
    let mut t: Tree<u8> = Tree::new(TreeNode::new(0));
    assert_eq!(t.depth(), 1);
    let x = t.push_node(ROOT, TreeNode::new(7));
    let y = t.push_node(ROOT, TreeNode::new(8));
    assert_eq!((x, y), (1, 2));
    assert_eq!(t.root().children(), &vec![1, 2]);
    assert_eq!(t.node(y).value, 8);
    assert!(t.node(x).children().is_empty());
    assert_eq!(t.depth(), 1);
}

#[test]
fn same_value_may_occur_twice() {
    let mut t: Tree<&str> = Tree::new(TreeNode::new("u"));
    let c = t.push_node(ROOT, TreeNode::new("u"));
    t.push_node(c, TreeNode::new("u"));
    assert_eq!(t.traverse().len(), 3);
}

#[test]
fn single_node_traversal() {
    let t: Tree<i32> = Tree::new(TreeNode::new(-4));
    let values: Vec<i32> = t.traverse().into_iter().copied().collect();
    assert_eq!(values, vec![-4]);
}
