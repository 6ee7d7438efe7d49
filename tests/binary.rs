use lists::binary::{decimal, BinaryNode, BinaryTree};

#[test]
fn binary_test_binary_tree_count() {
    let bin_t = BinaryTree::new(0);
    assert_eq!(bin_t.count(), 2);

    let bin_t = BinaryTree::new(1);
    assert_eq!(bin_t.count(), 6);

    let bin_t = BinaryTree::new(2);
    assert_eq!(bin_t.count(), 14);
}

#[test]
fn main_test_binary_tree_count() {
    let bin_t = BinaryTree::new(0);
    assert_eq!(bin_t.count(), 2);

    let bin_t = BinaryTree::new(1);
    assert_eq!(bin_t.count(), 6);

    let bin_t = BinaryTree::new(2);
    assert_eq!(bin_t.count(), 14);
}

#[test]
fn count_of_depth_three_and_ten() {
    assert_eq!(BinaryTree::new(3).count(), 30);
    assert_eq!(BinaryTree::new(10).count(), 2 * ((1 << 11) - 1));
}

#[test]
fn node_count_below_a_node() {
    let node = BinaryNode::new(2, 0).unwrap();
    assert_eq!(node.count(), 6);
    let leaf = BinaryNode::new(4, 4).unwrap();
    assert_eq!(leaf.count(), 0);
}

#[test]
fn lines_of_small_trees() {
    assert_eq!(BinaryTree::new(0).lines(), vec!["\t0", "\t0"]);
    assert_eq!(
        BinaryTree::new(1).lines(),
        vec!["\t0", "\t\t1", "\t\t1", "\t0", "\t\t1", "\t\t1"]
    );
}

#[test]
fn lines_of_depth_three_left_before_right() {
    let lines = BinaryTree::new(3).lines();
    assert_eq!(lines.len(), 30);
    assert_eq!(lines[0], "\t0");
    assert_eq!(lines[1], "\t\t1");
    assert_eq!(lines[2], "\t\t\t2");
    assert_eq!(lines[3], "\t\t\t\t3");
    assert_eq!(lines[15], "\t0");
    for line in &lines[1..15] {
        assert_ne!(line.as_str(), "\t0");
    }
    assert_eq!(lines, BinaryTree::new(3).lines());
}

#[test]
fn tabs_and_decimal() {
    assert_eq!(BinaryNode::tabs(0), "\t");
    assert_eq!(BinaryNode::tabs(2), "\t\t\t");
    assert_eq!(decimal(0), "0");
    assert_eq!(decimal(7), "7");
    assert_eq!(decimal(10), "10");
    assert_eq!(decimal(1234), "1234");
    assert_eq!(decimal(usize::MAX), usize::MAX.to_string());
}
