use cad_import::Length;
use cad_import::structure::CADData;
use cad_import::structure::Tree;

#[test]
fn test_node_basic() {
    let mut tree = Tree::new();

    let node_id0 = tree.create_node("node".to_owned());
    let node_id1: usize = tree.create_node("node".to_owned());

    assert!(tree.get_node(node_id0).unwrap().is_leaf());
    assert!(tree.get_node(node_id1).unwrap().is_leaf());

    assert_ne!(node_id0, node_id1);

    let node_id2 = tree.create_node_with_parent("child".to_owned(), node_id0);

    let node0 = tree.get_node(node_id0).unwrap();
    assert!(!node0.is_leaf());
    assert_eq!(node0.get_children_node_ids().len(), 1);
    let node2 = tree.get_node(node0.get_children_node_ids()[0]).unwrap();
    assert_eq!(node2.get_id(), node_id2);
}

#[test]
fn test_creating_and_traversing_tree1() {
    let mut tree = Tree::new();

    let root_node_id = tree.create_node("root".to_string());

    let child1_id = tree.create_node_with_parent("child1".to_string(), root_node_id);
    let child2_id = tree.create_node_with_parent("child2".to_string(), root_node_id);

    assert_eq!(tree.get_root_node_id(), Some(root_node_id));

    let root_node = tree.get_root_node().unwrap();
    assert_eq!(root_node.get_label(), "root");
    let mut children_ids = Vec::from_iter(root_node.get_children_node_ids().iter().cloned());
    children_ids.sort();

    assert_eq!(
        children_ids.as_slice(),
        &[child1_id.min(child2_id), child2_id.max(child1_id)]
    );

    let child1 = tree.get_node(child1_id).unwrap();
    assert_eq!(child1.get_label(), "child1");
    assert!(child1.is_leaf());

    let child2 = tree.get_node(child2_id).unwrap();
    assert_eq!(child2.get_label(), "child2");
    assert!(child2.is_leaf());
}

#[test]
fn test_cad_data_unit() {
    let mut tree = Tree::new();
    tree.create_node("Root".to_owned());

    let mut cad_data = CADData::new(tree);

    assert_eq!(cad_data.get_length_unit(), Length::meter());

    cad_data.change_length_unit(Length::inch());
    assert_eq!(cad_data.get_length_unit(), Length::inch());
}
