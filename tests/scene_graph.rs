use ti_engine::managers::NodeManager;
use ti_engine::types::SceneNode;

#[test]
fn created_node_is_default() {
    let mut manager = NodeManager::default();
    let h = manager.create_node();
    let node = manager.get_node(h).unwrap();
    assert_eq!(node.id(), h);
    assert_eq!(node.node_type, "Undefined");
    assert_eq!(node.parent, None);
    assert!(node.children().is_empty());
    assert!(!node.drawn);
    assert!(!node.collidable);
    assert!(!node.remove);
}

#[test]
fn created_handles_are_distinct() {
    let mut manager = NodeManager::default();
    let a = manager.create_node();
    let b = manager.create_node();
    assert_ne!(a, b);
    assert_eq!(manager.get_node(a).unwrap().id(), a);
    assert_eq!(manager.get_node(b).unwrap().id(), b);
}

#[test]
fn removed_handle_finds_nothing() {
    let mut manager = NodeManager::default();
    let h = manager.create_node();
    let removed = manager.remove_node(h).unwrap();
    assert_eq!(removed.id(), h);
    assert!(manager.get_node(h).is_none());
    assert!(manager.get_node_mut(h).is_none());
    assert!(manager.remove_node(h).is_none());

    let k = manager.create_node();
    assert_ne!(k, h);
    assert!(manager.get_node(h).is_none());
    assert!(manager.get_node(k).is_some());
}

#[test]
fn remove_leaves_other_nodes() {
    let mut manager = NodeManager::default();
    let a = manager.create_node();
    let b = manager.create_node();
    manager.remove_node(a);
    assert!(manager.get_node(a).is_none());
    assert_eq!(manager.get_node(b).unwrap().id(), b);
}

#[test]
fn edits_through_get_node_mut_are_kept() {
    let mut manager = NodeManager::default();
    let parent = manager.create_node();
    let child = manager.create_node();
    {
        let node = manager.get_node_mut(child).unwrap();
        node.parent = Some(parent);
        node.drawn = true;
        node.node_type = String::from("Sprite");
    }
    manager.get_node_mut(parent).unwrap().attach_child(child);

    let node = manager.get_node(child).unwrap();
    assert_eq!(node.parent, Some(parent));
    assert!(node.drawn);
    assert_eq!(node.node_type, "Sprite");
    assert_eq!(manager.get_node(parent).unwrap().children(), &vec![child]);
}

#[test]
fn attach_twice_keeps_child_once() {
    let mut manager = NodeManager::default();
    let a = manager.create_node();
    let b = manager.create_node();
    let mut node = SceneNode::new(a);
    node.attach_child(b);
    node.attach_child(b);
    assert_eq!(node.children().len(), 1);
    assert_eq!(node.children()[0], b);
}

#[test]
fn detach_after_attach() {
    let mut manager = NodeManager::default();
    let a = manager.create_node();
    let b = manager.create_node();
    let c = manager.create_node();
    let mut node = SceneNode::new(a);
    node.attach_child(b);
    node.attach_child(c);
    assert_eq!(node.detach_child(b), Some(b));
    assert!(!node.children().contains(&b));
    assert_eq!(node.children(), &vec![c]);
    assert_eq!(node.detach_child(b), None);
}

#[test]
fn detach_absent_child_is_none() {
    let mut manager = NodeManager::default();
    let a = manager.create_node();
    let b = manager.create_node();
    let mut node = SceneNode::new(a);
    assert_eq!(node.detach_child(b), None);
    assert!(node.children().is_empty());
}

#[test]
fn nodes_compare_by_id() {
    let mut manager = NodeManager::default();
    let a = manager.create_node();
    let b = manager.create_node();
    let mut first = SceneNode::new(a);
    let second = SceneNode::new(a);
    first.drawn = true;
    first.attach_child(b);
    assert!(first == second);
    assert!(SceneNode::new(a) != SceneNode::new(b));
    let copy = first.clone();
    assert!(copy == first);
    assert_eq!(copy.children(), &vec![b]);
}

#[test]
fn accessors_read_and_write_fields() {
    let mut manager = NodeManager::default();
    let a = manager.create_node();
    let p = manager.create_node();
    let mut node = SceneNode::new(a);
    assert!(!node.drawn());
    assert!(!node.collidable());
    assert!(!node.remove());
    assert_eq!(node.node_type(), "Undefined");
    assert_eq!(node.parent(), None);

    node.set_drawn(true);
    node.set_collidable(true);
    node.set_remove(true);
    node.set_node_type(String::from("Camera"));
    node.set_parent(Some(p));

    assert!(node.drawn && node.drawn());
    assert!(node.collidable && node.collidable());
    assert!(node.remove && node.remove());
    assert_eq!(node.node_type(), "Camera");
    assert_eq!(node.parent(), Some(p));
    assert_eq!(node.id(), a);
    assert!(node.children().is_empty());
}

#[test]
fn removed_handle_stays_dead_through_many_creations() {
    let mut manager = NodeManager::default();
    let h = manager.create_node();
    let kept = manager.create_node();
    manager.remove_node(h);
    let mut issued = Vec::new();
    for _ in 0..50 {
        let k = manager.create_node();
        assert_ne!(k, h);
        assert!(manager.get_node(h).is_none());
        assert!(manager.get_node_mut(h).is_none());
        issued.push(k);
    }
    for k in &issued {
        assert_eq!(manager.get_node(*k).unwrap().id(), *k);
    }
    assert_eq!(manager.get_node(kept).unwrap().id(), kept);
    assert_eq!(manager.get_node(kept).unwrap().node_type, "Undefined");
}
