use zeroengine::graph::{EntityRecord, SavedComponent, SceneGraph};
use zeroengine::hierarchy::HierarchyIndex;
use zeroengine::reparent::ReparentError;

fn component(kind: &str, value: &str) -> SavedComponent {
    SavedComponent { kind: kind.to_string(), value: value.to_string() }
}

fn transform_at(x: i32, y: i32) -> SavedComponent {
    component("ze.transform", &format!("{{\"position\":[{x}.0,{y}.0,0.0]}}"))
}

fn record(id: u64, name: &str, parent: Option<u64>, children: Vec<u64>) -> EntityRecord {
    EntityRecord { id, index: id, name: Some(name.to_string()), parent, children, hidden: false, components: vec![] }
}

fn kinds_and_values(r: &EntityRecord) -> Vec<(String, String)> {
    r.components.iter().map(|c| (c.kind.clone(), c.value.clone())).collect()
}

fn duplicated_kinds() -> Vec<String> {
    ["ze.transform", "ze.tag", "ze.inactive", "ze.renderer.sprite", "ze.renderer.camera", "ze.physics_2d.rigidbody",
        "ze.physics_2d.collider", "ze.scripting.script"]
        .iter()
        .map(|s| s.to_string())
        .collect()
}

/// A parent entity (1) with one child (2), linked both ways.
fn parent_child_scene() -> (SceneGraph, u64, u64) {
    let graph = SceneGraph {
        entities: vec![record(1, "Parent", None, vec![2]), record(2, "Child", Some(1), vec![])],
    };
    (graph, 1, 2)
}

fn find(graph: &SceneGraph, id: u64) -> Option<&EntityRecord> {
    graph.entities.iter().find(|r| r.id == id)
}

#[test]
fn deleting_parent_deletes_child() {
    let (mut scene, parent, child) = parent_child_scene();

    scene.destroy_entity(parent);

    assert!(!scene.entity_exists(parent));
    assert!(!scene.entity_exists(child));
}

#[test]
fn deleting_parent_deletes_descendants() {
    let (mut scene, parent, child) = parent_child_scene();
    let grandchild = 3;
    scene.entities.push(record(grandchild, "Grandchild", Some(child), vec![]));
    scene.entities[1].children = vec![grandchild];

    scene.destroy_entity(parent);

    assert!(!scene.entity_exists(parent));
    assert!(!scene.entity_exists(child));
    assert!(!scene.entity_exists(grandchild));
}

#[test]
fn deleting_child_removes_parent_children_link() {
    let (mut scene, parent, child) = parent_child_scene();

    scene.destroy_entity(child);

    assert!(find(&scene, parent).unwrap().children.is_empty());
}

#[test]
fn deleting_follows_parent_pointers_and_clears_links_into_the_subtree() {
    let mut scene = SceneGraph {
        entities: vec![
            record(1, "Root", None, vec![]),
            record(2, "Held", Some(1), vec![]),
            record(3, "Bystander", Some(2), vec![2, 4]),
            record(4, "Other", None, vec![]),
        ],
    };
    // 2 hangs below 1 through its Parent, 3 below 2, and 4 is listed in 3's Children.
    scene.destroy_entity(1);
    assert!(scene.entities.is_empty());

    let mut scene = SceneGraph {
        entities: vec![
            record(1, "Root", None, vec![]),
            record(2, "Keeps", None, vec![1, 3]),
            record(3, "Sibling", Some(2), vec![]),
        ],
    };
    scene.destroy_entity(1);
    let keeps = find(&scene, 2).unwrap();
    assert_eq!(keeps.children, vec![3]);
    assert_eq!(scene.descendant_entities(2), vec![2, 3]);
}

#[test]
fn descendants_are_listed_breadth_first() {
    let scene = SceneGraph {
        entities: vec![
            record(1, "A", None, vec![2, 3]),
            record(2, "B", Some(1), vec![4]),
            record(3, "C", Some(1), vec![]),
            record(4, "D", Some(2), vec![]),
        ],
    };
    assert_eq!(scene.descendant_entities(1), vec![1, 2, 3, 4]);
    assert_eq!(scene.descendant_entities(9), vec![9]);
}

#[test]
fn hierarchy_children_skip_hidden_and_missing_entities() {
    let mut scene = SceneGraph {
        entities: vec![
            record(1, "Root", None, vec![2, 3, 7]),
            record(2, "beta", Some(1), vec![]),
            record(3, "Alpha", Some(1), vec![]),
            record(4, "Gamma", Some(1), vec![]),
            record(5, "Hidden", Some(1), vec![]),
        ],
    };
    scene.entities[4].hidden = true;
    assert_eq!(scene.children_of(1), vec![3, 2, 4]);
    assert_eq!(scene.parent_of(4), Some(1));
    assert_eq!(scene.parent_of(1), None);
    assert!(scene.is_descendant(4, 1));
    assert!(!scene.is_descendant(1, 4));
    assert!(!scene.hierarchy_visible(5));
    assert!(scene.hierarchy_visible(42));
}

#[test]
fn labels_fall_back_to_the_entity_index() {
    let mut scene = SceneGraph { entities: vec![record(1, "Named", None, vec![])] };
    scene.entities.push(EntityRecord { id: 7, index: 12, name: None, parent: None, children: vec![], hidden: false, components: vec![] });
    assert_eq!(scene.entity_label(1), "Named");
    assert_eq!(scene.entity_label(7), "Entity 12");
    assert_eq!(scene.entity_label(99), "Entity 99");
}

#[test]
fn siblings_sort_by_lowercase_label_then_index() {
    let scene = SceneGraph {
        entities: vec![
            record(5, "b", None, vec![]),
            record(3, "B", None, vec![]),
            record(4, "a", None, vec![]),
        ],
    };
    let mut ids = vec![5, 3, 4];
    scene.sort_entities(&mut ids);
    assert_eq!(ids, vec![4, 3, 5]);
}

#[test]
fn reparenting_checks_and_moves_links() {
    let mut scene = SceneGraph {
        entities: vec![
            record(1, "A", None, vec![2]),
            record(2, "B", Some(1), vec![]),
            record(3, "C", None, vec![]),
        ],
    };
    assert_eq!(scene.set_parent(9, Some(1)), Err(ReparentError::MissingChild));
    assert_eq!(scene.set_parent(2, Some(9)), Err(ReparentError::MissingParent));
    assert_eq!(scene.set_parent(2, Some(2)), Err(ReparentError::ParentIsSelf));
    assert_eq!(scene.set_parent(1, Some(2)), Err(ReparentError::ParentIsDescendant));
    assert_eq!(scene.set_parent(2, Some(1)), Ok(false));

    assert_eq!(scene.set_parent(2, Some(3)), Ok(true));
    assert_eq!(scene.parent_of(2), Some(3));
    assert!(find(&scene, 1).unwrap().children.is_empty());
    assert_eq!(find(&scene, 3).unwrap().children, vec![2]);

    assert_eq!(scene.set_parent(2, None), Ok(true));
    assert_eq!(scene.parent_of(2), None);
    assert!(find(&scene, 3).unwrap().children.is_empty());
}

#[test]
fn attach_and_detach_keep_both_sides_in_step() {
    let mut scene = SceneGraph { entities: vec![record(1, "A", None, vec![]), record(2, "B", None, vec![])] };
    scene.attach_to_parent(2, 1);
    scene.attach_to_parent(2, 1);
    assert_eq!(find(&scene, 1).unwrap().children, vec![2]);
    assert_eq!(find(&scene, 2).unwrap().parent, Some(1));
    scene.detach_from_parent(2);
    assert!(find(&scene, 1).unwrap().children.is_empty());
    assert_eq!(find(&scene, 2).unwrap().parent, None);
}

#[test]
fn hierarchy_index_lists_roots_and_children() {
    let mut scene = SceneGraph {
        entities: vec![
            record(1, "Root", None, vec![2]),
            record(2, "Child", Some(1), vec![]),
            record(3, "Another", None, vec![]),
            record(4, "Under hidden", Some(5), vec![]),
            record(5, "Settings", None, vec![4]),
        ],
    };
    scene.entities[4].hidden = true;
    let index = HierarchyIndex::build(&scene);
    assert_eq!(index.roots, vec![3, 1, 4]);
    assert_eq!(index.entries.len(), 2);
    assert_eq!(index.entries[0].entity, 1);
    assert_eq!(index.entries[0].children, vec![2]);
    assert_eq!(scene.hierarchy_roots(), vec![3, 1, 4]);
}

#[test]
fn clone_entity_skips_parent_and_children_links() {
    let (mut scene, parent, child) = parent_child_scene();

    let clone = scene.clone_entity(child, 3, 3).expect("child has components to clone");

    assert_eq!(find(&scene, clone).and_then(|r| r.parent), None);
    assert_eq!(find(&scene, parent).map(|r| r.children.clone()), Some(vec![child]));
}

#[test]
fn clones_copy_name_and_visibility_or_nothing() {
    let (mut scene, _parent, child) = parent_child_scene();
    scene.entities[1].hidden = true;
    scene.entities[1].name = None;
    let clone = scene.clone_entity(child, 10, 4).unwrap();
    let r = find(&scene, clone).unwrap();
    assert_eq!(r.name.as_deref(), Some("Entity"));
    assert!(r.hidden && r.children.is_empty());
    assert_eq!(r.index, 4);
    assert_eq!(scene.clone_entity(99, 11, 5), None);
    assert_eq!(scene.entities.len(), 3);
}

#[test]
fn created_entities_can_start_under_a_parent() {
    let (mut scene, parent, child) = parent_child_scene();
    scene.create_entity("Entity", 5, 5, Some(parent), vec![transform_at(0, 0)]);
    let r = find(&scene, 5).unwrap();
    assert_eq!(r.name.as_deref(), Some("Entity"));
    assert_eq!(r.parent, Some(parent));
    assert_eq!(find(&scene, parent).unwrap().children, vec![child, 5]);
    scene.create_entity("Root", 6, 6, None, vec![]);
    assert_eq!(find(&scene, 6).unwrap().parent, None);
}

#[test]
fn renaming_trims_and_refuses_blank_names() {
    let (mut scene, parent, _child) = parent_child_scene();
    assert!(!scene.rename_entity(parent, "   "));
    assert_eq!(find(&scene, parent).unwrap().name.as_deref(), Some("Parent"));
    assert!(scene.rename_entity(parent, "  Boss "));
    assert_eq!(find(&scene, parent).unwrap().name.as_deref(), Some("Boss"));
    assert_eq!(find(&scene, parent).unwrap().children, vec![2]);
    assert!(!scene.rename_entity(42, "Ghost"));
}

#[test]
fn duplicates_are_named_after_the_source_and_unlinked() {
    let (mut scene, _parent, child) = parent_child_scene();
    scene.entities[1].components = vec![transform_at(1, 2), component("ze.audio.source", "{}")];
    scene.duplicate_entity(child, 7, 7, &duplicated_kinds());
    let r = find(&scene, 7).unwrap();
    assert_eq!(r.name.as_deref(), Some("Child Copy"));
    let t = transform_at(1, 2);
    assert_eq!(kinds_and_values(r), vec![(t.kind, t.value)]);
    assert_eq!(r.parent, None);
    assert!(r.children.is_empty());
    scene.entities[1].name = None;
    scene.duplicate_entity(child, 8, 8, &duplicated_kinds());
    assert_eq!(find(&scene, 8).unwrap().name.as_deref(), Some("Entity 2 Copy"));
}

#[test]
fn clone_entity_copies_components_onto_a_new_entity() {
    let mut scene = SceneGraph { entities: vec![] };
    scene.create_entity("Template", 1, 1, None, vec![transform_at(3, 4)]);
    let template = 1;

    let clone = scene.clone_entity(template, 2, 2).expect("template has components to clone");

    assert_ne!(clone, template);
    let cloned = find(&scene, clone).unwrap();
    assert_eq!(kinds_and_values(cloned), kinds_and_values(find(&scene, template).unwrap()), "clone has the transform");
    assert_eq!(cloned.components[0].value, "{\"position\":[3.0,4.0,0.0]}");
    assert_eq!(cloned.name.as_deref(), Some("Template"));
    // Original stays intact.
    assert_eq!(find(&scene, template).and_then(|r| r.name.as_deref()), Some("Template"));
}

#[test]
fn an_entity_without_saved_components_is_not_cloned() {
    let mut scene = SceneGraph {
        entities: vec![EntityRecord {
            id: 1,
            index: 1,
            name: None,
            parent: None,
            children: vec![],
            hidden: false,
            components: vec![],
        }],
    };
    assert_eq!(scene.clone_entity(1, 2, 2), None);
    assert_eq!(scene.entities.len(), 1);
    scene.entities[0].components = vec![transform_at(0, 0)];
    assert_eq!(scene.clone_entity(1, 2, 2), Some(2));
}
