use enum_component_tag::hooks::{Command, Step};
use enum_component_tag::object::LiveObject;
use enum_component_tag::synthesis::{derive_enum_component_tag, Expansion};
use enum_component_tag::syntax::{Declaration, ItemBody, Variant, Visibility};

fn expansion_of(name: &str, variants: &[&str]) -> Expansion {
    let decl = Declaration {
        name: name.to_string(),
        visibility: Visibility::Inherited,
        attrs: vec![],
        body: ItemBody::Enum(
            variants.iter().map(|v| Variant { name: v.to_string(), attrs: vec![] }).collect(),
        ),
    };
    derive_enum_component_tag(&decl).unwrap()
}

fn carrying(objects: &[LiveObject], marker: usize) -> Vec<usize> {
    let mut found: Vec<usize> = Vec::new();
    let mut id: usize = 0;
    while id < objects.len() {
        if objects[id].has_marker(marker) {
            found.push(id);
        }
        id += 1;
    }
    found
}

fn markers_of(object: &LiveObject) -> Vec<usize> {
    let mut found: Vec<usize> = Vec::new();
    let mut marker: usize = 0;
    while marker < object.slots() {
        if object.has_marker(marker) {
            found.push(marker);
        }
        marker += 1;
    }
    found
}

#[test]
fn test_enum_tags() {
    let empty = expansion_of("EmptyEnum", &[]);
    assert!(empty.markers.is_empty());

    let test_enum = expansion_of("TestEnum", &["Variant1", "Variant2"]);
    let variant1: usize = 0;
    let variant2: usize = 1;

    let mut objects = vec![LiveObject::new(2), LiveObject::new(2)];
    objects[0].insert(&test_enum, variant1);
    objects[1].insert(&test_enum, variant2);

    let query1 = carrying(&objects, variant1);
    let query2 = carrying(&objects, variant2);
    assert!(!query1.is_empty());
    assert!(!query2.is_empty());
    assert_eq!(query1, vec![0]);
    assert_eq!(query2, vec![1]);

    for object in objects.iter_mut() {
        object.remove(&test_enum);
    }

    let query1 = carrying(&objects, variant1);
    let query2 = carrying(&objects, variant2);
    assert!(query1.is_empty());
    assert!(query2.is_empty());
}

#[test]
fn new_object_holds_nothing() {
    let object = LiveObject::new(3);
    assert_eq!(object.slots(), 3);
    assert_eq!(object.value(), None);
    assert!(markers_of(&object).is_empty());
    assert!(!object.has_marker(3));
}

#[test]
fn inserting_a_value_attaches_exactly_its_marker() {
    let expansion = expansion_of("Phase", &["Idle", "Busy", "Done"]);
    let mut variant: usize = 0;
    while variant < 3 {
        let mut object = LiveObject::new(3);
        object.insert(&expansion, variant);
        assert_eq!(object.value(), Some(variant));
        assert_eq!(markers_of(&object), vec![variant]);
        variant += 1;
    }
}

#[test]
fn overwriting_a_value_swaps_the_marker() {
    let expansion = expansion_of("Phase", &["Idle", "Busy", "Done"]);
    let mut object = LiveObject::new(3);
    object.insert(&expansion, 0);
    assert_eq!(markers_of(&object), vec![0]);
    object.insert(&expansion, 2);
    assert_eq!(object.value(), Some(2));
    assert_eq!(markers_of(&object), vec![2]);
    assert!(!object.has_marker(0));
}

#[test]
fn inserting_the_same_variant_again_keeps_its_marker() {
    let expansion = expansion_of("Phase", &["Idle", "Busy"]);
    let mut object = LiveObject::new(2);
    object.insert(&expansion, 1);
    object.insert(&expansion, 1);
    assert_eq!(object.value(), Some(1));
    assert_eq!(markers_of(&object), vec![1]);
}

#[test]
fn removing_the_value_removes_the_marker() {
    let expansion = expansion_of("Phase", &["Idle", "Busy"]);
    let mut object = LiveObject::new(2);
    object.insert(&expansion, 1);
    object.remove(&expansion);
    assert_eq!(object.value(), None);
    assert!(markers_of(&object).is_empty());
}

#[test]
fn removing_from_an_object_without_value_changes_nothing() {
    let expansion = expansion_of("Phase", &["Idle", "Busy"]);
    let mut object = LiveObject::new(2);
    object.remove(&expansion);
    assert_eq!(object, LiveObject::new(2));
}

#[test]
fn marker_attached_directly_is_taken_off_without_matching_value() {
    let expansion = expansion_of("Phase", &["Idle", "Busy"]);
    let mut object = LiveObject::new(2);
    object.insert_marker(&expansion, 0);
    assert!(markers_of(&object).is_empty());

    object.insert(&expansion, 1);
    object.insert_marker(&expansion, 0);
    assert_eq!(markers_of(&object), vec![1]);
}

#[test]
fn marker_attached_directly_stays_with_matching_value() {
    let expansion = expansion_of("Phase", &["Idle", "Busy"]);
    let mut object = LiveObject::new(2);
    object.insert(&expansion, 1);
    object.remove_marker(1);
    assert!(markers_of(&object).is_empty());
    object.insert_marker(&expansion, 1);
    assert_eq!(markers_of(&object), vec![1]);
    assert_eq!(object.value(), Some(1));
}

#[test]
fn marker_detached_directly_leaves_the_value() {
    let expansion = expansion_of("Phase", &["Idle", "Busy"]);
    let mut object = LiveObject::new(2);
    object.insert(&expansion, 0);
    object.remove_marker(0);
    assert_eq!(object.value(), Some(0));
    assert!(markers_of(&object).is_empty());
    object.remove_marker(5);
    assert_eq!(object.value(), Some(0));
}

#[test]
fn marker_outside_the_namespace_is_ignored() {
    let expansion = expansion_of("Phase", &["Idle", "Busy"]);
    let mut object = LiveObject::new(2);
    object.insert(&expansion, 0);
    object.insert_marker(&expansion, 2);
    object.apply(&expansion, Command::Insert(7));
    object.apply(&expansion, Command::Remove(7));
    assert_eq!(markers_of(&object), vec![0]);
}

#[test]
fn enter_hook_queues_removals_before_the_insertion() {
    let expansion = expansion_of("Phase", &["Idle", "Busy", "Done"]);
    let mut object = LiveObject::new(3);
    assert!(object.run_hook(&expansion.enter_hook).is_empty());
    assert!(object.run_hook(&expansion.exit_hook).is_empty());

    object.insert(&expansion, 1);
    assert_eq!(
        object.run_hook(&expansion.enter_hook),
        vec![Command::Remove(1), Command::Insert(1)]
    );
    assert_eq!(object.run_hook(&expansion.exit_hook), vec![Command::Remove(1)]);
}

#[test]
fn steps_of_one_hook_see_the_same_object() {
    let expansion = expansion_of("Phase", &["Idle", "Busy"]);
    let mut object = LiveObject::new(2);
    object.insert(&expansion, 0);
    let steps = vec![
        Step::MatchValue(vec![Command::Remove(0), Command::Remove(1)]),
        Step::ClearIfPresent(0),
        Step::ClearIfPresent(1),
    ];
    assert_eq!(object.run_hook(&steps), vec![Command::Remove(0), Command::Remove(0)]);
}

#[test]
fn match_without_an_arm_for_the_value_queues_nothing() {
    let expansion = expansion_of("Phase", &["Idle", "Busy"]);
    let mut object = LiveObject::new(2);
    object.insert(&expansion, 1);
    let steps = vec![Step::MatchValue(vec![Command::Insert(0)])];
    assert!(object.run_hook(&steps).is_empty());
}

#[test]
fn queue_is_applied_first_to_last() {
    let expansion = expansion_of("Phase", &["Idle", "Busy"]);
    let mut object = LiveObject::new(2);
    object.insert(&expansion, 0);
    object.apply_all(&expansion, &vec![Command::Remove(0), Command::Insert(0)]);
    assert_eq!(markers_of(&object), vec![0]);
    object.apply_all(&expansion, &vec![Command::Insert(0), Command::Remove(0)]);
    assert!(markers_of(&object).is_empty());
}

#[test]
fn empty_enum_offers_nothing_to_attach() {
    let expansion = expansion_of("EmptyEnum", &[]);
    let mut object = LiveObject::new(0);
    assert_eq!(object.slots(), 0);
    object.insert_marker(&expansion, 0);
    assert!(!object.has_marker(0));
    object.remove(&expansion);
    assert_eq!(object, LiveObject::new(0));
}
