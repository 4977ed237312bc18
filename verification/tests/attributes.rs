use enum_component_tag::analysis::{
    choose_visibility, requirements_from, requirements_of, requirements_of_attribute,
    single_idents, tag_visibility_of,
};
use enum_component_tag::synthesis::derive_enum_component_tag;
use enum_component_tag::syntax::{
    Attribute, AttributeArgs, Declaration, ItemBody, Path, Variant, Visibility,
};

fn names(list: &[&str]) -> Vec<String> {
    list.iter().map(|s| s.to_string()).collect()
}

fn restricted(has_in: bool, leading_colon: bool, segments: &[&str]) -> Visibility {
    Visibility::Restricted { has_in, path: Path { leading_colon, segments: names(segments) } }
}

#[test]
fn path_is_ident_only_for_a_single_segment() {
    assert!(Path::from_ident("require").is_ident("require"));
    assert!(!Path::from_ident("require").is_ident("requires"));
    assert!(!Path::from_ident("requires").is_ident("require"));
    let long = Path { leading_colon: false, segments: names(&["bevy", "require"]) };
    assert!(!long.is_ident("require"));
    let rooted = Path { leading_colon: true, segments: names(&["require"]) };
    assert!(!rooted.is_ident("require"));
    let none = Path { leading_colon: false, segments: vec![] };
    assert!(!none.is_ident("require"));
}

#[test]
fn require_list_gives_its_identifiers() {
    let attr = Attribute::list("require", "Foo, Bar");
    assert_eq!(requirements_of_attribute(&attr), names(&["Foo", "Bar"]));
}

#[test]
fn require_list_allows_a_trailing_comma() {
    let attr = Attribute::list("require", "Foo, Bar,");
    assert_eq!(requirements_of_attribute(&attr), names(&["Foo", "Bar"]));
}

#[test]
fn require_list_may_be_empty() {
    let attr = Attribute::list("require", "");
    assert!(requirements_of_attribute(&attr).is_empty());
}

#[test]
fn longer_paths_are_dropped_from_a_require_list() {
    let attr = Attribute::list("require", "Foo, bar::Baz, ::Rooted, Wide<u8>, Qux");
    assert_eq!(requirements_of_attribute(&attr), names(&["Foo", "Qux"]));
}

#[test]
fn malformed_require_list_gives_nothing() {
    assert!(requirements_of_attribute(&Attribute::list("require", "Foo Bar")).is_empty());
    assert!(requirements_of_attribute(&Attribute::list("require", "Foo, 3")).is_empty());
    assert!(requirements_of_attribute(&Attribute::list("require", "Foo(make)")).is_empty());
    assert!(requirements_of_attribute(&Attribute::list("require", "Foo,, Bar")).is_empty());
    assert!(requirements_of_attribute(&Attribute::list("require", "\"unterminated")).is_empty());
}

#[test]
fn only_require_lists_count() {
    assert!(requirements_of_attribute(&Attribute::list("requires", "Foo")).is_empty());
    let bare = Attribute { path: Path::from_ident("require"), args: AttributeArgs::Bare };
    assert!(requirements_of_attribute(&bare).is_empty());
    let value = Attribute { path: Path::from_ident("require"), args: AttributeArgs::NameValue };
    assert!(requirements_of_attribute(&value).is_empty());
    let long = Attribute {
        path: Path { leading_colon: false, segments: names(&["bevy", "require"]) },
        args: AttributeArgs::List("Foo".to_string()),
    };
    assert!(requirements_of_attribute(&long).is_empty());
}

#[test]
fn requirements_of_several_attributes_follow_one_another() {
    let attrs = vec![
        Attribute::list("require", "A, B"),
        Attribute::list("doc", "hidden"),
        Attribute::list("require", "broken here"),
        Attribute::list("require", "C"),
    ];
    assert_eq!(requirements_of(&attrs), names(&["A", "B", "C"]));
    assert!(requirements_of(&vec![]).is_empty());
}

#[test]
fn single_idents_keeps_order_and_drops_gaps() {
    let entries = vec![Some("A".to_string()), None, Some("B".to_string()), None];
    assert_eq!(single_idents(&entries), names(&["A", "B"]));
    assert!(single_idents(&vec![]).is_empty());
    assert!(single_idents(&vec![None, None]).is_empty());
}

#[test]
fn unparsed_list_contributes_nothing() {
    assert!(requirements_from(&None).is_empty());
    let parsed = Some(vec![None, Some("Only".to_string())]);
    assert_eq!(requirements_from(&parsed), names(&["Only"]));
}

#[test]
fn markers_carry_the_requirements_of_their_variants() {
    let decl = Declaration {
        name: "Mode".to_string(),
        visibility: Visibility::Public,
        attrs: vec![],
        body: ItemBody::Enum(vec![
            Variant { name: "Walking".to_string(), attrs: vec![Attribute::list("require", "Legs, Ground")] },
            Variant { name: "Flying".to_string(), attrs: vec![] },
            Variant { name: "Swimming".to_string(), attrs: vec![Attribute::list("require", "std::Water")] },
        ]),
    };
    let expansion = derive_enum_component_tag(&decl).unwrap();
    assert_eq!(expansion.markers[0].requires, names(&["Legs", "Ground"]));
    assert!(expansion.markers[1].requires.is_empty());
    assert!(expansion.markers[2].requires.is_empty());
}

#[test]
fn tag_visibility_defaults_to_public() {
    assert_eq!(tag_visibility_of(&vec![]), Visibility::Public);
    assert_eq!(tag_visibility_of(&vec![Attribute::list("require", "Foo")]), Visibility::Public);
}

#[test]
fn tag_visibility_reads_the_value_of_an_entry() {
    let attrs = vec![Attribute::list("tag_visibility", "vis = pub(crate)")];
    assert_eq!(tag_visibility_of(&attrs), restricted(false, false, &["crate"]));

    let attrs = vec![Attribute::list("tag_visibility", "vis = pub(super)")];
    assert_eq!(tag_visibility_of(&attrs), restricted(false, false, &["super"]));

    let attrs = vec![Attribute::list("tag_visibility", "vis = pub(in crate::tags)")];
    assert_eq!(tag_visibility_of(&attrs), restricted(true, false, &["crate", "tags"]));

    let attrs = vec![Attribute::list("tag_visibility", "vis = pub")];
    assert_eq!(tag_visibility_of(&attrs), Visibility::Public);
}

#[test]
fn tag_visibility_without_pub_is_inherited() {
    let attrs = vec![Attribute::list("tag_visibility", "vis =")];
    assert_eq!(tag_visibility_of(&attrs), Visibility::Inherited);
    let attrs = vec![Attribute::list("tag_visibility", "vis = private")];
    assert_eq!(tag_visibility_of(&attrs), Visibility::Inherited);
}

#[test]
fn last_tag_visibility_entry_decides() {
    let attrs = vec![Attribute::list("tag_visibility", "a = pub(crate), b = pub(super)")];
    assert_eq!(tag_visibility_of(&attrs), restricted(false, false, &["super"]));

    let attrs = vec![
        Attribute::list("tag_visibility", "a = pub(crate)"),
        Attribute::list("tag_visibility", "b = pub(self)"),
    ];
    assert_eq!(tag_visibility_of(&attrs), restricted(false, false, &["self"]));
}

#[test]
fn entries_without_a_value_set_nothing() {
    let attrs = vec![Attribute::list("tag_visibility", "quiet")];
    assert_eq!(tag_visibility_of(&attrs), Visibility::Public);
    let attrs = vec![Attribute::list("tag_visibility", "a = pub(crate), quiet")];
    assert_eq!(tag_visibility_of(&attrs), restricted(false, false, &["crate"]));
    let attrs = vec![Attribute::list("tag_visibility", "")];
    assert_eq!(tag_visibility_of(&attrs), Visibility::Public);
}

#[test]
fn malformed_tag_visibility_keeps_what_came_before() {
    let attrs = vec![Attribute::list("tag_visibility", "pub(crate)")];
    assert_eq!(tag_visibility_of(&attrs), Visibility::Public);

    let attrs = vec![Attribute::list("tag_visibility", "a = pub(crate) b = pub(super)")];
    assert_eq!(tag_visibility_of(&attrs), restricted(false, false, &["crate"]));

    let attrs = vec![
        Attribute::list("tag_visibility", "a = pub(crate)"),
        Attribute::list("tag_visibility", "3"),
    ];
    assert_eq!(tag_visibility_of(&attrs), restricted(false, false, &["crate"]));
}

#[test]
fn only_tag_visibility_lists_count() {
    let bare = Attribute { path: Path::from_ident("tag_visibility"), args: AttributeArgs::Bare };
    assert_eq!(tag_visibility_of(&vec![bare]), Visibility::Public);
    let value =
        Attribute { path: Path::from_ident("tag_visibility"), args: AttributeArgs::NameValue };
    assert_eq!(tag_visibility_of(&vec![value]), Visibility::Public);
    let other = Attribute::list("visibility", "vis = pub(crate)");
    assert_eq!(tag_visibility_of(&vec![other]), Visibility::Public);
}

#[test]
fn choose_visibility_takes_the_last_found() {
    let found = vec![Visibility::Inherited, restricted(false, false, &["crate"])];
    assert_eq!(choose_visibility(&found, Visibility::Public), restricted(false, false, &["crate"]));
    assert_eq!(choose_visibility(&vec![], Visibility::Inherited), Visibility::Inherited);
    assert_eq!(choose_visibility(&vec![], Visibility::Public), Visibility::Public);
}

#[test]
fn every_marker_gets_the_tag_visibility() {
    let decl = Declaration {
        name: "Mode".to_string(),
        visibility: Visibility::Public,
        attrs: vec![Attribute::list("tag_visibility", "vis = pub(crate)")],
        body: ItemBody::Enum(vec![
            Variant { name: "On".to_string(), attrs: vec![] },
            Variant { name: "Off".to_string(), attrs: vec![] },
        ]),
    };
    let expansion = derive_enum_component_tag(&decl).unwrap();
    assert_eq!(expansion.visibility, Visibility::Public);
    assert_eq!(expansion.markers[0].visibility, restricted(false, false, &["crate"]));
    assert_eq!(expansion.markers[1].visibility, restricted(false, false, &["crate"]));
}
