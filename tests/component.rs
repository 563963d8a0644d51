use yew_struct_component::component::{
    attr_property, attribute_name, classify_field, plan_component, AttrKind, AttrProperty,
    ComponentError, FieldDesc, FieldRole, StructComponentAttrArgs, TagSource, TypeHead,
};

fn field(name: &str, head: Option<&str>) -> FieldDesc {
    FieldDesc {
        name: name.to_string(),
        dynamic_tag: false,
        head: TypeHead::Path(head.map(|h| h.to_string())),
    }
}

#[test]
fn attribute_names_are_dashed() {
    assert_eq!("aria-label", attribute_name("aria_label"));
    assert_eq!("a--b-", attribute_name("a__b_"));
    assert_eq!("as", attribute_name("r#as"));
    assert_eq!("type", attribute_name("r#type"));
    assert_eq!("", attribute_name(""));
    assert_eq!("class", attribute_name("class"));
}

#[test]
fn properties_are_looked_up_by_name() {
    assert_eq!(Some(AttrProperty::Tag), attr_property("tag"));
    assert_eq!(Some(AttrProperty::DynamicTag), attr_property("dynamic_tag"));
    assert_eq!(Some(AttrProperty::NoChildren), attr_property("no_children"));
    assert_eq!(None, attr_property("tags"));
}

#[test]
fn fields_are_classified() {
    assert_eq!(Some(FieldRole::AttributeMap), classify_field(&field("attributes", Some("Attributes"))));
    assert_eq!(Some(FieldRole::NodeRef), classify_field(&field("node_ref", Some("NodeRef"))));
    assert_eq!(Some(FieldRole::Listener), classify_field(&field("onclick", Some("Callback"))));
    assert_eq!(
        Some(FieldRole::Attribute(AttrKind::Optional)),
        classify_field(&field("onclick", Some("Option")))
    );
    assert_eq!(Some(FieldRole::Attribute(AttrKind::Flag)), classify_field(&field("disabled", Some("bool"))));
    assert_eq!(Some(FieldRole::Attribute(AttrKind::Value)), classify_field(&field("id", Some("AttrValue"))));
    assert_eq!(Some(FieldRole::Attribute(AttrKind::Styled)), classify_field(&field("style", Some("Style"))));
    assert_eq!(Some(FieldRole::Attribute(AttrKind::Converted)), classify_field(&field("width", Some("u32"))));
    assert_eq!(Some(FieldRole::Attribute(AttrKind::Converted)), classify_field(&field("width", None)));
    let mut tag = field("r#as", Some("BoxAs"));
    tag.dynamic_tag = true;
    assert_eq!(Some(FieldRole::DynamicTag), classify_field(&tag));
    let tuple = FieldDesc { name: "pair".to_string(), dynamic_tag: false, head: TypeHead::NotPath };
    assert_eq!(None, classify_field(&tuple));
}

#[test]
fn image_component_plan() {
    let args = StructComponentAttrArgs { tag: Some("img".to_string()), dynamic_tag: None, no_children: Some(true) };
    let fields = vec![
        field("node_ref", Some("NodeRef")),
        field("attributes", Some("Attributes")),
        field("class", Some("Option")),
        field("checked", Some("bool")),
        field("value", Some("AttrValue")),
        field("onclick", Some("Callback")),
        field("aria_label", Some("String")),
    ];
    let plan = plan_component(&args, &fields).unwrap();
    assert!(matches!(plan.tag, TagSource::Fixed(ref t) if t == "img"));
    assert!(!plan.children);
    assert!(plan.node_ref);
    assert!(plan.attributes_map);
    assert!(plan.set_checked);
    assert!(plan.set_value);
    assert_eq!(vec!["onclick".to_string()], plan.listeners);
    let names: Vec<(String, String, AttrKind)> =
        plan.attributes.iter().map(|a| (a.field.clone(), a.name.clone(), a.kind)).collect();
    assert_eq!(
        vec![
            ("class".to_string(), "class".to_string(), AttrKind::Optional),
            ("checked".to_string(), "checked".to_string(), AttrKind::Flag),
            ("value".to_string(), "value".to_string(), AttrKind::Value),
            ("aria_label".to_string(), "aria-label".to_string(), AttrKind::Converted),
        ],
        names
    );
}

#[test]
fn dynamic_tag_field_wins_over_struct_tag() {
    let args = StructComponentAttrArgs { tag: Some("div".to_string()), dynamic_tag: None, no_children: None };
    let mut first = field("r#as", Some("BoxAs"));
    first.dynamic_tag = true;
    let mut second = field("kind", Some("BoxAs"));
    second.dynamic_tag = true;
    let plan = plan_component(&args, &vec![first, field("id", Some("Option")), second]).unwrap();
    assert!(matches!(plan.tag, TagSource::Field(ref f) if f == "kind"));
    assert!(plan.children);
    assert!(!plan.node_ref);
    assert!(!plan.attributes_map);
    assert_eq!(1, plan.attributes.len());
}

#[test]
fn missing_tag_is_an_error() {
    let args = StructComponentAttrArgs::default();
    let result = plan_component(&args, &vec![field("id", Some("Option"))]);
    assert_eq!(Some(ComponentError::MissingTag), result.err());
}

#[test]
fn first_field_without_type_path_is_reported() {
    let args = StructComponentAttrArgs::default();
    let bad = FieldDesc { name: "a".to_string(), dynamic_tag: false, head: TypeHead::NotPath };
    let fields = vec![field("id", Some("Option")), bad.clone(), bad];
    assert_eq!(Some(ComponentError::ExpectedTypePath(1)), plan_component(&args, &fields).err());
}

#[test]
fn checked_only_counts_as_attribute() {
    let args = StructComponentAttrArgs { tag: Some("input".to_string()), dynamic_tag: None, no_children: Some(false) };
    let mut checked = field("checked", Some("bool"));
    checked.dynamic_tag = true;
    let plan = plan_component(&args, &vec![checked]).unwrap();
    assert!(!plan.set_checked);
    assert!(plan.children);
}
