use crate::text::{has_prefix, same_text};
use vstd::prelude::*;
use vstd::string::*;

verus! {

/// The HTML spelling of a field name: each `_` becomes `-`.
pub open spec fn dashed(s: Seq<char>) -> Seq<char> {
    s.map_values(|c: char| if c == '_' { '-' } else { c })
}

/// The attribute name of a field: its name dashed, without the `r#` of a raw
/// identifier.
pub open spec fn html_name(ident: Seq<char>) -> Seq<char> {
    let d = dashed(ident);
    if seq!['r', '#'].is_prefix_of(d) {
        d.subrange(2, d.len() as int)
    } else {
        d
    }
}

/// The attribute name that a component renders for the field `ident`.
pub fn attribute_name(ident: &str) -> (r: String)
    ensures
        r@ == html_name(ident@),
{
    let n = ident.unicode_len();
    let mut out = String::new();
    let mut start: usize = 0;
    let mut i: usize = 0;
    while i < n
        invariant
            n == ident@.len(),
            start <= i <= n,
            out@ == dashed(ident@.subrange(0, start as int)),
            forall|j: int| start <= j < i ==> ident@[j] != '_',
        decreases n - i,
    {
        if ident.get_char(i) == '_' {
            proof {
                reveal_strlit("-");
            }
            let ghost prev = out@;
            out.append(ident.substring_char(start, i));
            out.append("-");
            assert(ident@.subrange(0, i + 1) =~= ident@.subrange(0, start as int) + ident@.subrange(
                start as int,
                i as int,
            ) + seq!['_']);
            assert(dashed(ident@.subrange(start as int, i as int)) =~= ident@.subrange(start as int, i as int));
            assert(out@ =~= dashed(ident@.subrange(0, i + 1)));
            start = i + 1;
        }
        i = i + 1;
    }
    out.append(ident.substring_char(start, n));
    assert(dashed(ident@.subrange(start as int, n as int)) =~= ident@.subrange(start as int, n as int));
    assert(ident@ =~= ident@.subrange(0, start as int) + ident@.subrange(start as int, n as int));
    assert(out@ =~= dashed(ident@));
    proof {
        reveal_strlit("r#");
    }
    if has_prefix(out.as_str(), "r#") {
        let len = out.as_str().unicode_len();
        String::from_str(out.as_str().substring_char(2, len))
    } else {
        out
    }
}

/// A nested property of a `struct_component` attribute.
#[derive(Clone, Copy, Debug, PartialEq, Eq, Structural)]
pub enum AttrProperty {
    /// `tag = "..."`: the element's tag.
    Tag,
    /// `dynamic_tag = ...`: on a field, that the field names the tag.
    DynamicTag,
    /// `no_children = ...`: that the element takes no children.
    NoChildren,
}

/// The property that a nested name stands for; none for an unknown name.
pub open spec fn property_named(name: Seq<char>) -> Option<AttrProperty> {
    if name == "tag"@ {
        Some(AttrProperty::Tag)
    } else if name == "dynamic_tag"@ {
        Some(AttrProperty::DynamicTag)
    } else if name == "no_children"@ {
        Some(AttrProperty::NoChildren)
    } else {
        None
    }
}

/// The property named `name` in a `struct_component` attribute.
pub fn attr_property(name: &str) -> (r: Option<AttrProperty>)
    ensures
        r == property_named(name@),
{
    if same_text(name, "tag") {
        Some(AttrProperty::Tag)
    } else if same_text(name, "dynamic_tag") {
        Some(AttrProperty::DynamicTag)
    } else if same_text(name, "no_children") {
        Some(AttrProperty::NoChildren)
    } else {
        None
    }
}

/// The options of a `struct_component` attribute, on the struct or on a field.
#[derive(Clone, Debug)]
pub struct StructComponentAttrArgs {
    pub tag: Option<String>,
    pub dynamic_tag: Option<bool>,
    pub no_children: Option<bool>,
}

impl Default for StructComponentAttrArgs {
    fn default() -> (r: StructComponentAttrArgs)
        ensures
            r.tag is None,
            r.dynamic_tag is None,
            r.no_children is None,
    {
        StructComponentAttrArgs { tag: None, dynamic_tag: None, no_children: None }
    }
}

/// How a field's type begins: not a type path, or a path with its first segment.
#[derive(Clone, Debug)]
pub enum TypeHead {
    NotPath,
    Path(Option<String>),
}

/// A named field of a component struct, as the derive reads it.
#[derive(Clone, Debug)]
pub struct FieldDesc {
    /// The field's identifier as written, `r#` included.
    pub name: String,
    /// Whether the field's own `struct_component` attribute sets `dynamic_tag = true`.
    pub dynamic_tag: bool,
    pub head: TypeHead,
}

pub ghost enum HeadModel {
    NotPath,
    Path(Option<Seq<char>>),
}

pub ghost struct FieldModel {
    pub name: Seq<char>,
    pub dynamic_tag: bool,
    pub head: HeadModel,
}

impl View for FieldDesc {
    type V = FieldModel;

    open spec fn view(&self) -> FieldModel {
        FieldModel {
            name: self.name@,
            dynamic_tag: self.dynamic_tag,
            head: match self.head {
                TypeHead::NotPath => HeadModel::NotPath,
                TypeHead::Path(first) => HeadModel::Path(first.deep_view()),
            },
        }
    }
}

/// How a field's value becomes an attribute value.
#[derive(Clone, Copy, Debug, PartialEq, Eq, Structural)]
pub enum AttrKind {
    /// A `bool`: the attribute is present, empty, when true.
    Flag,
    /// An `AttrValue`: used as it is.
    Value,
    /// An `Option`: present when set.
    Optional,
    /// A `Style`: present when set, as its text.
    Styled,
    /// Any other type: converted.
    Converted,
}

/// What a field is to the rendered element.
#[derive(Clone, Copy, Debug, PartialEq, Eq, Structural)]
pub enum FieldRole {
    /// Its value names the tag.
    DynamicTag,
    /// The forwarded map of further attributes.
    AttributeMap,
    /// The element's node reference.
    NodeRef,
    /// An event listener.
    Listener,
    /// A DOM attribute.
    Attribute(AttrKind),
}

/// The kind of attribute for a type path whose first segment is `first`.
pub open spec fn kind_of(first: Option<Seq<char>>) -> AttrKind {
    match first {
        Some(h) => if h == "bool"@ {
            AttrKind::Flag
        } else if h == "AttrValue"@ {
            AttrKind::Value
        } else if h == "Option"@ {
            AttrKind::Optional
        } else if h == "Style"@ {
            AttrKind::Styled
        } else {
            AttrKind::Converted
        },
        None => AttrKind::Converted,
    }
}

/// The role of a field; none where it would be an attribute but its type is no path.
pub open spec fn role_of(f: FieldModel) -> Option<FieldRole> {
    if f.dynamic_tag {
        Some(FieldRole::DynamicTag)
    } else if f.name == "attributes"@ {
        Some(FieldRole::AttributeMap)
    } else if f.name == "node_ref"@ {
        Some(FieldRole::NodeRef)
    } else if "on"@.is_prefix_of(f.name) && f.head == HeadModel::Path(Some("Callback"@)) {
        Some(FieldRole::Listener)
    } else {
        match f.head {
            HeadModel::NotPath => None,
            HeadModel::Path(first) => Some(FieldRole::Attribute(kind_of(first))),
        }
    }
}

fn head_is(first: &Option<String>, name: &str) -> (r: bool)
    ensures
        r == (first.deep_view() == Some(name@)),
{
    match first {
        Some(h) => same_text(h.as_str(), name),
        None => false,
    }
}

fn attr_kind(first: &Option<String>) -> (r: AttrKind)
    ensures
        r == kind_of(first.deep_view()),
{
    if head_is(first, "bool") {
        AttrKind::Flag
    } else if head_is(first, "AttrValue") {
        AttrKind::Value
    } else if head_is(first, "Option") {
        AttrKind::Optional
    } else if head_is(first, "Style") {
        AttrKind::Styled
    } else {
        AttrKind::Converted
    }
}

/// The role of a field of a component struct.
pub fn classify_field(f: &FieldDesc) -> (r: Option<FieldRole>)
    ensures
        r == role_of(f@),
{
    let name = f.name.as_str();
    if f.dynamic_tag {
        return Some(FieldRole::DynamicTag);
    }
    if same_text(name, "attributes") {
        return Some(FieldRole::AttributeMap);
    }
    if same_text(name, "node_ref") {
        return Some(FieldRole::NodeRef);
    }
    match &f.head {
        TypeHead::NotPath => None,
        TypeHead::Path(first) => {
            if has_prefix(name, "on") && head_is(first, "Callback") {
                Some(FieldRole::Listener)
            } else {
                Some(FieldRole::Attribute(attr_kind(first)))
            }
        },
    }
}

/// Where the rendered element's tag comes from.
#[derive(Clone, Debug)]
pub enum TagSource {
    /// The value of the named field.
    Field(String),
    /// A fixed tag name.
    Fixed(String),
}

/// A field rendered as a DOM attribute.
#[derive(Clone, Debug)]
pub struct PlannedAttribute {
    /// The field's identifier.
    pub field: String,
    /// The attribute's name.
    pub name: String,
    pub kind: AttrKind,
}

/// What the derived rendering code does, field by field.
#[derive(Clone, Debug)]
pub struct ComponentPlan {
    pub tag: TagSource,
    /// The attributes, in field order.
    pub attributes: Vec<PlannedAttribute>,
    /// The listener fields, in field order.
    pub listeners: Vec<String>,
    /// Whether an `attributes` field forwards further attributes.
    pub attributes_map: bool,
    /// Whether a `node_ref` field is attached.
    pub node_ref: bool,
    /// Whether a `checked` attribute field also sets the element's checked state.
    pub set_checked: bool,
    /// Whether a `value` attribute field also sets the element's value.
    pub set_value: bool,
    /// Whether `render` takes children.
    pub children: bool,
}

/// Why no rendering code can be derived.
#[derive(Clone, Copy, Debug, PartialEq, Eq, Structural)]
pub enum ComponentError {
    /// The field at this position would be an attribute, but its type is no type path.
    ExpectedTypePath(usize),
    /// Neither a `tag` on the struct nor a `dynamic_tag` field names the tag.
    MissingTag,
}

pub ghost enum TagModel {
    Field(Seq<char>),
    Fixed(Seq<char>),
}

pub ghost struct PlanModel {
    pub tag: TagModel,
    pub attributes: Seq<(Seq<char>, Seq<char>, AttrKind)>,
    pub listeners: Seq<Seq<char>>,
    pub attributes_map: bool,
    pub node_ref: bool,
    pub set_checked: bool,
    pub set_value: bool,
    pub children: bool,
}

impl View for PlannedAttribute {
    type V = (Seq<char>, Seq<char>, AttrKind);

    open spec fn view(&self) -> (Seq<char>, Seq<char>, AttrKind) {
        (self.field@, self.name@, self.kind)
    }
}

impl View for ComponentPlan {
    type V = PlanModel;

    open spec fn view(&self) -> PlanModel {
        PlanModel {
            tag: match self.tag {
                TagSource::Field(f) => TagModel::Field(f@),
                TagSource::Fixed(t) => TagModel::Fixed(t@),
            },
            attributes: self.attributes@.map_values(|a: PlannedAttribute| a@),
            listeners: self.listeners.deep_view(),
            attributes_map: self.attributes_map,
            node_ref: self.node_ref,
            set_checked: self.set_checked,
            set_value: self.set_value,
            children: self.children,
        }
    }
}

/// The fields' models, in order.
pub open spec fn field_models(fields: Seq<FieldDesc>) -> Seq<FieldModel> {
    fields.map_values(|f: FieldDesc| f@)
}

/// The attribute fields, each with its attribute name and kind.
pub open spec fn planned_attributes(s: Seq<FieldModel>) -> Seq<(Seq<char>, Seq<char>, AttrKind)>
    decreases s.len(),
{
    if s.len() == 0 {
        seq![]
    } else {
        let f = s.last();
        match role_of(f) {
            Some(FieldRole::Attribute(k)) => planned_attributes(s.drop_last()).push((f.name, html_name(f.name), k)),
            _ => planned_attributes(s.drop_last()),
        }
    }
}

/// The names of the listener fields.
pub open spec fn planned_listeners(s: Seq<FieldModel>) -> Seq<Seq<char>>
    decreases s.len(),
{
    if s.len() == 0 {
        seq![]
    } else if role_of(s.last()) == Some(FieldRole::Listener) {
        planned_listeners(s.drop_last()).push(s.last().name)
    } else {
        planned_listeners(s.drop_last())
    }
}

/// The name of the last field that names the tag.
pub open spec fn last_dynamic_tag(s: Seq<FieldModel>) -> Option<Seq<char>>
    decreases s.len(),
{
    if s.len() == 0 {
        None
    } else if role_of(s.last()) == Some(FieldRole::DynamicTag) {
        Some(s.last().name)
    } else {
        last_dynamic_tag(s.drop_last())
    }
}

/// The position of the first field without a role.
pub open spec fn first_bad(s: Seq<FieldModel>) -> Option<int>
    decreases s.len(),
{
    if s.len() == 0 {
        None
    } else {
        match first_bad(s.drop_last()) {
            Some(i) => Some(i),
            None => if role_of(s.last()) is None {
                Some(s.len() - 1)
            } else {
                None
            },
        }
    }
}

/// Whether some field has the role `role`.
pub open spec fn any_role(s: Seq<FieldModel>, role: FieldRole) -> bool
    decreases s.len(),
{
    s.len() > 0 && (any_role(s.drop_last(), role) || role_of(s.last()) == Some(role))
}

/// Whether some attribute field is named `name`.
pub open spec fn any_attribute_named(s: Seq<FieldModel>, name: Seq<char>) -> bool
    decreases s.len(),
{
    s.len() > 0 && (any_attribute_named(s.drop_last(), name) || (role_of(s.last()) matches Some(
        FieldRole::Attribute(_),
    ) && s.last().name == name))
}

/// The tag: the last `dynamic_tag` field, else the struct's `tag`.
pub open spec fn tag_of(tag: Option<Seq<char>>, s: Seq<FieldModel>) -> Option<TagModel> {
    match last_dynamic_tag(s) {
        Some(f) => Some(TagModel::Field(f)),
        None => match tag {
            Some(t) => Some(TagModel::Fixed(t)),
            None => None,
        },
    }
}

/// The plan for a struct with options `tag` and `no_children` and fields `s`.
pub open spec fn planned(tag: Option<Seq<char>>, no_children: Option<bool>, s: Seq<FieldModel>) -> Result<
    PlanModel,
    ComponentError,
> {
    match first_bad(s) {
        Some(i) => Err(ComponentError::ExpectedTypePath(i as usize)),
        None => match tag_of(tag, s) {
            None => Err(ComponentError::MissingTag),
            Some(t) => Ok(
                PlanModel {
                    tag: t,
                    attributes: planned_attributes(s),
                    listeners: planned_listeners(s),
                    attributes_map: any_role(s, FieldRole::AttributeMap),
                    node_ref: any_role(s, FieldRole::NodeRef),
                    set_checked: any_attribute_named(s, "checked"@),
                    set_value: any_attribute_named(s, "value"@),
                    children: no_children != Some(true),
                },
            ),
        },
    }
}

/// The model of a planning result.
pub open spec fn plan_view(r: Result<ComponentPlan, ComponentError>) -> Result<PlanModel, ComponentError> {
    match r {
        Ok(p) => Ok(p@),
        Err(e) => Err(e),
    }
}

/// What the component derive renders for a struct with options `args` and the
/// named fields `fields`, in order.
pub fn plan_component(args: &StructComponentAttrArgs, fields: &Vec<FieldDesc>) -> (r: Result<
    ComponentPlan,
    ComponentError,
>)
    ensures
        plan_view(r) == planned(args.tag.deep_view(), args.no_children, field_models(fields@)),
{
    let ghost models = field_models(fields@);
    let mut attributes: Vec<PlannedAttribute> = Vec::new();
    let mut listeners: Vec<String> = Vec::new();
    let mut dynamic_tag: Option<String> = None;
    let mut bad: Option<usize> = None;
    let mut attributes_map = false;
    let mut node_ref = false;
    let mut set_checked = false;
    let mut set_value = false;
    let n = fields.len();
    let mut i: usize = 0;
    assert(models.subrange(0, 0) =~= Seq::<FieldModel>::empty());
    while i < n
        invariant
            n == fields.len(),
            models == field_models(fields@),
            i <= n,
            attributes@.map_values(|a: PlannedAttribute| a@) == planned_attributes(models.subrange(0, i as int)),
            listeners.deep_view() == planned_listeners(models.subrange(0, i as int)),
            dynamic_tag.deep_view() == last_dynamic_tag(models.subrange(0, i as int)),
            bad == match first_bad(models.subrange(0, i as int)) {
                Some(j) => Some(j as usize),
                None => None::<usize>,
            },
            first_bad(models.subrange(0, i as int)) matches Some(j) ==> 0 <= j < i,
            attributes_map == any_role(models.subrange(0, i as int), FieldRole::AttributeMap),
            node_ref == any_role(models.subrange(0, i as int), FieldRole::NodeRef),
            set_checked == any_attribute_named(models.subrange(0, i as int), "checked"@),
            set_value == any_attribute_named(models.subrange(0, i as int), "value"@),
        decreases n - i,
    {
        let ghost before = models.subrange(0, i as int);
        let ghost after = models.subrange(0, i + 1);
        assert(after.drop_last() =~= before);
        assert(after.last() == fields@[i as int]@);
        let field = &fields[i];
        let ghost old_attributes = attributes@;
        match classify_field(field) {
            None => {
                if bad.is_none() {
                    bad = Some(i);
                }
            },
            Some(FieldRole::DynamicTag) => {
                dynamic_tag = Some(field.name.clone());
            },
            Some(FieldRole::AttributeMap) => {
                attributes_map = true;
            },
            Some(FieldRole::NodeRef) => {
                node_ref = true;
            },
            Some(FieldRole::Listener) => {
                listeners.push(field.name.clone());
            },
            Some(FieldRole::Attribute(kind)) => {
                if same_text(field.name.as_str(), "checked") {
                    set_checked = true;
                }
                if same_text(field.name.as_str(), "value") {
                    set_value = true;
                }
                let planned = PlannedAttribute {
                    field: field.name.clone(),
                    name: attribute_name(field.name.as_str()),
                    kind,
                };
                attributes.push(planned);
                assert(attributes@ == old_attributes.push(planned));
                assert(attributes@.map_values(|a: PlannedAttribute| a@) =~= old_attributes.map_values(
                    |a: PlannedAttribute| a@,
                ).push(planned@));
            },
        }
        assert(listeners.deep_view() =~= planned_listeners(after));
        i = i + 1;
    }
    assert(models.subrange(0, n as int) =~= models);
    if let Some(j) = bad {
        return Err(ComponentError::ExpectedTypePath(j));
    }
    let tag = match dynamic_tag {
        Some(field) => TagSource::Field(field),
        None => match &args.tag {
            Some(tag) => TagSource::Fixed(tag.clone()),
            None => {
                return Err(ComponentError::MissingTag);
            },
        },
    };
    let children = match args.no_children {
        Some(no_children) => !no_children,
        None => true,
    };
    Ok(
        ComponentPlan {
            tag,
            attributes,
            listeners,
            attributes_map,
            node_ref,
            set_checked,
            set_value,
            children,
        },
    )
}

} // verus!
