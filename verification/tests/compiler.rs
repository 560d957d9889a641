use struct_component::compile::{compile, CompileError, TagSource};
use struct_component::node_ref::{AnyNodeRef, ReactiveCtx};
use struct_component::record::{
    parse_struct_component_attr, ArgValue, FieldSpec, FieldTy, ParseError, RawArg, RecordSpec,
};
use struct_component::render::{compile_and_render_empty, render, typed_fallback_show, RenderValues};

fn arg_text(name: &str, value: &str) -> RawArg {
    RawArg { name: name.to_string(), value: ArgValue::Text(value.to_string()) }
}

fn arg_flag(name: &str, value: bool) -> RawArg {
    RawArg { name: name.to_string(), value: ArgValue::Flag(value) }
}

fn path(head: &str) -> FieldTy {
    FieldTy::Path { head: head.to_string(), arg: None }
}

fn path1(head: &str, arg: &str) -> FieldTy {
    FieldTy::Path { head: head.to_string(), arg: Some(arg.to_string()) }
}

fn field(name: &str, ty: FieldTy) -> FieldSpec {
    FieldSpec { name: name.to_string(), ty, args: None }
}

fn image_record() -> RecordSpec {
    RecordSpec {
        ident: "ImageChildProps".to_string(),
        args: Some(vec![arg_text("tag", "img"), arg_flag("no_children", true)]),
        fields: vec![
            field("node_ref", path("AnyNodeRef")),
            field("id", path1("Option", "String")),
            field("onclick", path1("Option", "Callback")),
        ],
    }
}

fn box_record() -> RecordSpec {
    let mut as_field = field("as", path("BoxAs"));
    as_field.args = Some(vec![arg_flag("dynamic_tag", true)]);
    RecordSpec {
        ident: "BoxChildProps".to_string(),
        args: None,
        fields: vec![
            as_field,
            field("node_ref", path("AnyNodeRef")),
            field("class", path1("MaybeProp", "String")),
            field("id", path1("MaybeProp", "String")),
            field("style", path1("MaybeProp", "String")),
        ],
    }
}

#[test]
fn test_parse_annotation() {
    let parsed =
        parse_struct_component_attr(&vec![arg_text("tag", "img"), arg_flag("no_children", true)])
            .unwrap();
    assert_eq!(parsed.tag, Some("img".to_string()));
    assert_eq!(parsed.dynamic_tag, None);
    assert_eq!(parsed.no_children, Some(true));
}

#[test]
fn test_parse_annotation_unknown_property() {
    let err = parse_struct_component_attr(&vec![arg_text("tags", "img")]).unwrap_err();
    assert!(matches!(err, ParseError::UnknownProperty(ref name) if name == "tags"));
}

#[test]
fn test_parse_annotation_wrong_shapes() {
    let err = parse_struct_component_attr(&vec![arg_flag("tag", true)]).unwrap_err();
    assert!(matches!(err, ParseError::ExpectedText(ref name) if name == "tag"));

    let err = parse_struct_component_attr(&vec![arg_text("no_children", "yes")]).unwrap_err();
    assert!(matches!(err, ParseError::ExpectedFlag(ref name) if name == "no_children"));
}

#[test]
fn test_compile_fixed_tag_record() {
    let plan = compile(&image_record()).unwrap();
    assert!(matches!(plan.tag, TagSource::Fixed(ref t) if t == "img"));
    assert!(plan.node_ref);
    assert!(!plan.accepts_children);
    assert_eq!(plan.attributes.len(), 1);
    assert_eq!(plan.attributes[0].key, "id");
    assert!(!plan.attributes[0].reactive);
    assert_eq!(plan.listeners.len(), 1);
    assert_eq!(plan.listeners[0].event, "click");
    assert!(plan.listeners[0].optional);
}

#[test]
fn test_compile_dynamic_tag_record() {
    let plan = compile(&box_record()).unwrap();
    assert!(matches!(plan.tag, TagSource::Dynamic(ref f) if f == "as"));
    assert!(plan.node_ref);
    assert!(plan.accepts_children);
    assert_eq!(plan.attributes.len(), 3);
    assert!(plan.attributes.iter().all(|b| b.reactive));
    assert_eq!(plan.listeners.len(), 0);
}

#[test]
fn test_compile_missing_tag() {
    let record = RecordSpec {
        ident: "Broken".to_string(),
        args: None,
        fields: vec![field("id", path1("Option", "String"))],
    };
    let err = compile(&record).unwrap_err();
    assert!(matches!(err, CompileError::MissingTag(ref ident) if ident == "Broken"));
}

#[test]
fn test_compile_unrecognized_callback() {
    let record = RecordSpec {
        ident: "Bad".to_string(),
        args: Some(vec![arg_text("tag", "div")]),
        fields: vec![field("onclick", path("String"))],
    };
    let err = compile(&record).unwrap_err();
    assert!(matches!(err, CompileError::UnrecognizedCallback(ref name) if name == "onclick"));
}

#[test]
fn test_compile_unclassifiable_field() {
    let record = RecordSpec {
        ident: "Bad".to_string(),
        args: Some(vec![arg_text("tag", "div")]),
        fields: vec![field("weird", FieldTy::NotPath)],
    };
    let err = compile(&record).unwrap_err();
    assert!(matches!(err, CompileError::ExpectedTypePath(ref name) if name == "weird"));
}

#[test]
fn test_compile_rejected_annotation() {
    let record = RecordSpec {
        ident: "Bad".to_string(),
        args: Some(vec![arg_text("tagg", "div")]),
        fields: vec![],
    };
    let err = compile(&record).unwrap_err();
    assert!(matches!(
        err,
        CompileError::Annotation(ParseError::UnknownProperty(ref name)) if name == "tagg"
    ));
}

#[test]
fn test_compile_skips_attribute_map_and_required_listener() {
    let record = RecordSpec {
        ident: "Widget".to_string(),
        args: Some(vec![arg_text("tag", "button")]),
        fields: vec![
            field("attributes", path("Attributes")),
            field("onpointerdown", path("Callback")),
            field("data_value", path1("Option", "String")),
            field("r#type", path1("Option", "String")),
        ],
    };
    let plan = compile(&record).unwrap();
    // the attribute map is recorded nowhere among the bindings
    assert_eq!(plan.attributes.len(), 2);
    // underscore-to-hyphen normalization
    assert_eq!(plan.attributes[0].key, "data-value");
    // reserved-word prefix strip
    assert_eq!(plan.attributes[1].key, "type");
    assert_eq!(plan.listeners.len(), 1);
    assert_eq!(plan.listeners[0].event, "pointerdown");
    assert!(!plan.listeners[0].optional);
}

#[test]
fn test_end_to_end_image_render() {
    let mut cx = ReactiveCtx::new();
    let plan = compile(&image_record()).unwrap();
    let handle = AnyNodeRef::new(&mut cx);
    let values = RenderValues {
        tag_value: None,
        node_ref: Some(handle),
        attr_values: vec![Some("x".to_string())],
        listener_present: vec![false],
        children: None,
    };
    let node = render(&plan, values, &mut cx);
    assert_eq!(node.tag, "img");
    assert_eq!(node.attrs, vec![("id".to_string(), "x".to_string())]);
    assert!(node.listeners.is_empty(), "No onclick binding may be attached");
    assert!(node.children.is_empty());
    // the reference handle now holds the rendered target
    assert_eq!(handle.read_untracked(&cx), Some(node.target));
}

#[test]
fn test_render_attaches_present_listener() {
    let mut cx = ReactiveCtx::new();
    let plan = compile(&image_record()).unwrap();
    let handle = AnyNodeRef::new(&mut cx);
    let values = RenderValues {
        tag_value: None,
        node_ref: Some(handle),
        attr_values: vec![None],
        listener_present: vec![true],
        children: None,
    };
    let node = render(&plan, values, &mut cx);
    assert_eq!(node.listeners, vec!["click".to_string()]);
    assert!(node.attrs.is_empty(), "An absent attribute value is omitted");
}

#[test]
fn test_render_dynamic_tag() {
    let mut cx = ReactiveCtx::new();
    let plan = compile(&box_record()).unwrap();
    let handle = AnyNodeRef::new(&mut cx);
    let values = RenderValues {
        tag_value: Some("span".to_string()),
        node_ref: Some(handle),
        attr_values: vec![Some("card".to_string()), None, None],
        listener_present: vec![],
        children: Some(vec![]),
    };
    let node = render(&plan, values, &mut cx);
    assert_eq!(node.tag, "span");
    assert_eq!(node.attrs, vec![("class".to_string(), "card".to_string())]);
}

#[test]
fn test_children_slot_marker() {
    let record = RecordSpec {
        ident: "Panel".to_string(),
        args: Some(vec![arg_text("tag", "div")]),
        fields: vec![field("children", path("Children")), field("id", path1("Option", "String"))],
    };
    let plan = compile(&record).unwrap();
    // the slot is recorded and excluded from attribute application
    assert!(plan.children_slot);
    assert!(plan.accepts_children);
    assert_eq!(plan.attributes.len(), 1);
    assert_eq!(plan.attributes[0].key, "id");
}

#[test]
fn test_typed_fallback_show() {
    let shown = typed_fallback_show(true, || "children", || "fallback");
    assert_eq!(shown, "children");
    let hidden = typed_fallback_show(false, || "children", || "fallback");
    assert_eq!(hidden, "fallback");
}

#[test]
fn test_compile_then_render_never_fails_with_absent_inputs() {
    let mut cx = ReactiveCtx::new();
    let node = compile_and_render_empty(&image_record(), &mut cx).unwrap();
    assert_eq!(node.tag, "img");
    assert!(node.attrs.is_empty());
    assert!(node.listeners.is_empty());
    assert!(node.children.is_empty());

    let node = compile_and_render_empty(&box_record(), &mut cx).unwrap();
    assert_eq!(node.tag, "div", "A dynamic tag with no value supplied falls back to div");

    let broken = RecordSpec {
        ident: "Broken".to_string(),
        args: None,
        fields: vec![],
    };
    assert!(compile_and_render_empty(&broken, &mut cx).is_err());

    // A required callback is still bound when every optional input is absent.
    let widget = RecordSpec {
        ident: "Widget".to_string(),
        args: Some(vec![arg_text("tag", "button")]),
        fields: vec![field("onpointerdown", path("Callback")), field("onclick", path1("Option", "Callback"))],
    };
    let node = compile_and_render_empty(&widget, &mut cx).unwrap();
    assert_eq!(node.tag, "button");
    assert_eq!(node.listeners, vec!["pointerdown".to_string()]);
    assert!(node.attrs.is_empty());
}
