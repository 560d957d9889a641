//! The property compiler: reads a property record's declared fields and
//! annotations, validates them, and emits a deterministic render plan.
//! Classification is by naming and type convention, field by field, in
//! declaration order; the emitted plan fixes the construction order of the
//! rendered element: tag, reference attachment, attribute bindings, event
//! bindings, children.

use vstd::prelude::*;
use vstd::string::StrSliceExecFns;
use vstd::string::StringExecFns;
use crate::record::ComponentArgs;
use crate::record::ComponentArgsView;
use crate::record::FieldSpecView;
use crate::record::FieldTy;
use crate::record::FieldTyView;
use crate::record::ParseError;
use crate::record::ParseErrorView;
use crate::record::RecordSpec;
use crate::record::RecordSpecView;
use crate::record::empty_args;
use crate::record::parse_struct_component_attr;
use crate::record::spec_parse_args;
use crate::text::has_prefix;
use crate::text::is_prefix_of;
use crate::text::normalize_key;
use crate::text::normalized_key;
use crate::text::str_eq;

verus! {

/// Where the rendered element's tag comes from: a fixed tag name, or the
/// runtime value of the named field.
#[derive(Debug)]
pub enum TagSource {
    Fixed(String),
    Dynamic(String),
}

/// What a tag source holds.
pub enum TagSourceView {
    Fixed(Seq<char>),
    Dynamic(Seq<char>),
}

impl View for TagSource {
    type V = TagSourceView;

    open spec fn view(&self) -> TagSourceView {
        match self {
            TagSource::Fixed(t) => TagSourceView::Fixed(t@),
            TagSource::Dynamic(f) => TagSourceView::Dynamic(f@),
        }
    }
}

/// One attribute binding of the plan: the externally visible key, and
/// whether the value is re-evaluated reactively or applied once.
#[derive(Debug)]
pub struct AttrBinding {
    pub key: String,
    pub reactive: bool,
}

/// What an attribute binding holds.
pub struct AttrBindingView {
    pub key: Seq<char>,
    pub reactive: bool,
}

impl View for AttrBinding {
    type V = AttrBindingView;

    open spec fn view(&self) -> AttrBindingView {
        AttrBindingView { key: self.key@, reactive: self.reactive }
    }
}

impl DeepView for AttrBinding {
    type V = AttrBindingView;

    open spec fn deep_view(&self) -> AttrBindingView {
        self@
    }
}

/// One event binding of the plan: the event name, and whether the handler
/// slot is optional.
#[derive(Debug)]
pub struct EventBinding {
    pub event: String,
    pub optional: bool,
}

/// What an event binding holds.
pub struct EventBindingView {
    pub event: Seq<char>,
    pub optional: bool,
}

impl View for EventBinding {
    type V = EventBindingView;

    open spec fn view(&self) -> EventBindingView {
        EventBindingView { event: self.event@, optional: self.optional }
    }
}

impl DeepView for EventBinding {
    type V = EventBindingView;

    open spec fn deep_view(&self) -> EventBindingView {
        self@
    }
}

/// The compiled render plan: the tag source, whether a reference is
/// attached, the attribute bindings and event bindings in declaration
/// order, whether the record declares a children slot, and whether the
/// render procedure accepts children.
#[derive(Debug)]
pub struct RenderPlan {
    pub tag: TagSource,
    pub node_ref: bool,
    pub attributes: Vec<AttrBinding>,
    pub listeners: Vec<EventBinding>,
    pub children_slot: bool,
    pub accepts_children: bool,
}

/// What a render plan holds.
pub struct PlanView {
    pub tag: TagSourceView,
    pub node_ref: bool,
    pub attributes: Seq<AttrBindingView>,
    pub listeners: Seq<EventBindingView>,
    pub children_slot: bool,
    pub accepts_children: bool,
}

impl View for RenderPlan {
    type V = PlanView;

    open spec fn view(&self) -> PlanView {
        PlanView {
            tag: self.tag@,
            node_ref: self.node_ref,
            attributes: self.attributes.deep_view(),
            listeners: self.listeners.deep_view(),
            children_slot: self.children_slot,
            accepts_children: self.accepts_children,
        }
    }
}

/// A fatal configuration error, reported at compilation of the record
/// type and never at run time: a rejected annotation, no tag source, a
/// field whose type is not a path, or an event-prefixed field whose type
/// is no recognized callback shape.  Each error names the record type or
/// field at fault.
#[derive(Debug)]
pub enum CompileError {
    Annotation(ParseError),
    MissingTag(String),
    ExpectedTypePath(String),
    UnrecognizedCallback(String),
}

/// What a compile error holds.
pub enum CompileErrorView {
    Annotation(ParseErrorView),
    MissingTag(Seq<char>),
    ExpectedTypePath(Seq<char>),
    UnrecognizedCallback(Seq<char>),
}

impl View for CompileError {
    type V = CompileErrorView;

    open spec fn view(&self) -> CompileErrorView {
        match self {
            CompileError::Annotation(e) => CompileErrorView::Annotation(e@),
            CompileError::MissingTag(s) => CompileErrorView::MissingTag(s@),
            CompileError::ExpectedTypePath(s) => CompileErrorView::ExpectedTypePath(s@),
            CompileError::UnrecognizedCallback(s) => CompileErrorView::UnrecognizedCallback(s@),
        }
    }
}

/// What the compiler decides to do with one field.
pub enum FieldAction {
    ChildrenSlot,
    SkipAttrMap,
    UseNodeRef,
    DynTag,
    Listener { event: Seq<char>, optional: bool },
    Attr { key: Seq<char>, reactive: bool },
    Fail(CompileErrorView),
}

/// Classifies one field by naming and type convention: a field annotated
/// as the dynamic tag supplies the tag; the reserved `children` name marks
/// the children slot and is skipped from attribute application; the
/// reserved `attributes` and `node_ref` names route to the attribute map
/// and the reference attachment; an event-prefixed name must have a
/// required or optional callback type and binds the event named by
/// stripping the prefix; a reactively-computed value binds as a recomputed
/// attribute; anything else binds once under its normalized name.
pub open spec fn classify_field(f: FieldSpecView) -> FieldAction {
    let parsed = match f.args {
        Some(a) => spec_parse_args(a),
        None => Ok(empty_args()),
    };
    match parsed {
        Err(e) => FieldAction::Fail(CompileErrorView::Annotation(e)),
        Ok(fa) => {
            if fa.dynamic_tag == Some(true) {
                FieldAction::DynTag
            } else if f.name == "children"@ {
                FieldAction::ChildrenSlot
            } else if f.name == "attributes"@ {
                FieldAction::SkipAttrMap
            } else if f.name == "node_ref"@ {
                FieldAction::UseNodeRef
            } else if is_prefix_of("on"@, f.name) {
                match f.ty {
                    FieldTyView::Path { head, arg } => {
                        if head == "Callback"@ {
                            FieldAction::Listener {
                                event: f.name.subrange(2, f.name.len() as int),
                                optional: false,
                            }
                        } else if head == "Option"@ && arg == Some("Callback"@) {
                            FieldAction::Listener {
                                event: f.name.subrange(2, f.name.len() as int),
                                optional: true,
                            }
                        } else {
                            FieldAction::Fail(CompileErrorView::UnrecognizedCallback(f.name))
                        }
                    },
                    FieldTyView::NotPath => FieldAction::Fail(
                        CompileErrorView::ExpectedTypePath(f.name),
                    ),
                }
            } else {
                match f.ty {
                    FieldTyView::Path { head, arg: _ } => FieldAction::Attr {
                        key: normalized_key(f.name),
                        reactive: head == "MaybeProp"@,
                    },
                    FieldTyView::NotPath => FieldAction::Fail(
                        CompileErrorView::ExpectedTypePath(f.name),
                    ),
                }
            }
        },
    }
}

/// The state accumulated while walking the fields.
pub struct PlanAcc {
    pub tag_dyn: Option<Seq<char>>,
    pub node_ref: bool,
    pub children_slot: bool,
    pub attrs: Seq<AttrBindingView>,
    pub listeners: Seq<EventBindingView>,
}

/// Walks the fields in declaration order, folding each field's action
/// into the accumulated plan; the first error wins.
pub open spec fn fold_fields(fs: Seq<FieldSpecView>) -> Result<PlanAcc, CompileErrorView>
    decreases fs.len(),
{
    if fs.len() == 0 {
        Ok(
            PlanAcc {
                tag_dyn: None,
                node_ref: false,
                children_slot: false,
                attrs: Seq::empty(),
                listeners: Seq::empty(),
            },
        )
    } else {
        match fold_fields(fs.drop_last()) {
            Err(e) => Err(e),
            Ok(acc) => match classify_field(fs.last()) {
                FieldAction::Fail(e) => Err(e),
                FieldAction::DynTag => Ok(PlanAcc { tag_dyn: Some(fs.last().name), ..acc }),
                FieldAction::ChildrenSlot => Ok(PlanAcc { children_slot: true, ..acc }),
                FieldAction::SkipAttrMap => Ok(acc),
                FieldAction::UseNodeRef => Ok(PlanAcc { node_ref: true, ..acc }),
                FieldAction::Listener { event, optional } => Ok(
                    PlanAcc {
                        listeners: acc.listeners.push(EventBindingView { event, optional }),
                        ..acc
                    },
                ),
                FieldAction::Attr { key, reactive } => Ok(
                    PlanAcc { attrs: acc.attrs.push(AttrBindingView { key, reactive }), ..acc },
                ),
            },
        }
    }
}

/// Once a prefix of the fields is rejected, the whole record is rejected
/// with the same error.
pub proof fn lemma_fold_err_persists(fs: Seq<FieldSpecView>, j: int)
    requires
        0 <= j <= fs.len(),
        fold_fields(fs.take(j)) is Err,
    ensures
        fold_fields(fs) == fold_fields(fs.take(j)),
    decreases fs.len() - j,
{
    if j == fs.len() {
        assert(fs.take(j) =~= fs);
    } else {
        assert(fs.take(j + 1).drop_last() =~= fs.take(j));
        lemma_fold_err_persists(fs, j + 1);
    }
}

/// What compiling a property record yields: a render plan, or the first
/// fatal configuration error.  The tag is the dynamic-tag field when one
/// is declared, else the fixed tag annotation; a record with neither is
/// rejected with an error naming the record type.  A record marked
/// `no_children` compiles to a plan that accepts none.
pub open spec fn spec_compile(r: RecordSpecView) -> Result<PlanView, CompileErrorView> {
    let rargs = match r.args {
        Some(a) => spec_parse_args(a),
        None => Ok(empty_args()),
    };
    match rargs {
        Err(e) => Err(CompileErrorView::Annotation(e)),
        Ok(ra) => match fold_fields(r.fields) {
            Err(e) => Err(e),
            Ok(acc) => {
                let no_children = ra.no_children == Some(true);
                match acc.tag_dyn {
                    Some(n) => Ok(
                        PlanView {
                            tag: TagSourceView::Dynamic(n),
                            node_ref: acc.node_ref,
                            attributes: acc.attrs,
                            listeners: acc.listeners,
                            children_slot: acc.children_slot,
                            accepts_children: !no_children,
                        },
                    ),
                    None => match ra.tag {
                        Some(t) => Ok(
                            PlanView {
                                tag: TagSourceView::Fixed(t),
                                node_ref: acc.node_ref,
                                attributes: acc.attrs,
                                listeners: acc.listeners,
                                children_slot: acc.children_slot,
                                accepts_children: !no_children,
                            },
                        ),
                        None => Err(CompileErrorView::MissingTag(r.ident)),
                    },
                }
            },
        },
    }
}

/// Compiles a property record into its render plan, or reports the first
/// fatal configuration error.
pub fn compile(record: &RecordSpec) -> (r: Result<RenderPlan, CompileError>)
    ensures
        (match r {
            Ok(p) => spec_compile(record@) == Ok::<PlanView, CompileErrorView>(p@),
            Err(e) => spec_compile(record@) == Err::<PlanView, CompileErrorView>(e@),
        }),
{
    let ra: ComponentArgs = match &record.args {
        Some(a) => {
            match parse_struct_component_attr(a) {
                Ok(pa) => pa,
                Err(e) => {
                    return Err(CompileError::Annotation(e));
                },
            }
        },
        None => ComponentArgs { tag: None, dynamic_tag: None, no_children: None },
    };
    let ghost fv = record@.fields;
    let mut tag_dyn: Option<String> = None;
    let mut node_ref = false;
    let mut children_slot = false;
    let mut attrs: Vec<AttrBinding> = Vec::new();
    let mut listeners: Vec<EventBinding> = Vec::new();
    let mut i: usize = 0;
    proof {
        assert(fv.take(0) =~= Seq::<FieldSpecView>::empty());
        assert(attrs.deep_view() =~= Seq::<AttrBindingView>::empty());
        assert(listeners.deep_view() =~= Seq::<EventBindingView>::empty());
    }
    while i < record.fields.len()
        invariant
            i <= record.fields.len(),
            fv == record@.fields,
            fv.len() == record.fields.len(),
            (match record@.args {
                Some(a) => spec_parse_args(a) == Ok::<ComponentArgsView, ParseErrorView>(ra@),
                None => ra@ == empty_args(),
            }),
            fold_fields(fv.take(i as int)) == Ok::<PlanAcc, CompileErrorView>(
                PlanAcc {
                    tag_dyn: (match tag_dyn {
                        Some(t) => Some(t@),
                        None => None,
                    }),
                    node_ref: node_ref,
                    children_slot: children_slot,
                    attrs: attrs.deep_view(),
                    listeners: listeners.deep_view(),
                },
            ),
        decreases record.fields.len() - i,
    {
        let f = &record.fields[i];
        proof {
            assert(fv.take(i + 1).drop_last() =~= fv.take(i as int));
            assert(fv.take(i + 1).last() == fv[i as int]);
            assert(fv[i as int] == f@);
        }
        let fa: ComponentArgs = match &f.args {
            Some(a) => {
                match parse_struct_component_attr(a) {
                    Ok(pa) => pa,
                    Err(e) => {
                        proof {
                            lemma_fold_err_persists(fv, i + 1);
                        }
                        return Err(CompileError::Annotation(e));
                    },
                }
            },
            None => ComponentArgs { tag: None, dynamic_tag: None, no_children: None },
        };
        let is_dyn = match fa.dynamic_tag {
            Some(b) => b,
            None => false,
        };
        if is_dyn {
            tag_dyn = Some(f.name.clone());
        } else if str_eq(f.name.as_str(), "children") {
            children_slot = true;
        } else if str_eq(f.name.as_str(), "attributes") {
        } else if str_eq(f.name.as_str(), "node_ref") {
            node_ref = true;
        } else if has_prefix(f.name.as_str(), "on") {
            proof {
                reveal_strlit("on");
            }
            match &f.ty {
                FieldTy::Path { head, arg } => {
                    let is_required = str_eq(head.as_str(), "Callback");
                    let is_optional = !is_required && str_eq(head.as_str(), "Option") && (
                    match arg {
                        Some(a) => str_eq(a.as_str(), "Callback"),
                        None => false,
                    });
                    if is_required || is_optional {
                        let n = f.name.as_str().unicode_len();
                        let ev = String::from_str(f.name.as_str().substring_char(2, n));
                        listeners.push(EventBinding { event: ev, optional: is_optional });
                        proof {
                            assert(listeners.deep_view() =~= fold_ok_listeners(
                                fv.take(i as int),
                            ).push(EventBindingView { event: ev@, optional: is_optional }));
                        }
                    } else {
                        proof {
                            lemma_fold_err_persists(fv, i + 1);
                        }
                        return Err(CompileError::UnrecognizedCallback(f.name.clone()));
                    }
                },
                FieldTy::NotPath => {
                    proof {
                        lemma_fold_err_persists(fv, i + 1);
                    }
                    return Err(CompileError::ExpectedTypePath(f.name.clone()));
                },
            }
        } else {
            match &f.ty {
                FieldTy::Path { head, arg: _ } => {
                    let key = normalize_key(f.name.as_str());
                    let reactive = str_eq(head.as_str(), "MaybeProp");
                    attrs.push(AttrBinding { key, reactive });
                    proof {
                        assert(attrs.deep_view() =~= fold_ok_attrs(fv.take(i as int)).push(
                            attrs@[attrs@.len() - 1]@,
                        ));
                    }
                },
                FieldTy::NotPath => {
                    proof {
                        lemma_fold_err_persists(fv, i + 1);
                    }
                    return Err(CompileError::ExpectedTypePath(f.name.clone()));
                },
            }
        }
        i += 1;
    }
    proof {
        assert(fv.take(record.fields.len() as int) =~= fv);
    }
    let no_children = match ra.no_children {
        Some(b) => b,
        None => false,
    };
    let tag: TagSource = match tag_dyn {
        Some(n) => TagSource::Dynamic(n),
        None => {
            match ra.tag {
                Some(t) => TagSource::Fixed(t),
                None => {
                    return Err(CompileError::MissingTag(record.ident.clone()));
                },
            }
        },
    };
    Ok(
        RenderPlan {
            tag,
            node_ref,
            attributes: attrs,
            listeners,
            children_slot,
            accepts_children: !no_children,
        },
    )
}

/// The attribute bindings accumulated over a field prefix that folds
/// without error.
pub open spec fn fold_ok_attrs(fs: Seq<FieldSpecView>) -> Seq<AttrBindingView> {
    match fold_fields(fs) {
        Ok(acc) => acc.attrs,
        Err(_) => Seq::empty(),
    }
}

/// The event bindings accumulated over a field prefix that folds without
/// error.
pub open spec fn fold_ok_listeners(fs: Seq<FieldSpecView>) -> Seq<EventBindingView> {
    match fold_fields(fs) {
        Ok(acc) => acc.listeners,
        Err(_) => Seq::empty(),
    }
}

} // verus!
