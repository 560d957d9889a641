//! The run-time half of the property compiler: executing a render plan
//! over the record's run-time values produces one view node, in the fixed
//! order the plan prescribes — base-tag construction, reference
//! attachment, attribute bindings, event bindings, children.  Every
//! absence degrades to a no-op or an empty value: an absent attribute is
//! omitted, an empty optional callback binds nothing, absent children
//! render as an empty child list.

use vstd::prelude::*;
use vstd::string::StringExecFns;
use crate::TargetRef;
use crate::compile::AttrBindingView;
use crate::compile::CompileError;
use crate::compile::CompileErrorView;
use crate::compile::EventBindingView;
use crate::compile::PlanView;
use crate::compile::RenderPlan;
use crate::compile::TagSource;
use crate::compile::TagSourceView;
use crate::compile::compile;
use crate::compile::spec_compile;
use crate::node_ref::AnyNodeRef;
use crate::node_ref::ReactiveCtx;
use crate::record::RecordSpec;

verus! {

/// One rendered view node: its tag, the attributes applied in order, the
/// events bound in order, the fresh target identity it was constructed
/// with, and its children.
pub struct ViewNode {
    pub tag: String,
    pub attrs: Vec<(String, String)>,
    pub listeners: Vec<String>,
    pub target: TargetRef,
    pub children: Vec<ViewNode>,
}

/// The run-time values a render plan consumes: the dynamic tag value when
/// the plan defers tag selection, the reference handle when the plan
/// attaches one, one optional value per attribute binding, one presence
/// flag per event binding, and the optional children source.
pub struct RenderValues {
    pub tag_value: Option<String>,
    pub node_ref: Option<AnyNodeRef>,
    pub attr_values: Vec<Option<String>>,
    pub listener_present: Vec<bool>,
    pub children: Option<Vec<ViewNode>>,
}

/// The values fit the plan: a dynamic tag has its value, a declared
/// reference has a handle that lives in the context, the value and flag
/// lists line up with the plan's bindings, a required callback is present,
/// and a plan that accepts no children is handed none.
pub open spec fn inputs_match_plan(plan: PlanView, v: RenderValues, cx: ReactiveCtx) -> bool {
    &&& (plan.tag is Dynamic ==> v.tag_value is Some)
    &&& (plan.node_ref ==> (v.node_ref matches Some(h) && h.valid(cx)))
    &&& v.attr_values@.len() == plan.attributes.len()
    &&& v.listener_present@.len() == plan.listeners.len()
    &&& (forall|i: int|
        0 <= i < plan.listeners.len() && !(#[trigger] plan.listeners[i]).optional
            ==> v.listener_present@[i])
    &&& (!plan.accepts_children ==> v.children is None)
}

/// The tag the rendered element carries: the fixed tag, or the dynamic
/// tag value.
pub open spec fn resolved_tag(plan: PlanView, v: RenderValues) -> Seq<char> {
    match plan.tag {
        TagSourceView::Fixed(t) => t,
        TagSourceView::Dynamic(_) => v.tag_value->0@,
    }
}

/// The attributes the rendered element carries: each binding whose value
/// is present, in binding order, under the binding's key; an absent value
/// is omitted entirely.
pub open spec fn bound_attrs(bs: Seq<AttrBindingView>, vs: Seq<Option<Seq<char>>>) -> Seq<
    (Seq<char>, Seq<char>),
>
    decreases bs.len(),
{
    if bs.len() == 0 {
        Seq::empty()
    } else {
        let front = bound_attrs(bs.drop_last(), vs.drop_last());
        match vs.last() {
            Some(val) => front.push((bs.last().key, val)),
            None => front,
        }
    }
}

/// The events the rendered element binds: every required binding, and
/// every optional binding whose handler is present, in binding order; an
/// empty optional callback binds nothing.
pub open spec fn bound_events(ls: Seq<EventBindingView>, present: Seq<bool>) -> Seq<Seq<char>>
    decreases ls.len(),
{
    if ls.len() == 0 {
        Seq::empty()
    } else {
        let front = bound_events(ls.drop_last(), present.drop_last());
        if !ls.last().optional || present.last() {
            front.push(ls.last().event)
        } else {
            front
        }
    }
}

/// The events every rendering of the plan binds whatever optional
/// handlers are absent: the required bindings' events, in binding order.
pub open spec fn required_events(ls: Seq<EventBindingView>) -> Seq<Seq<char>>
    decreases ls.len(),
{
    if ls.len() == 0 {
        Seq::empty()
    } else {
        let front = required_events(ls.drop_last());
        if !ls.last().optional {
            front.push(ls.last().event)
        } else {
            front
        }
    }
}

/// With every attribute value absent, nothing is bound.
proof fn lemma_bound_attrs_all_absent(bs: Seq<AttrBindingView>, vs: Seq<Option<Seq<char>>>)
    requires
        vs.len() == bs.len(),
        forall|i: int| 0 <= i < vs.len() ==> (#[trigger] vs[i]) is None,
    ensures
        bound_attrs(bs, vs) == Seq::<(Seq<char>, Seq<char>)>::empty(),
    decreases bs.len(),
{
    if bs.len() == 0 {
    } else {
        assert(vs.last() is None);
        let b2 = bs.drop_last();
        let v2 = vs.drop_last();
        assert(forall|i: int| 0 <= i < v2.len() ==> (#[trigger] v2[i]) is None) by {
            assert(forall|i: int| 0 <= i < v2.len() ==> #[trigger] v2[i] == vs[i]);
        }
        lemma_bound_attrs_all_absent(b2, v2);
    }
}

/// With exactly the required handlers present, exactly the required
/// events are bound.
proof fn lemma_bound_events_required_only(ls: Seq<EventBindingView>, pf: Seq<bool>)
    requires
        pf.len() == ls.len(),
        forall|i: int| 0 <= i < ls.len() ==> ((#[trigger] pf[i]) == !ls[i].optional),
    ensures
        bound_events(ls, pf) == required_events(ls),
    decreases ls.len(),
{
    if ls.len() == 0 {
    } else {
        assert(pf.last() == !ls.last().optional);
        let l2 = ls.drop_last();
        let p2 = pf.drop_last();
        assert(forall|i: int| 0 <= i < l2.len() ==> ((#[trigger] p2[i]) == !l2[i].optional)) by {
            assert(forall|i: int|
                0 <= i < l2.len() ==> #[trigger] p2[i] == pf[i] && #[trigger] l2[i] == ls[i]);
        }
        lemma_bound_events_required_only(l2, p2);
    }
}

/// Executes a render plan over the given values: constructs the base
/// element with a fresh target identity, attaches the reference handle if
/// the plan declares one, applies the present attribute values in order,
/// binds the present events in order, and inserts the children, absent
/// children rendering as an empty list.
pub fn render(plan: &RenderPlan, values: RenderValues, cx: &mut ReactiveCtx) -> (node: ViewNode)
    requires
        inputs_match_plan(plan@, values, *old(cx)),
        old(cx).next_target < u64::MAX,
    ensures
        node.tag@ == resolved_tag(plan@, values),
        node.attrs.deep_view() == bound_attrs(plan@.attributes, values.attr_values.deep_view()),
        node.listeners.deep_view() == bound_events(plan@.listeners, values.listener_present@),
        node.children@ == (match values.children {
            Some(c) => c@,
            None => Seq::<ViewNode>::empty(),
        }),
        node.target.id == old(cx).next_target,
        final(cx).next_target == old(cx).next_target + 1,
        final(cx).subs == old(cx).subs,
        (if plan@.node_ref {
            final(cx).cells@ == old(cx).cells@.update(
                values.node_ref->0.cell as int,
                Some(node.target),
            )
        } else {
            final(cx).cells == old(cx).cells
        }),
{
    let RenderValues { tag_value, node_ref, attr_values, listener_present, children } = values;
    let target = cx.fresh_target();
    let tag: String = match &plan.tag {
        TagSource::Fixed(t) => t.clone(),
        TagSource::Dynamic(_) => {
            match tag_value {
                Some(t) => t,
                None => {
                    proof {
                        assert(false);
                    }
                    String::new()
                },
            }
        },
    };
    if plan.node_ref {
        match &node_ref {
            Some(handle) => {
                handle.load(cx, target);
            },
            None => {
                proof {
                    assert(false);
                }
            },
        }
    }
    let ghost bs = plan@.attributes;
    let ghost vs = attr_values.deep_view();
    let mut out_attrs: Vec<(String, String)> = Vec::new();
    let mut i: usize = 0;
    proof {
        assert(bs.take(0) =~= Seq::<AttrBindingView>::empty());
        assert(vs.take(0) =~= Seq::<Option<Seq<char>>>::empty());
        assert(out_attrs.deep_view() =~= Seq::<(Seq<char>, Seq<char>)>::empty());
    }
    while i < attr_values.len()
        invariant
            i <= attr_values.len(),
            bs == plan@.attributes,
            vs == attr_values.deep_view(),
            bs.len() == attr_values.len(),
            vs.len() == attr_values.len(),
            plan.attributes@.len() == attr_values.len(),
            out_attrs.deep_view() == bound_attrs(bs.take(i as int), vs.take(i as int)),
        decreases attr_values.len() - i,
    {
        proof {
            assert(bs.take(i + 1).drop_last() =~= bs.take(i as int));
            assert(vs.take(i + 1).drop_last() =~= vs.take(i as int));
            assert(bs.take(i + 1).last() == bs[i as int]);
            assert(vs.take(i + 1).last() == vs[i as int]);
        }
        match &attr_values[i] {
            Some(val) => {
                let key = plan.attributes[i].key.clone();
                out_attrs.push((key, val.clone()));
                proof {
                    assert(out_attrs.deep_view() =~= bound_attrs(
                        bs.take(i as int),
                        vs.take(i as int),
                    ).push((bs[i as int].key, vs[i as int]->0)));
                }
            },
            None => {},
        }
        i += 1;
    }
    proof {
        assert(bs.take(attr_values.len() as int) =~= bs);
        assert(vs.take(attr_values.len() as int) =~= vs);
    }
    let ghost ls = plan@.listeners;
    let ghost pf = listener_present@;
    let mut out_events: Vec<String> = Vec::new();
    let mut j: usize = 0;
    proof {
        assert(ls.take(0) =~= Seq::<EventBindingView>::empty());
        assert(pf.take(0) =~= Seq::<bool>::empty());
        assert(out_events.deep_view() =~= Seq::<Seq<char>>::empty());
    }
    while j < listener_present.len()
        invariant
            j <= listener_present.len(),
            ls == plan@.listeners,
            pf == listener_present@,
            ls.len() == listener_present.len(),
            pf.len() == listener_present.len(),
            plan.listeners@.len() == listener_present.len(),
            out_events.deep_view() == bound_events(ls.take(j as int), pf.take(j as int)),
        decreases listener_present.len() - j,
    {
        proof {
            assert(ls.take(j + 1).drop_last() =~= ls.take(j as int));
            assert(pf.take(j + 1).drop_last() =~= pf.take(j as int));
            assert(ls.take(j + 1).last() == ls[j as int]);
            assert(pf.take(j + 1).last() == pf[j as int]);
        }
        let bind = !plan.listeners[j].optional || listener_present[j];
        if bind {
            out_events.push(plan.listeners[j].event.clone());
            proof {
                assert(out_events.deep_view() =~= bound_events(
                    ls.take(j as int),
                    pf.take(j as int),
                ).push(ls[j as int].event));
            }
        }
        j += 1;
    }
    proof {
        assert(ls.take(listener_present.len() as int) =~= ls);
        assert(pf.take(listener_present.len() as int) =~= pf);
    }
    let kids: Vec<ViewNode> = match children {
        Some(c) => c,
        None => Vec::new(),
    };
    ViewNode { tag, attrs: out_attrs, listeners: out_events, target, children: kids }
}

/// Values with every optional input absent: no attribute values, no
/// optional handlers, no children; a dynamic tag falls back to `div`, and
/// a declared reference gets a fresh empty handle.
pub fn absent_values(plan: &RenderPlan, cx: &mut ReactiveCtx) -> (v: RenderValues)
    ensures
        inputs_match_plan(plan@, v, *final(cx)),
        v.attr_values@.len() == plan@.attributes.len(),
        (forall|i: int| 0 <= i < v.attr_values@.len() ==> (#[trigger] v.attr_values@[i]) is None),
        (forall|i: int|
            0 <= i < v.listener_present@.len() ==> ((#[trigger] v.listener_present@[i]) == !plan@.listeners[i].optional)),
        v.children is None,
        (match plan@.tag {
            TagSourceView::Fixed(_) => v.tag_value is None,
            TagSourceView::Dynamic(_) => (v.tag_value matches Some(t) && t@ == "div"@),
        }),
        final(cx).subs == old(cx).subs,
        final(cx).next_target == old(cx).next_target,
        (if plan@.node_ref {
            final(cx).cells@ == old(cx).cells@.push(None::<TargetRef>)
        } else {
            final(cx).cells == old(cx).cells
        }),
{
    let tag_value: Option<String> = match &plan.tag {
        TagSource::Dynamic(_) => Some(String::from_str("div")),
        TagSource::Fixed(_) => None,
    };
    let node_ref: Option<AnyNodeRef> = if plan.node_ref {
        Some(AnyNodeRef::new(cx))
    } else {
        None
    };
    let mut attr_values: Vec<Option<String>> = Vec::new();
    let mut i: usize = 0;
    while i < plan.attributes.len()
        invariant
            i <= plan.attributes.len(),
            attr_values@.len() == i,
            forall|t: int| 0 <= t < i ==> (#[trigger] attr_values@[t]) is None,
        decreases plan.attributes.len() - i,
    {
        attr_values.push(None);
        i += 1;
    }
    let mut listener_present: Vec<bool> = Vec::new();
    let mut j: usize = 0;
    while j < plan.listeners.len()
        invariant
            j <= plan.listeners.len(),
            listener_present@.len() == j,
            plan.listeners@.len() == plan@.listeners.len(),
            forall|t: int|
                0 <= t < j ==> ((#[trigger] listener_present@[t]) == !plan@.listeners[t].optional),
        decreases plan.listeners.len() - j,
    {
        listener_present.push(!plan.listeners[j].optional);
        j += 1;
    }
    RenderValues { tag_value, node_ref, attr_values, listener_present, children: None }
}

/// A typed conditional view: shows what `children` produces while the
/// condition holds and what `fallback` produces otherwise, evaluating
/// only the side that is shown.
pub fn typed_fallback_show<V, C, F>(condition: bool, children: C, fallback: F) -> (r: V) where
    C: FnOnce() -> V,
    F: FnOnce() -> V,

    requires
        condition ==> children.requires(()),
        !condition ==> fallback.requires(()),
    ensures
        condition ==> children.ensures((), r),
        !condition ==> fallback.ensures((), r),
{
    if condition {
        children()
    } else {
        fallback()
    }
}

/// Compiling a well-formed record and rendering it with every optional
/// input absent always yields a view node: the only failures are the
/// compiler's configuration errors, and a record that compiles renders
/// without run-time failure however many optional inputs are absent.
pub fn compile_and_render_empty(record: &RecordSpec, cx: &mut ReactiveCtx) -> (r: Result<
    ViewNode,
    CompileError,
>)
    requires
        old(cx).next_target < u64::MAX,
    ensures
        r is Ok <==> spec_compile(record@) is Ok,
        (match r {
            Ok(node) => (spec_compile(record@) matches Ok(plan) && node.tag@ == (match plan.tag {
                TagSourceView::Fixed(t) => t,
                TagSourceView::Dynamic(_) => "div"@,
            }) && node.attrs@.len() == 0 && node.listeners.deep_view() == required_events(
                plan.listeners,
            ) && node.children@.len() == 0),
            Err(e) => spec_compile(record@) == Err::<PlanView, CompileErrorView>(e@),
        }),
{
    match compile(record) {
        Ok(plan) => {
            let values = absent_values(&plan, cx);
            proof {
                let av = values.attr_values.deep_view();
                assert(forall|i: int| 0 <= i < av.len() ==> (#[trigger] av[i]) is None) by {
                    assert(forall|i: int|
                        0 <= i < av.len() ==> #[trigger] av[i]
                            == values.attr_values@[i].deep_view());
                }
                lemma_bound_attrs_all_absent(plan@.attributes, av);
                lemma_bound_events_required_only(plan@.listeners, values.listener_present@);
            }
            let node = render(&plan, values, cx);
            proof {
                assert(node.attrs.deep_view().len() == node.attrs@.len());
            }
            Ok(node)
        },
        Err(e) => Err(e),
    }
}

} // verus!
