//! Type-erased element references: reactively readable cells that hold an
//! opaque reference to a rendered target.  The reactive context that owns
//! the cells is passed explicitly; handles are small copyable keys into it.
//! A strongly-typed reference erases into a fresh handle that holds the
//! typed reference's current value; erasing an already-erased handle is the
//! identity.

use vstd::prelude::*;
use crate::TargetRef;

verus! {

/// The reactive context: it owns every reference cell, a log of the cells
/// subscribed to during the current pass, and the supply of fresh target
/// identities handed to newly constructed elements.
pub struct ReactiveCtx {
    pub cells: Vec<Option<TargetRef>>,
    pub subs: Vec<usize>,
    pub next_target: u64,
}

impl ReactiveCtx {
    /// A context with no cells, no subscriptions, and all identities fresh.
    pub fn new() -> (r: ReactiveCtx)
        ensures
            r.cells@.len() == 0,
            r.subs@.len() == 0,
            r.next_target == 0,
    {
        ReactiveCtx { cells: Vec::new(), subs: Vec::new(), next_target: 0 }
    }

    /// Hands out a fresh target identity.
    pub fn fresh_target(&mut self) -> (t: TargetRef)
        requires
            old(self).next_target < u64::MAX,
        ensures
            t.id == old(self).next_target,
            final(self).next_target == old(self).next_target + 1,
            final(self).cells == old(self).cells,
            final(self).subs == old(self).subs,
    {
        let t = TargetRef { id: self.next_target };
        self.next_target = self.next_target + 1;
        t
    }
}

/// A type-erased reference to a rendered target, readable through the
/// reactive context that owns its cell.
#[derive(Clone, Copy, PartialEq, Eq, Structural, Debug)]
pub struct AnyNodeRef {
    pub cell: usize,
}

/// A strongly-typed reference to a rendered target of one concrete kind;
/// it can be erased into an [`AnyNodeRef`].
#[derive(Clone, Copy, PartialEq, Eq, Structural, Debug)]
pub struct GenericNodeRef {
    pub cell: usize,
}

impl AnyNodeRef {
    /// The handle's cell exists in the given context.
    pub open spec fn valid(&self, cx: ReactiveCtx) -> bool {
        self.cell < cx.cells@.len()
    }

    /// What the handle currently holds.
    pub open spec fn read_spec(&self, cx: ReactiveCtx) -> Option<TargetRef> {
        cx.cells@[self.cell as int]
    }

    /// A new handle over a fresh, empty cell.
    pub fn new(cx: &mut ReactiveCtx) -> (r: AnyNodeRef)
        ensures
            r.cell == old(cx).cells@.len(),
            r.valid(*final(cx)),
            r.read_spec(*final(cx)) is None,
            final(cx).cells@ == old(cx).cells@.push(None::<TargetRef>),
            final(cx).subs == old(cx).subs,
            final(cx).next_target == old(cx).next_target,
    {
        let cell = cx.cells.len();
        cx.cells.push(None);
        AnyNodeRef { cell }
    }

    /// The current value, without establishing a change subscription.
    pub fn read_untracked(&self, cx: &ReactiveCtx) -> (r: Option<TargetRef>)
        requires
            self.valid(*cx),
        ensures
            r == self.read_spec(*cx),
    {
        cx.cells[self.cell]
    }

    /// The current value, or nothing when the handle's cell does not exist
    /// in the given context.
    pub fn try_read_untracked(&self, cx: &ReactiveCtx) -> (r: Option<Option<TargetRef>>)
        ensures
            r == if self.valid(*cx) {
                Some(self.read_spec(*cx))
            } else {
                None::<Option<TargetRef>>
            },
    {
        if self.cell < cx.cells.len() {
            Some(cx.cells[self.cell])
        } else {
            None
        }
    }

    /// Establishes a change subscription for the calling reactive pass; the
    /// bookkeeping is the context's.
    pub fn track(&self, cx: &mut ReactiveCtx)
        requires
            self.valid(*old(cx)),
        ensures
            final(cx).cells == old(cx).cells,
            final(cx).subs@ == old(cx).subs@.push(self.cell),
            final(cx).next_target == old(cx).next_target,
    {
        cx.subs.push(self.cell);
    }

    /// A subscribing read: the current value, with a change subscription
    /// recorded for the calling pass.
    pub fn get(&self, cx: &mut ReactiveCtx) -> (r: Option<TargetRef>)
        requires
            self.valid(*old(cx)),
        ensures
            r == self.read_spec(*old(cx)),
            final(cx).cells == old(cx).cells,
            final(cx).subs@ == old(cx).subs@.push(self.cell),
            final(cx).next_target == old(cx).next_target,
    {
        self.track(cx);
        self.read_untracked(cx)
    }

    /// Records the given target as the held value.  Safe to call any number
    /// of times: the last write wins.
    pub fn load(&self, cx: &mut ReactiveCtx, el: TargetRef)
        requires
            self.valid(*old(cx)),
        ensures
            final(cx).cells@ == old(cx).cells@.update(self.cell as int, Some(el)),
            final(cx).subs == old(cx).subs,
            final(cx).next_target == old(cx).next_target,
    {
        let ghost c0 = cx.cells@;
        cx.cells.remove(self.cell);
        cx.cells.insert(self.cell, Some(el));
        proof {
            assert(final(cx).cells@ =~= c0.update(self.cell as int, Some(el)));
        }
    }

    /// Erasing an already-erased handle is the identity.
    pub fn into_any(self) -> (r: AnyNodeRef)
        ensures
            r == self,
    {
        self
    }
}

impl GenericNodeRef {
    /// The handle's cell exists in the given context.
    pub open spec fn valid(&self, cx: ReactiveCtx) -> bool {
        self.cell < cx.cells@.len()
    }

    /// What the typed reference currently holds.
    pub open spec fn read_spec(&self, cx: ReactiveCtx) -> Option<TargetRef> {
        cx.cells@[self.cell as int]
    }

    /// A new typed reference over a fresh, empty cell.
    pub fn new(cx: &mut ReactiveCtx) -> (r: GenericNodeRef)
        ensures
            r.cell == old(cx).cells@.len(),
            r.valid(*final(cx)),
            r.read_spec(*final(cx)) is None,
            final(cx).cells@ == old(cx).cells@.push(None::<TargetRef>),
            final(cx).subs == old(cx).subs,
            final(cx).next_target == old(cx).next_target,
    {
        let cell = cx.cells.len();
        cx.cells.push(None);
        GenericNodeRef { cell }
    }

    /// The current value, without establishing a change subscription.
    pub fn read_untracked(&self, cx: &ReactiveCtx) -> (r: Option<TargetRef>)
        requires
            self.valid(*cx),
        ensures
            r == self.read_spec(*cx),
    {
        cx.cells[self.cell]
    }

    /// Establishes a change subscription for the calling reactive pass.
    pub fn track(&self, cx: &mut ReactiveCtx)
        requires
            self.valid(*old(cx)),
        ensures
            final(cx).cells == old(cx).cells,
            final(cx).subs@ == old(cx).subs@.push(self.cell),
            final(cx).next_target == old(cx).next_target,
    {
        cx.subs.push(self.cell);
    }

    /// A subscribing read.
    pub fn get(&self, cx: &mut ReactiveCtx) -> (r: Option<TargetRef>)
        requires
            self.valid(*old(cx)),
        ensures
            r == self.read_spec(*old(cx)),
            final(cx).cells == old(cx).cells,
            final(cx).subs@ == old(cx).subs@.push(self.cell),
            final(cx).next_target == old(cx).next_target,
    {
        self.track(cx);
        self.read_untracked(cx)
    }

    /// Records the given target as the held value; the last write wins.
    pub fn load(&self, cx: &mut ReactiveCtx, el: TargetRef)
        requires
            self.valid(*old(cx)),
        ensures
            final(cx).cells@ == old(cx).cells@.update(self.cell as int, Some(el)),
            final(cx).subs == old(cx).subs,
            final(cx).next_target == old(cx).next_target,
    {
        let ghost c0 = cx.cells@;
        cx.cells.remove(self.cell);
        cx.cells.insert(self.cell, Some(el));
        proof {
            assert(final(cx).cells@ =~= c0.update(self.cell as int, Some(el)));
        }
    }

    /// Erases the typed reference: the fresh erased handle holds whatever
    /// the typed reference currently holds, so an empty typed reference
    /// gives an empty erased handle.
    pub fn into_any(self, cx: &mut ReactiveCtx) -> (r: AnyNodeRef)
        requires
            self.valid(*old(cx)),
        ensures
            r.cell == old(cx).cells@.len(),
            r.valid(*final(cx)),
            r.read_spec(*final(cx)) == self.read_spec(*old(cx)),
            final(cx).cells@ == old(cx).cells@.push(self.read_spec(*old(cx))),
            final(cx).subs == old(cx).subs,
            final(cx).next_target == old(cx).next_target,
    {
        let current = self.read_untracked(cx);
        let any_ref = AnyNodeRef::new(cx);
        match current {
            Some(el) => {
                any_ref.load(cx, el);
                proof {
                    assert(final(cx).cells@ =~= old(cx).cells@.push(self.read_spec(*old(cx))));
                }
            },
            None => {},
        }
        any_ref
    }
}

/// An attribute value that attaches an erased handle to the element it is
/// built on.  It lets a reference be distributed across conditional or
/// dynamic rendering branches.
#[derive(Clone, Copy, PartialEq, Eq, Structural, Debug)]
pub struct AnyNodeRefAttr {
    pub container: AnyNodeRef,
}

/// Constructs an attribute that attaches `container` to the element it is
/// built on.
pub fn any_node_ref(container: AnyNodeRef) -> (r: AnyNodeRefAttr)
    ensures
        r.container == container,
{
    AnyNodeRefAttr { container }
}

impl AnyNodeRefAttr {
    /// Builds the attribute on an element: records the element in the held
    /// handle.  Building again, on a re-mounted element, overwrites.
    pub fn build(&self, cx: &mut ReactiveCtx, el: TargetRef)
        requires
            self.container.valid(*old(cx)),
        ensures
            final(cx).cells@ == old(cx).cells@.update(self.container.cell as int, Some(el)),
            final(cx).subs == old(cx).subs,
            final(cx).next_target == old(cx).next_target,
    {
        self.container.load(cx, el);
    }
}

/// Value equality of two erased handles: both empty, or both holding the
/// same target.
pub fn value_eq(a: AnyNodeRef, b: AnyNodeRef, cx: &ReactiveCtx) -> (r: bool)
    requires
        a.valid(*cx),
        b.valid(*cx),
    ensures
        r == (a.read_spec(*cx) == b.read_spec(*cx)),
{
    match (a.read_untracked(cx), b.read_untracked(cx)) {
        (Some(x), Some(y)) => x == y,
        (None, None) => true,
        _ => false,
    }
}

/// Two erased handles built one after the other from typed references that
/// held equal values are distinct handles, yet read equal by value in the
/// resulting context.
pub proof fn lemma_erased_handles_value_equal(
    cx0: ReactiveCtx,
    cx1: ReactiveCtx,
    cx2: ReactiveCtx,
    t1: GenericNodeRef,
    t2: GenericNodeRef,
    r1: AnyNodeRef,
    r2: AnyNodeRef,
)
    requires
        t1.valid(cx0),
        t2.valid(cx1),
        r1.cell == cx0.cells@.len(),
        cx1.cells@ == cx0.cells@.push(t1.read_spec(cx0)),
        r2.cell == cx1.cells@.len(),
        cx2.cells@ == cx1.cells@.push(t2.read_spec(cx1)),
        t1.read_spec(cx0) == t2.read_spec(cx1),
    ensures
        r1 != r2,
        r1.valid(cx2),
        r2.valid(cx2),
        r1.read_spec(cx2) == r2.read_spec(cx2),
{
    assert(cx2.cells@[r1.cell as int] == cx1.cells@[r1.cell as int]);
}

} // verus!
