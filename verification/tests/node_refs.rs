use struct_component::node_ref::{any_node_ref, value_eq, AnyNodeRef, GenericNodeRef, ReactiveCtx};
use struct_component::TargetRef;

#[test]
fn any_node_ref_test_any_node_ref_creation() {
    let mut cx = ReactiveCtx::new();
    let node_ref = AnyNodeRef::new(&mut cx);
    assert!(node_ref.get(&mut cx).is_none(), "New AnyNodeRef should be empty");
}

#[test]
fn any_node_ref_test_to_any_node_ref() {
    let mut cx = ReactiveCtx::new();
    let div_ref: GenericNodeRef = GenericNodeRef::new(&mut cx);
    let any_ref = div_ref.into_any(&mut cx);
    assert!(any_ref.get(&mut cx).is_none(), "Converted AnyNodeRef should be initially empty");
}

#[test]
fn any_node_ref_test_clone_and_copy() {
    let mut cx = ReactiveCtx::new();
    let node_ref = AnyNodeRef::new(&mut cx);
    let cloned_ref = node_ref;
    let _copied_ref = cloned_ref; // Should be copyable
    assert!(cloned_ref.get(&mut cx).is_none(), "Cloned AnyNodeRef should be empty");
}

#[test]
fn any_node_ref_test_default() {
    let mut cx = ReactiveCtx::new();
    let node_ref = AnyNodeRef::new(&mut cx);
    assert!(node_ref.get(&mut cx).is_none(), "Default AnyNodeRef should be empty");
}

#[test]
fn test_into_any_node_ref_trait() {
    let mut cx = ReactiveCtx::new();
    let div_ref: GenericNodeRef = GenericNodeRef::new(&mut cx);
    let _any_ref: AnyNodeRef = div_ref.into_any(&mut cx);

    let input_ref: GenericNodeRef = GenericNodeRef::new(&mut cx);
    let _any_input_ref: AnyNodeRef = input_ref.into_any(&mut cx);
}

#[test]
fn test_from_node_ref() {
    let mut cx = ReactiveCtx::new();
    let div_ref: GenericNodeRef = GenericNodeRef::new(&mut cx);
    let _any_ref: AnyNodeRef = div_ref.into_any(&mut cx);
}

#[test]
fn test_any_node_ref_attr() {
    let mut cx = ReactiveCtx::new();
    let node_ref = AnyNodeRef::new(&mut cx);
    let attr = any_node_ref(node_ref);
    assert!(node_ref.read_untracked(&cx).is_none());
    attr.build(&mut cx, TargetRef { id: 3 });
    assert_eq!(node_ref.read_untracked(&cx), Some(TargetRef { id: 3 }));
}

#[test]
fn test_track_and_untracked() {
    let mut cx = ReactiveCtx::new();
    let node_ref = AnyNodeRef::new(&mut cx);
    // Just testing that these don't panic
    node_ref.track(&mut cx);
    let _untracked = node_ref.try_read_untracked(&cx);
}

#[test]
fn test_into_any_identity() {
    let mut cx = ReactiveCtx::new();
    let node_ref = AnyNodeRef::new(&mut cx);
    let same_ref = node_ref.into_any();

    // Both refs are initially empty
    assert!(node_ref.get(&mut cx).is_none());
    assert!(same_ref.get(&mut cx).is_none());

    // Erasing an erased handle is the identity, so both name the same cell
    assert_eq!(node_ref, same_ref);
}

#[test]
fn node_ref_test_any_node_ref_creation() {
    let mut cx = ReactiveCtx::new();
    let node_ref = AnyNodeRef::new(&mut cx);
    assert!(node_ref.get(&mut cx).is_none(), "New AnyNodeRef should be empty");
}

#[test]
fn node_ref_test_to_any_node_ref() {
    let mut cx = ReactiveCtx::new();
    let div_ref: GenericNodeRef = GenericNodeRef::new(&mut cx);
    let any_ref = div_ref.into_any(&mut cx);
    assert!(any_ref.get(&mut cx).is_none(), "Converted AnyNodeRef should be initially empty");
}

#[test]
fn node_ref_test_clone_and_copy() {
    let mut cx = ReactiveCtx::new();
    let node_ref = AnyNodeRef::new(&mut cx);
    let cloned_ref = node_ref;
    let _copied_ref = cloned_ref; // Should be copyable
    assert!(cloned_ref.get(&mut cx).is_none(), "Cloned AnyNodeRef should be empty");
}

#[test]
fn node_ref_test_default() {
    let mut cx = ReactiveCtx::new();
    let node_ref = AnyNodeRef::new(&mut cx);
    assert!(node_ref.get(&mut cx).is_none(), "Default AnyNodeRef should be empty");
}

/// Two handles erased from equally-valued typed references are distinct
/// objects but compare equal by value; a loaded handle differs from an
/// empty one.
#[test]
fn test_value_equality_of_erased_handles() {
    let mut cx = ReactiveCtx::new();
    let t1 = GenericNodeRef::new(&mut cx);
    let t2 = GenericNodeRef::new(&mut cx);
    let r1 = t1.into_any(&mut cx);
    let r2 = t2.into_any(&mut cx);
    assert_ne!(r1, r2, "Handles are distinct objects");
    assert!(value_eq(r1, r2, &cx), "Both empty: equal by value");

    r1.load(&mut cx, TargetRef { id: 7 });
    assert!(!value_eq(r1, r2, &cx), "One loaded, one empty: not equal by value");
    r2.load(&mut cx, TargetRef { id: 7 });
    assert!(value_eq(r1, r2, &cx), "Same target: equal by value");
}

/// The last write wins when a handle is loaded repeatedly.
#[test]
fn test_load_last_write_wins() {
    let mut cx = ReactiveCtx::new();
    let node_ref = AnyNodeRef::new(&mut cx);
    node_ref.load(&mut cx, TargetRef { id: 1 });
    node_ref.load(&mut cx, TargetRef { id: 2 });
    assert_eq!(node_ref.read_untracked(&cx), Some(TargetRef { id: 2 }));
}

/// Erasing a loaded typed reference carries its value into the erased
/// handle.
#[test]
fn test_into_any_carries_value() {
    let mut cx = ReactiveCtx::new();
    let typed = GenericNodeRef::new(&mut cx);
    typed.load(&mut cx, TargetRef { id: 11 });
    let erased = typed.into_any(&mut cx);
    assert_eq!(erased.read_untracked(&cx), Some(TargetRef { id: 11 }));
}
