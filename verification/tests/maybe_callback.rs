use std::sync::atomic::{AtomicBool, AtomicI32, Ordering};
use std::sync::Arc;

use struct_component::maybe_callback::{generate_handler, Handler, MaybeCallback};

/// Tests the default value of `MaybeCallback`, expecting it to be empty.
#[test]
fn maybe_callback_test_default() {
    let maybe_callback: MaybeCallback<fn(())> = Default::default();
    assert!(maybe_callback.is_none(), "Expected MaybeCallback to be None by default.");
}

/// Tests creating a `MaybeCallback` from a present handler, expecting it to contain one.
#[test]
fn test_from_some_callback() {
    let was_called = Arc::new(AtomicBool::new(false));
    let was_called_clone = Arc::clone(&was_called);

    let cb = move |_: bool| {
        was_called_clone.store(true, Ordering::SeqCst);
    };

    let maybe = MaybeCallback::make(Some(cb));
    assert!(maybe.is_some(), "Expected MaybeCallback to be Some.");

    // Execute the callback to ensure it works
    maybe.run(true);
    assert!(was_called.load(Ordering::SeqCst), "Callback was not called.");
}

/// Tests creating a `MaybeCallback` from an absent handler, expecting it to be empty.
#[test]
fn test_from_none_callback() {
    let maybe: MaybeCallback<fn(())> = MaybeCallback::make(None);
    assert!(maybe.is_none(), "Expected MaybeCallback to be None when initialized with None.");
}

/// Tests the `run` method when `MaybeCallback` contains a handler.
#[test]
fn test_run_some() {
    let counter = Arc::new(AtomicI32::new(0));
    let counter_clone = Arc::clone(&counter);

    let cb = move |val: i32| {
        counter_clone.fetch_add(val, Ordering::SeqCst);
    };

    let maybe = MaybeCallback::make(Some(cb));
    maybe.run(5);
    assert_eq!(
        counter.load(Ordering::SeqCst),
        5,
        "Counter should have been incremented by 5."
    );
}

/// Tests the `run` method when `MaybeCallback` is empty, ensuring no action is taken.
#[test]
fn test_run_none() {
    let counter = Arc::new(AtomicI32::new(0));
    let maybe: MaybeCallback<fn(i32)> = MaybeCallback::make(None);
    maybe.run(5);
    // Should remain unchanged
    assert_eq!(
        counter.load(Ordering::SeqCst),
        0,
        "Counter should remain unchanged when MaybeCallback is None."
    );
}

/// Tests the `map` method on a `MaybeCallback` containing a handler.
#[test]
fn test_map_some() {
    let was_called = Arc::new(AtomicBool::new(false));
    let was_called_clone = Arc::clone(&was_called);

    let original_cb = move |val: i32| {
        assert_eq!(val, 42, "Callback received incorrect value.");
        was_called_clone.store(true, Ordering::SeqCst);
    };

    let maybe = MaybeCallback::make(Some(original_cb));

    // Map an integer handler to a string handler
    let new_maybe = maybe.map(|cb| {
        move |_: &str| {
            cb(42); // calls original callback
        }
    });

    assert!(new_maybe.is_some(), "Mapped MaybeCallback should be Some.");

    // Execute the mapped callback
    new_maybe.run("Hello");
    assert!(
        was_called.load(Ordering::SeqCst),
        "Mapped callback was not called."
    );
}

/// Tests the `map` method on an empty `MaybeCallback`, ensuring it remains empty.
#[test]
fn test_map_none() {
    let maybe: MaybeCallback<fn(i32)> = MaybeCallback::make(None);
    let new_maybe = maybe.map(|_cb| {
        // This closure should never be called
        |val: &str| println!("val: {}", val)
    });
    assert!(
        new_maybe.is_none(),
        "Mapped MaybeCallback should remain None when original is None."
    );
}

/// Tests the `as_handler` method by generating multiple dispatchers and ensuring they work independently.
#[test]
fn test_as_handler_multiple() {
    let counter1 = Arc::new(AtomicI32::new(0));
    let counter1_clone = Arc::clone(&counter1);

    let counter2 = Arc::new(AtomicI32::new(0));
    let counter2_clone = Arc::clone(&counter2);

    let cb = move |val: i32| {
        counter1_clone.fetch_add(val, Ordering::SeqCst);
    };

    let maybe = MaybeCallback::make(Some(cb));
    let handler1 = maybe.as_handler();

    // Create another dispatcher with a different callback
    let cb2 = move |val: i32| {
        counter2_clone.fetch_add(val, Ordering::SeqCst);
    };
    let maybe2 = MaybeCallback::make(Some(cb2));
    let handler2 = maybe2.as_handler();

    handler1.invoke(10);
    handler2.invoke(20);

    assert_eq!(
        counter1.load(Ordering::SeqCst),
        10,
        "First handler should have incremented counter1 by 10."
    );
    assert_eq!(
        counter2.load(Ordering::SeqCst),
        20,
        "Second handler should have incremented counter2 by 20."
    );
}

/// Tests the `as_callback` method to ensure it returns a dispatcher that conditionally executes.
#[test]
fn test_as_callback_some() {
    let was_called = Arc::new(AtomicBool::new(false));
    let was_called_clone = Arc::clone(&was_called);

    let cb = move |_: ()| {
        was_called_clone.store(true, Ordering::SeqCst);
    };

    let maybe = MaybeCallback::make(Some(cb));
    let callback = maybe.as_callback();
    callback.invoke(());

    assert!(
        was_called.load(Ordering::SeqCst),
        "Callback should have been executed."
    );
}

/// Tests the `as_callback` method when `MaybeCallback` is empty, ensuring it does nothing.
#[test]
fn test_as_callback_none() {
    let maybe: MaybeCallback<fn(())> = MaybeCallback::make(None);
    let callback = maybe.as_callback();
    // Should not panic or do anything
    callback.invoke(());
}

/// Tests the `into_handler` method by consuming the `MaybeCallback`.
#[test]
fn test_into_handler() {
    let counter = Arc::new(AtomicI32::new(0));
    let counter_clone = Arc::clone(&counter);

    let cb = move |val: i32| {
        counter_clone.fetch_add(val, Ordering::SeqCst);
    };

    let maybe = MaybeCallback::make(Some(cb));
    let handler = maybe.into_handler();
    handler.invoke(15);

    assert_eq!(
        counter.load(Ordering::SeqCst),
        15,
        "Counter should have been incremented by 15."
    );
}

/// Tests the `generate_handler` function to ensure it works as expected.
#[test]
fn test_generate_handler() {
    let counter = Arc::new(AtomicI32::new(0));
    let counter_clone = Arc::clone(&counter);

    let cb = move |val: i32| {
        counter_clone.fetch_add(val, Ordering::SeqCst);
    };

    let handler = generate_handler(MaybeCallback::new(cb));
    handler.invoke(10);
    handler.invoke(5);
    assert_eq!(
        counter.load(Ordering::SeqCst),
        15,
        "Counter should have been incremented by 15 using generate_handler."
    );
}

/// Tests the `Handler::from` method to ensure it works as expected.
#[test]
fn test_handler_from() {
    let counter = Arc::new(AtomicI32::new(0));
    let counter_clone = Arc::clone(&counter);

    let cb = move |val: i32| {
        counter_clone.fetch_add(val, Ordering::SeqCst);
    };

    let handler_fn = Handler::from(MaybeCallback::make(Some(cb)));
    handler_fn.invoke(7);
    handler_fn.invoke(3);
    assert_eq!(
        counter.load(Ordering::SeqCst),
        10,
        "Counter should have been incremented by 10 using Handler::from."
    );
}

/// A slot built from a present outer layer around an absent handler equals
/// the slot built from the absent optional directly.
#[test]
fn test_nested_option_flattens() {
    let nested: MaybeCallback<fn(i32)> = MaybeCallback::from_nested(Some(None));
    let direct: MaybeCallback<fn(i32)> = MaybeCallback::make(None);
    assert!(nested.is_none());
    assert!(direct.is_none());

    let present: MaybeCallback<fn(i32)> = MaybeCallback::from_nested(Some(Some(|_: i32| {})));
    assert!(present.is_some());
    let absent: MaybeCallback<fn(i32)> = MaybeCallback::from_nested(None);
    assert!(absent.is_none());
}

/// An empty dispatcher invoked many times changes nothing.
#[test]
fn test_empty_dispatcher_no_op() {
    let counter = Arc::new(AtomicI32::new(0));
    let maybe: MaybeCallback<fn(i32)> = MaybeCallback::make(None);
    let dispatcher = maybe.into_handler();
    dispatcher.invoke(1);
    dispatcher.invoke(2);
    dispatcher.invoke(3);
    assert!(!dispatcher.is_some());
    assert_eq!(counter.load(Ordering::SeqCst), 0);
}
