use std::sync::atomic::{AtomicUsize, Ordering};
use std::sync::Arc;

use hermit_core::session_bus::HermitSessionMessageBus;

#[test]
fn send_reaches_registered_sink_only() {
    let mut bus: HermitSessionMessageBus<Box<dyn Fn(String)>> = HermitSessionMessageBus::new();
    let hits = Arc::new(AtomicUsize::new(0));
    let h = Arc::clone(&hits);
    bus.register(
        "s1".into(),
        Box::new(move |_msg| {
            h.fetch_add(1, Ordering::SeqCst);
        }),
    );

    assert!(bus.is_connected("s1"));
    assert!(bus.send("s1", "hello".into()));
    assert!(!bus.send("s2", "nobody".into()));
    assert_eq!(hits.load(Ordering::SeqCst), 1);

    bus.unregister("s1");
    assert!(!bus.is_connected("s1"));
    assert!(!bus.send("s1", "gone".into()));
    assert_eq!(hits.load(Ordering::SeqCst), 1);
}

#[test]
fn register_replaces_previous_sink() {
    let mut bus: HermitSessionMessageBus<Box<dyn Fn(String)>> = HermitSessionMessageBus::new();
    let first = Arc::new(AtomicUsize::new(0));
    let second = Arc::new(AtomicUsize::new(0));
    let (f, s) = (Arc::clone(&first), Arc::clone(&second));
    bus.register(
        "s".into(),
        Box::new(move |_| {
            f.fetch_add(1, Ordering::SeqCst);
        }),
    );
    bus.register(
        "s".into(),
        Box::new(move |_| {
            s.fetch_add(1, Ordering::SeqCst);
        }),
    );
    bus.send("s", "x".into());
    assert_eq!(first.load(Ordering::SeqCst), 0);
    assert_eq!(second.load(Ordering::SeqCst), 1);
    assert_eq!(bus.connection_count(), 1);
}

#[test]
fn the_message_arrives_as_it_was_sent() {
    let seen = Arc::new(std::sync::Mutex::new(Vec::new()));
    let s = Arc::clone(&seen);
    let mut bus: HermitSessionMessageBus<Box<dyn Fn(String)>> = HermitSessionMessageBus::new();
    bus.register("a".into(), Box::new(move |m| s.lock().unwrap().push(m)));
    assert!(bus.send("a", "one".into()));
    assert!(bus.send("a", "two".into()));
    assert_eq!(*seen.lock().unwrap(), vec!["one".to_owned(), "two".to_owned()]);
}
