use homecore::events::EventBus;

#[test]
fn event_bus_delivers_to_subscribers() {
    let mut bus = EventBus::new();
    let mut first = bus.subscribe("topic");
    let mut second = bus.subscribe("topic");
    let mut other = bus.subscribe("other");
    bus.publish("topic", "hello".to_string());
    assert_eq!(first.try_recv().unwrap(), "hello");
    assert_eq!(second.try_recv().unwrap(), "hello");
    assert!(other.try_recv().is_err());
    drop(second);
    bus.publish("topic", "again".to_string());
    assert_eq!(first.try_recv().unwrap(), "again");
    bus.publish("nobody", "lost".to_string());
}
