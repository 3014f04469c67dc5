use nexora::graphql::{CreateNotificationInput, Event, Mutation, Query};
use nexora::platform::events::{Event as LogEvent, EventPayload};
use nexora::platform::kernel::NexoraCore;

#[test]
fn resolver_health_reports_counts() {
    let core = NexoraCore::new();
    let h = Query.health(&core);
    assert!(h.healthy);
    assert_eq!(h.modules_total, 0);
    assert_eq!(h.events_published, 0);
}

#[test]
fn resolver_events_clamps_range() {
    let mut core = NexoraCore::new();
    assert!(Query.events(&core, 0, 10).is_empty());
    for i in 0..5 {
        core.events.publish("test.event", &format!("p{i}"));
    }
    let all = Query.events(&core, -3, 100);
    assert_eq!(all.len(), 5);
    assert_eq!(all[0].name, "test.event");
    assert_eq!(all[0].payload, "p0");
    let two = Query.events(&core, 3, 2);
    assert_eq!(two.len(), 2);
    assert_eq!(two[0].id, 3);
    let one = Query.events(&core, 1, 0);
    assert_eq!(one.len(), 1);
}

#[test]
fn resolver_create_notification_emits_event() {
    let mut core = NexoraCore::new();
    let n = Mutation.create_notification(
        &mut core,
        CreateNotificationInput { user_id: "u1".into(), title: "Hi".into(), body: "Hello".into(), action_url: None },
    );
    assert_eq!(n.user_id, "u1");
    assert_eq!(n.id.len(), 36);
    assert!(n.read_at.is_none());
    let events = core.events.replay(0);
    assert_eq!(events.len(), 1);
    assert_eq!(events[0].name, "notification.created");
    assert!(Mutation.mark_notification_read("x"));
    assert!(Query.me().is_none());
}

#[test]
fn event_object_shows_payloads() {
    let e = LogEvent { id: 7, name: "x".into(), payload: EventPayload::Bytes(vec![1, 2, 3]), timestamp: 5 };
    let g = Event::from_event(&e);
    assert_eq!(g.payload, "<3 bytes>");
    let e = LogEvent { id: 8, name: "y".into(), payload: EventPayload::Empty, timestamp: 6 };
    assert_eq!(Event::from_event(&e).payload, "");
}
