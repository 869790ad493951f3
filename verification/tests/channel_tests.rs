use message_bus::channel::Topic;

#[test]
fn round_trip_subscriber_before_publish_sees_value() {
    let mut chan: Topic<u32> = Topic::new(4);
    let mut sub = chan.subscribe();
    chan.publish(7);
    assert_eq!(sub.try_recv(&chan), Some(&7));
    assert_eq!(sub.try_recv(&chan), None);
}

#[test]
fn subscriber_created_after_publish_sees_nothing() {
    let mut chan: Topic<u32> = Topic::new(4);
    chan.publish(7);
    let mut late = chan.subscribe();
    assert!(late.is_empty(&chan));
    assert_eq!(late.try_recv(&chan), None);
}

#[test]
fn messages_arrive_in_publish_order() {
    let mut chan: Topic<u32> = Topic::new(8);
    let mut sub = chan.subscribe();
    chan.publish(1);
    chan.publish(2);
    chan.publish(3);
    assert_eq!(sub.try_recv(&chan), Some(&1));
    assert_eq!(sub.try_recv(&chan), Some(&2));
    assert_eq!(sub.try_recv(&chan), Some(&3));
    assert_eq!(sub.try_recv(&chan), None);
}

#[test]
fn lag_skips_to_latest_and_counts_drops() {
    let mut chan: Topic<u32> = Topic::new(1);
    let mut sub = chan.subscribe();
    chan.publish(10);
    chan.publish(20);
    chan.publish(30);
    assert_eq!(sub.try_recv(&chan), Some(&30));
    assert_eq!(sub.messages_lost(), 2);
}

#[test]
fn messages_lost_is_zero_when_nothing_was_dropped() {
    let mut chan: Topic<u32> = Topic::new(2);
    let mut sub = chan.subscribe();
    chan.publish(1);
    chan.publish(2);
    assert_eq!(sub.try_recv(&chan), Some(&1));
    assert_eq!(sub.try_recv(&chan), Some(&2));
    assert_eq!(sub.messages_lost(), 0);
}

#[test]
fn messages_lost_resets_after_reading() {
    let mut chan: Topic<u32> = Topic::new(1);
    let mut sub = chan.subscribe();
    chan.publish(1);
    chan.publish(2);
    assert_eq!(sub.try_recv(&chan), Some(&2));
    assert_eq!(sub.messages_lost(), 1);
    assert_eq!(sub.messages_lost(), 0);
}

#[test]
fn publish_without_subscribers_never_fails() {
    let mut chan: Topic<u32> = Topic::new(1);
    chan.publish(1);
    chan.publish(2);
    let mut late = chan.subscribe();
    assert_eq!(late.try_recv(&chan), None);
}

#[test]
fn subscribers_have_independent_cursors_and_lag() {
    let mut chan: Topic<u32> = Topic::new(2);
    let mut fast = chan.subscribe();
    let mut slow = chan.subscribe();
    chan.publish(1);
    assert_eq!(fast.try_recv(&chan), Some(&1));
    chan.publish(2);
    chan.publish(3);
    assert_eq!(fast.try_recv(&chan), Some(&2));
    assert_eq!(fast.try_recv(&chan), Some(&3));
    assert_eq!(fast.messages_lost(), 0);
    assert_eq!(slow.try_recv(&chan), Some(&2));
    assert_eq!(slow.try_recv(&chan), Some(&3));
    assert_eq!(slow.messages_lost(), 1);
}

#[test]
fn is_empty_reflects_unread_backlog() {
    let mut chan: Topic<u32> = Topic::new(2);
    let mut sub = chan.subscribe();
    assert!(sub.is_empty(&chan));
    chan.publish(5);
    assert!(!sub.is_empty(&chan));
    assert_eq!(sub.try_recv(&chan), Some(&5));
    assert!(sub.is_empty(&chan));
}

#[test]
fn capacity_bounds_each_subscribers_backlog() {
    let mut chan: Topic<u32> = Topic::new(3);
    let mut sub = chan.subscribe();
    for v in 0..10u32 {
        chan.publish(v);
    }
    assert_eq!(sub.try_recv(&chan), Some(&7));
    assert_eq!(sub.try_recv(&chan), Some(&8));
    assert_eq!(sub.try_recv(&chan), Some(&9));
    assert_eq!(sub.try_recv(&chan), None);
    assert_eq!(sub.messages_lost(), 7);
}

#[test]
fn string_payloads_round_trip() {
    let mut chan: Topic<String> = Topic::new(2);
    let mut sub = chan.subscribe();
    chan.publish("hello".to_string());
    assert_eq!(sub.try_recv(&chan), Some(&"hello".to_string()));
}
