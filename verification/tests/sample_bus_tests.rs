use message_bus::sample_bus::{publish, Bar, Bus, Foo, SomeData, SubTopic, SystemHealth};

#[test]
fn foo_publish_fans_out_to_ancestor_channel() {
    let mut bus = Bus::new();
    let mut foo_sub = Foo::subscribe(&bus);
    let mut union_sub = SubTopic::subscribe(&bus);
    Foo::publish(&mut bus, 42);
    assert_eq!(foo_sub.try_recv(&bus.foo), Some(&42));
    assert_eq!(union_sub.try_recv(&bus.sub_topic), Some(&SubTopic::Foo(42)));
    assert_eq!(union_sub.try_recv(&bus.sub_topic), None);
}

#[test]
fn bar_publish_fans_out_to_ancestor_channel() {
    let mut bus = Bus::new();
    let mut union_sub = SubTopic::subscribe(&bus);
    Bar::publish(&mut bus, 9);
    assert_eq!(union_sub.try_recv(&bus.sub_topic), Some(&SubTopic::Bar(9)));
}

#[test]
fn union_subscriber_sees_siblings_in_publish_order() {
    let mut bus = Bus::new();
    let mut union_sub = SubTopic::subscribe(&bus);
    Foo::publish(&mut bus, 1);
    Bar::publish(&mut bus, 2);
    assert_eq!(union_sub.try_recv(&bus.sub_topic), Some(&SubTopic::Foo(1)));
    assert_eq!(union_sub.try_recv(&bus.sub_topic), Some(&SubTopic::Bar(2)));
}

#[test]
fn publishing_on_the_union_channel_directly() {
    let mut bus = Bus::new();
    let mut union_sub = SubTopic::subscribe(&bus);
    publish(&mut bus, SubTopic::Foo(5));
    assert_eq!(union_sub.try_recv(&bus.sub_topic), Some(&SubTopic::Foo(5)));
}

#[test]
fn top_level_topics_do_not_fan_out() {
    let mut bus = Bus::new();
    let mut union_sub = SubTopic::subscribe(&bus);
    let mut data_sub = SomeData::subscribe(&bus);
    SomeData::publish(&mut bus, 11);
    assert_eq!(data_sub.try_recv(&bus.some_data), Some(&11));
    assert_eq!(union_sub.try_recv(&bus.sub_topic), None);
}

#[test]
fn system_health_carries_string_payloads() {
    let mut bus = Bus::new();
    let mut health_sub = SystemHealth::subscribe(&bus);
    SystemHealth::publish(&mut bus, "all good".to_string());
    assert_eq!(
        health_sub.try_recv(&bus.system_health),
        Some(&"all good".to_string())
    );
}

#[test]
fn subscriber_created_after_publish_misses_it() {
    let mut bus = Bus::new();
    Foo::publish(&mut bus, 1);
    let mut late = Foo::subscribe(&bus);
    assert_eq!(late.try_recv(&bus.foo), None);
}

#[test]
fn aggregate_capacity_buffers_both_children() {
    let mut bus = Bus::new();
    let mut union_sub = SubTopic::subscribe(&bus);
    Foo::publish(&mut bus, 1);
    Bar::publish(&mut bus, 2);
    assert_eq!(union_sub.try_recv(&bus.sub_topic), Some(&SubTopic::Foo(1)));
    assert_eq!(union_sub.try_recv(&bus.sub_topic), Some(&SubTopic::Bar(2)));
    assert_eq!(union_sub.messages_lost(), 0);
}
