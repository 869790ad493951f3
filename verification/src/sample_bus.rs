//! A hand-written instance of the generated bus surface.
//!
//! This module spells out what the generator emits for each kind of
//! declaration: per topic a handle type whose `publish` also fans the
//! value out to every ancestor channel wrapped in the ancestor's
//! tagged union, and per sub-topic a tagged-union type with a channel
//! of its own.  The handles follow the declarations
//!
//! ```text
//! sub_topic::SubTopic => {
//!     Foo => u32,
//!     Bar => u8,
//! },
//! SystemHealth => String,
//! SomeData => u32,
//! ```
//!
//! a deliberately permissive demo surface: `SystemHealth` and
//! `SomeData` stand beside the root to show the no-ancestor case,
//! which the analyzer's single-root rule would not admit as one tree.
//!
//! The process-wide lazily-initialized channels of a generated bus
//! appear here as an explicit registry: the [`Bus`] value owns every
//! channel, is created once at startup, and is passed by reference
//! into the handles' operations.

use vstd::prelude::*;
use crate::channel::{Subscriber, Topic};

verus! {

/// The tagged union of everything observable under the `SubTopic`
/// sub-topic: one variant per child topic.
#[derive(Clone, Copy, PartialEq, Eq, Structural, Debug)]
pub enum SubTopic {
    /// A message published on `Foo`.
    Foo(u32),
    /// A message published on `Bar`.
    Bar(u8),
}

/// The channel registry of the bus: one channel per topic and per
/// sub-topic, created once and passed by reference everywhere.
pub struct Bus {
    /// The `SubTopic` fan-out channel, sized to the subtree's
    /// aggregate capacity.
    pub sub_topic: Topic<SubTopic>,
    /// The `Foo` topic channel.
    pub foo: Topic<u32>,
    /// The `Bar` topic channel.
    pub bar: Topic<u8>,
    /// The `SystemHealth` topic channel.
    pub system_health: Topic<String>,
    /// The `SomeData` topic channel.
    pub some_data: Topic<u32>,
}

impl Bus {
    /// All channels are well-formed and sized as generated: each topic
    /// to its declared capacity (1), the sub-topic to its subtree's
    /// aggregate capacity (1 + 1).
    pub open spec fn wf(&self) -> bool {
        &&& self.sub_topic.wf() && self.sub_topic.capacity_spec() == 2
        &&& self.foo.wf() && self.foo.capacity_spec() == 1
        &&& self.bar.wf() && self.bar.capacity_spec() == 1
        &&& self.system_health.wf() && self.system_health.capacity_spec() == 1
        &&& self.some_data.wf() && self.some_data.capacity_spec() == 1
    }

    /// Create the registry with every channel empty.
    pub fn new() -> (r: Bus)
        ensures
            r.wf(),
            r.sub_topic.messages() == Seq::<SubTopic>::empty(),
            r.foo.messages() == Seq::<u32>::empty(),
            r.bar.messages() == Seq::<u8>::empty(),
            r.system_health.messages() == Seq::<String>::empty(),
            r.some_data.messages() == Seq::<u32>::empty(),
    {
        Bus {
            sub_topic: Topic::new(2),
            foo: Topic::new(1),
            bar: Topic::new(1),
            system_health: Topic::new(1),
            some_data: Topic::new(1),
        }
    }
}

impl SubTopic {
    /// Subscribe to all topics under `SubTopic`.
    pub fn subscribe(bus: &Bus) -> (r: Subscriber)
        requires
            bus.wf(),
        ensures
            r.wf(&bus.sub_topic),
            r.index() == bus.sub_topic.messages().len(),
            r.lost() == 0,
    {
        bus.sub_topic.subscribe()
    }
}

/// Publish on the `SubTopic` fan-out channel itself.
pub fn publish(bus: &mut Bus, payload: SubTopic)
    requires
        old(bus).wf(),
        old(bus).sub_topic.messages().len() < usize::MAX,
    ensures
        final(bus).wf(),
        final(bus).sub_topic.messages() == old(bus).sub_topic.messages().push(payload),
        final(bus).foo == old(bus).foo,
        final(bus).bar == old(bus).bar,
        final(bus).system_health == old(bus).system_health,
        final(bus).some_data == old(bus).some_data,
{
    bus.sub_topic.publish(payload);
}

/// Handle to the `Foo` topic.
pub struct Foo {}

impl Foo {
    /// Subscribe to the `Foo` topic.
    pub fn subscribe(bus: &Bus) -> (r: Subscriber)
        requires
            bus.wf(),
        ensures
            r.wf(&bus.foo),
            r.index() == bus.foo.messages().len(),
            r.lost() == 0,
    {
        bus.foo.subscribe()
    }

    /// Publish to the `Foo` topic: the value reaches `Foo`'s own
    /// channel, and, wrapped as `SubTopic::Foo`, the ancestor channel.
    pub fn publish(bus: &mut Bus, payload: u32)
        requires
            old(bus).wf(),
            old(bus).foo.messages().len() < usize::MAX,
            old(bus).sub_topic.messages().len() < usize::MAX,
        ensures
            final(bus).wf(),
            final(bus).foo.messages() == old(bus).foo.messages().push(payload),
            final(bus).sub_topic.messages() == old(bus).sub_topic.messages().push(
                SubTopic::Foo(payload),
            ),
            final(bus).bar == old(bus).bar,
            final(bus).system_health == old(bus).system_health,
            final(bus).some_data == old(bus).some_data,
    {
        bus.foo.publish(payload);
        publish(bus, SubTopic::Foo(payload));
    }
}

/// Handle to the `Bar` topic.
pub struct Bar {}

impl Bar {
    /// Subscribe to the `Bar` topic.
    pub fn subscribe(bus: &Bus) -> (r: Subscriber)
        requires
            bus.wf(),
        ensures
            r.wf(&bus.bar),
            r.index() == bus.bar.messages().len(),
            r.lost() == 0,
    {
        bus.bar.subscribe()
    }

    /// Publish to the `Bar` topic: the value reaches `Bar`'s own
    /// channel, and, wrapped as `SubTopic::Bar`, the ancestor channel.
    pub fn publish(bus: &mut Bus, payload: u8)
        requires
            old(bus).wf(),
            old(bus).bar.messages().len() < usize::MAX,
            old(bus).sub_topic.messages().len() < usize::MAX,
        ensures
            final(bus).wf(),
            final(bus).bar.messages() == old(bus).bar.messages().push(payload),
            final(bus).sub_topic.messages() == old(bus).sub_topic.messages().push(
                SubTopic::Bar(payload),
            ),
            final(bus).foo == old(bus).foo,
            final(bus).system_health == old(bus).system_health,
            final(bus).some_data == old(bus).some_data,
    {
        bus.bar.publish(payload);
        publish(bus, SubTopic::Bar(payload));
    }
}

/// Handle to the `SystemHealth` topic.
pub struct SystemHealth {}

impl SystemHealth {
    /// Subscribe to the `SystemHealth` topic.
    pub fn subscribe(bus: &Bus) -> (r: Subscriber)
        requires
            bus.wf(),
        ensures
            r.wf(&bus.system_health),
            r.index() == bus.system_health.messages().len(),
            r.lost() == 0,
    {
        bus.system_health.subscribe()
    }

    /// Publish to the `SystemHealth` topic.  A top-level topic has no
    /// ancestor, so there is no fan-out.
    pub fn publish(bus: &mut Bus, payload: String)
        requires
            old(bus).wf(),
            old(bus).system_health.messages().len() < usize::MAX,
        ensures
            final(bus).wf(),
            final(bus).system_health.messages() == old(bus).system_health.messages().push(payload),
            final(bus).foo == old(bus).foo,
            final(bus).bar == old(bus).bar,
            final(bus).sub_topic == old(bus).sub_topic,
            final(bus).some_data == old(bus).some_data,
    {
        bus.system_health.publish(payload);
    }
}

/// Handle to the `SomeData` topic.
pub struct SomeData {}

impl SomeData {
    /// Subscribe to the `SomeData` topic.
    pub fn subscribe(bus: &Bus) -> (r: Subscriber)
        requires
            bus.wf(),
        ensures
            r.wf(&bus.some_data),
            r.index() == bus.some_data.messages().len(),
            r.lost() == 0,
    {
        bus.some_data.subscribe()
    }

    /// Publish to the `SomeData` topic.  A top-level topic has no
    /// ancestor, so there is no fan-out.
    pub fn publish(bus: &mut Bus, payload: u32)
        requires
            old(bus).wf(),
            old(bus).some_data.messages().len() < usize::MAX,
        ensures
            final(bus).wf(),
            final(bus).some_data.messages() == old(bus).some_data.messages().push(payload),
            final(bus).foo == old(bus).foo,
            final(bus).bar == old(bus).bar,
            final(bus).sub_topic == old(bus).sub_topic,
            final(bus).system_health == old(bus).system_health,
    {
        bus.some_data.publish(payload);
    }
}

} // verus!
