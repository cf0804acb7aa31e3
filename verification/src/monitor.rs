//! The event feed: monitor configuration, the one-way transition to a
//! listening socket, and the decoding of delivered records into typed
//! events.
//!
//! A monitor accumulates kernel-side delivery filters while unconfigured;
//! `listen` consumes it — an irrevocable transition — and yields the
//! socket. Delivery applies the filters; receiving never blocks: with no
//! queued record it reports absent immediately, and records actually
//! delivered are observed in delivery order, with sequence-number gaps
//! surfaced rather than hidden.

use vstd::prelude::*;
use vstd::string::*;

use crate::context::Context;
use crate::device::{has_tag, prop_lookup, Device};
use crate::error::{Error, EINVAL};
use crate::util::{check_encodable, nul_free, opt_is, opt_view, seq_pushed, str_eq};

verus! {

/// One kernel-side delivery filter of a monitor.
pub enum MonitorFilter {
    /// Deliver events for devices of the given subsystem.
    Subsystem(String),
    /// Deliver events for devices of the given subsystem and devtype.
    SubsystemDevtype(String, String),
    /// Deliver events for devices with the given tag.
    Tag(String),
}

/// Whether one delivery filter, taken alone, passes the device.
pub open spec fn monitor_filter_hit(f: MonitorFilter, d: Device) -> bool {
    match f {
        MonitorFilter::Subsystem(s) => opt_view(d.subsystem) == Some(s@),
        MonitorFilter::SubsystemDevtype(s, t) => opt_view(d.subsystem) == Some(s@) && opt_view(
            d.devtype,
        ) == Some(t@),
        MonitorFilter::Tag(t) => has_tag(d.tags@, t@),
    }
}

/// The kernel-side delivery rule: with no filters installed every record
/// is delivered, otherwise any one filter passing suffices.
pub open spec fn monitor_passes(fs: Seq<MonitorFilter>, d: Device) -> bool {
    fs.len() == 0 || exists|i: int| 0 <= i < fs.len() && monitor_filter_hit(fs[i], d)
}

/// A monitor in its unconfigured state: filters may still change.
pub struct Monitor {
    /// The installed delivery filters, in installation order.
    pub filters: Vec<MonitorFilter>,
}

impl Monitor {
    /// A new monitor with no filters: every record would be delivered.
    /// In the model, construction always succeeds; an embedding whose
    /// backend fails reports the allocation error instead.
    pub fn new(_context: &Context) -> (r: Result<Monitor, Error>)
        ensures
            r is Ok,
            r->Ok_0.filters@ == Seq::<MonitorFilter>::empty(),
    {
        Ok(Monitor { filters: Vec::new() })
    }

    /// Installs a subsystem delivery filter.
    pub fn match_subsystem(&mut self, subsystem: &str) -> (r: Result<(), Error>)
        ensures
            r is Ok <==> nul_free(subsystem@),
            r is Err ==> r->Err_0.errno == EINVAL && final(self).filters == old(self).filters,
            r is Ok ==> seq_pushed(
                final(self).filters@,
                old(self).filters@,
                |f: MonitorFilter| f matches MonitorFilter::Subsystem(s) && s@ == subsystem@,
            ),
    {
        if let Err(e) = check_encodable(subsystem) {
            return Err(e);
        }
        let ghost prev = self.filters@;
        self.filters.push(MonitorFilter::Subsystem(subsystem.to_owned()));
        proof {
            assert(self.filters@.take(prev.len() as int) =~= prev);
        }
        Ok(())
    }

    /// Installs a subsystem-and-devtype delivery filter.
    pub fn match_subsystem_devtype(&mut self, subsystem: &str, devtype: &str) -> (r: Result<
        (),
        Error,
    >)
        ensures
            r is Ok <==> nul_free(subsystem@) && nul_free(devtype@),
            r is Err ==> r->Err_0.errno == EINVAL && final(self).filters == old(self).filters,
            r is Ok ==> seq_pushed(
                final(self).filters@,
                old(self).filters@,
                |f: MonitorFilter|
                    f matches MonitorFilter::SubsystemDevtype(s, t) && s@ == subsystem@ && t@
                        == devtype@,
            ),
    {
        if let Err(e) = check_encodable(subsystem) {
            return Err(e);
        }
        if let Err(e) = check_encodable(devtype) {
            return Err(e);
        }
        let ghost prev = self.filters@;
        self.filters.push(
            MonitorFilter::SubsystemDevtype(subsystem.to_owned(), devtype.to_owned()),
        );
        proof {
            assert(self.filters@.take(prev.len() as int) =~= prev);
        }
        Ok(())
    }

    /// Installs a tag delivery filter.
    pub fn match_tag(&mut self, tag: &str) -> (r: Result<(), Error>)
        ensures
            r is Ok <==> nul_free(tag@),
            r is Err ==> r->Err_0.errno == EINVAL && final(self).filters == old(self).filters,
            r is Ok ==> seq_pushed(
                final(self).filters@,
                old(self).filters@,
                |f: MonitorFilter| f matches MonitorFilter::Tag(t) && t@ == tag@,
            ),
    {
        if let Err(e) = check_encodable(tag) {
            return Err(e);
        }
        let ghost prev = self.filters@;
        self.filters.push(MonitorFilter::Tag(tag.to_owned()));
        proof {
            assert(self.filters@.take(prev.len() as int) =~= prev);
        }
        Ok(())
    }

    /// Removes every installed filter in one call.
    pub fn clear_filters(&mut self) -> (r: Result<(), Error>)
        ensures
            r is Ok,
            final(self).filters@ == Seq::<MonitorFilter>::empty(),
    {
        self.filters.clear();
        Ok(())
    }

    /// Arms delivery, consuming the monitor: after this one-way
    /// transition no filter can change. In the model, arming always
    /// succeeds; an embedding whose backend cannot enable receiving
    /// reports the backend error instead, and the monitor is spent
    /// either way.
    pub fn listen(self) -> (r: Result<MonitorSocket, Error>)
        ensures
            r is Ok,
            r->Ok_0.filters == self.filters,
            r->Ok_0.queue@ == Seq::<Device>::empty(),
    {
        Ok(MonitorSocket { filters: self.filters, queue: Vec::new() })
    }
}

/// A monitor after `listen`: the armed, listening socket.
///
/// The embedding polls the native descriptor for readiness and hands
/// each record the channel delivers to [`MonitorSocket::deliver`];
/// receiving is non-blocking and in delivery order.
pub struct MonitorSocket {
    /// The filters the socket was armed with, now immutable.
    pub filters: Vec<MonitorFilter>,
    /// The records delivered and not yet received, front first.
    pub queue: Vec<Device>,
}

impl MonitorSocket {
    /// One record arriving over the notification channel: the kernel-side
    /// filters decide whether it is queued, and delivery order is kept.
    pub fn deliver(&mut self, d: Device)
        ensures
            monitor_passes(old(self).filters@, d) ==> final(self).queue@ == old(
                self,
            ).queue@.push(d),
            !monitor_passes(old(self).filters@, d) ==> final(self).queue == old(self).queue,
            final(self).filters == old(self).filters,
    {
        let mut passes = self.filters.len() == 0;
        let n = self.filters.len();
        let mut i: usize = 0;
        while i < n
            invariant
                i <= n,
                n == self.filters@.len(),
                *self == *old(self),
                passes == (n == 0 || exists|j: int|
                    0 <= j < i && monitor_filter_hit(self.filters@[j], d)),
            decreases n - i,
        {
            if monitor_filter_hit_exec(&self.filters[i], &d) {
                passes = true;
            }
            i += 1;
        }
        if passes {
            self.queue.push(d);
        }
    }

    /// The next queued event. This never blocks: with nothing queued it
    /// reports absent immediately, and otherwise yields the oldest
    /// delivered record, decoded as a typed event.
    pub fn receive_event(&mut self) -> (r: Option<Event>)
        ensures
            old(self).queue@.len() == 0 ==> r is None && final(self).queue == old(self).queue,
            old(self).queue@.len() > 0 ==> {
                &&& r is Some
                &&& (r->Some_0).device == old(self).queue@[0]
                &&& final(self).queue@ == old(self).queue@.drop_first()
            },
            final(self).filters == old(self).filters,
    {
        if self.queue.len() == 0 {
            None
        } else {
            let d = self.queue.remove(0);
            proof {
                assert(old(self).queue@.drop_first() =~= old(self).queue@.remove(0));
            }
            Some(Event { device: d })
        }
    }
}

/// Decides whether one delivery filter passes the device.
fn monitor_filter_hit_exec(f: &MonitorFilter, d: &Device) -> (r: bool)
    ensures
        r == monitor_filter_hit(*f, *d),
{
    match f {
        MonitorFilter::Subsystem(s) => opt_is(&d.subsystem, s.as_str()),
        MonitorFilter::SubsystemDevtype(s, t) => opt_is(&d.subsystem, s.as_str()) && opt_is(
            &d.devtype,
            t.as_str(),
        ),
        MonitorFilter::Tag(t) => crate::device::has_tag_exec(&d.tags, t.as_str()),
    }
}

/// The type of a device event.
#[derive(Clone, Copy, Debug, PartialEq, Eq, Structural)]
pub enum EventType {
    /// A device was added.
    Add,
    /// A device changed.
    Change,
    /// A device was removed.
    Remove,
    /// An unknown event occurred.
    Unknown,
}

impl Default for EventType {
    /// The default event type, for records carrying no recognized action.
    fn default() -> (r: EventType)
        ensures
            r == EventType::Unknown,
    {
        EventType::Unknown
    }
}

/// The event type a reserved-property value denotes: the three known
/// action strings map to their types, anything else — the absent value
/// included — is unknown.
pub open spec fn action_event_type(v: Option<Seq<char>>) -> EventType {
    if v == Some("add"@) {
        EventType::Add
    } else if v == Some("change"@) {
        EventType::Change
    } else if v == Some("remove"@) {
        EventType::Remove
    } else {
        EventType::Unknown
    }
}

/// The event type a device record denotes, derived from its reserved
/// `ACTION` property alone.
pub open spec fn spec_event_type(d: Device) -> EventType {
    action_event_type(prop_lookup(d.properties@, "ACTION"@))
}

impl EventType {
    /// The conventional name of the event type.
    pub fn label(&self) -> (r: String)
        ensures
            *self == EventType::Add ==> r@ == "add"@,
            *self == EventType::Change ==> r@ == "change"@,
            *self == EventType::Remove ==> r@ == "remove"@,
            *self == EventType::Unknown ==> r@ == "unknown"@,
    {
        match self {
            EventType::Add => String::from_str("add"),
            EventType::Change => String::from_str("change"),
            EventType::Remove => String::from_str("remove"),
            EventType::Unknown => String::from_str("unknown"),
        }
    }
}

/// One received device event: the device record the channel delivered,
/// which carries the action and sequence number stamped at emission.
pub struct Event {
    /// The device record delivered with the event.
    pub device: Device,
}

impl Event {
    /// The event type, a pure function of the device's properties as
    /// delivered: `add`, `change` and `remove` map to their types, an
    /// absent or unrecognized action is unknown.
    pub fn event_type(&self) -> (r: EventType)
        ensures
            r == spec_event_type(self.device),
    {
        proof {
            lemma_action_nul_free();
        }
        match self.device.property_value("ACTION") {
            Some(s) => {
                if str_eq(s, "add") {
                    EventType::Add
                } else if str_eq(s, "change") {
                    EventType::Change
                } else if str_eq(s, "remove") {
                    EventType::Remove
                } else {
                    EventType::Unknown
                }
            },
            None => EventType::Unknown,
        }
    }

    /// The sequence number the source stamped on the event; consumers
    /// detect dropped or reordered records by its gaps.
    pub fn sequence_number(&self) -> (r: u64)
        ensures
            r == self.device.seqnum,
    {
        self.device.seqnum
    }

    /// The device record associated with the event.
    pub fn device(&self) -> (r: &Device)
        ensures
            *r == self.device,
    {
        &self.device
    }
}

proof fn lemma_action_nul_free()
    ensures
        nul_free("ACTION"@),
{
    reveal_strlit("ACTION");
    assert forall|i: int| 0 <= i < "ACTION"@.len() implies "ACTION"@[i] != '\0' by {
        if i == 0 {
        } else if i == 1 {
        } else if i == 2 {
        } else if i == 3 {
        } else if i == 4 {
        } else {
            assert(i == 5);
        }
    }
}

} // verus!
