use libudev::{Context, Device, EventType, Monitor};

fn event_device(syspath: &str, subsystem: &str, action: Option<&str>, seqnum: u64) -> Device {
    let mut d = Device::new();
    d.syspath = Some(syspath.to_string());
    d.subsystem = Some(subsystem.to_string());
    d.seqnum = seqnum;
    if let Some(a) = action {
        d.properties = vec![("ACTION".to_string(), a.to_string())];
    }
    d
}

#[test]
fn receive_on_empty_socket_is_absent_immediately() {
    let ctx = Context::new().unwrap();
    let m = Monitor::new(&ctx).unwrap();
    let mut socket = m.listen().unwrap();
    assert!(socket.receive_event().is_none());
    assert!(socket.receive_event().is_none());
}

#[test]
fn delivered_events_are_received_in_delivery_order() {
    let ctx = Context::new().unwrap();
    let m = Monitor::new(&ctx).unwrap();
    let mut socket = m.listen().unwrap();
    socket.deliver(event_device("/sys/a", "block", Some("add"), 10));
    socket.deliver(event_device("/sys/b", "block", Some("remove"), 11));
    let first = socket.receive_event().unwrap();
    let second = socket.receive_event().unwrap();
    assert_eq!(first.sequence_number(), 10);
    assert_eq!(second.sequence_number(), 11);
    assert!(socket.receive_event().is_none());
}

#[test]
fn sequence_number_gaps_are_surfaced() {
    let ctx = Context::new().unwrap();
    let m = Monitor::new(&ctx).unwrap();
    let mut socket = m.listen().unwrap();
    socket.deliver(event_device("/sys/a", "block", Some("add"), 5));
    socket.deliver(event_device("/sys/b", "block", Some("add"), 9));
    let a = socket.receive_event().unwrap().sequence_number();
    let b = socket.receive_event().unwrap().sequence_number();
    assert!(b > a + 1);
}

#[test]
fn subsystem_filter_limits_delivery() {
    let ctx = Context::new().unwrap();
    let mut m = Monitor::new(&ctx).unwrap();
    m.match_subsystem("block").unwrap();
    let mut socket = m.listen().unwrap();
    socket.deliver(event_device("/sys/a", "block", Some("add"), 1));
    socket.deliver(event_device("/sys/b", "net", Some("add"), 2));
    let only = socket.receive_event().unwrap();
    assert_eq!(only.device().subsystem(), Some("block"));
    assert!(socket.receive_event().is_none());
}

#[test]
fn subsystem_devtype_filter_requires_both() {
    let ctx = Context::new().unwrap();
    let mut m = Monitor::new(&ctx).unwrap();
    m.match_subsystem_devtype("block", "disk").unwrap();
    let mut socket = m.listen().unwrap();
    let mut disk = event_device("/sys/a", "block", Some("add"), 1);
    disk.devtype = Some("disk".to_string());
    let partition = event_device("/sys/b", "block", Some("add"), 2);
    socket.deliver(disk);
    socket.deliver(partition);
    assert!(socket.receive_event().is_some());
    assert!(socket.receive_event().is_none());
}

#[test]
fn tag_filter_limits_delivery() {
    let ctx = Context::new().unwrap();
    let mut m = Monitor::new(&ctx).unwrap();
    m.match_tag("systemd").unwrap();
    let mut socket = m.listen().unwrap();
    let mut tagged = event_device("/sys/a", "block", Some("add"), 1);
    tagged.tags = vec!["systemd".to_string()];
    socket.deliver(tagged);
    socket.deliver(event_device("/sys/b", "block", Some("add"), 2));
    assert!(socket.receive_event().is_some());
    assert!(socket.receive_event().is_none());
}

#[test]
fn cleared_filters_deliver_everything() {
    let ctx = Context::new().unwrap();
    let mut m = Monitor::new(&ctx).unwrap();
    m.match_subsystem("block").unwrap();
    m.clear_filters().unwrap();
    let mut socket = m.listen().unwrap();
    socket.deliver(event_device("/sys/b", "net", Some("add"), 1));
    assert!(socket.receive_event().is_some());
}

#[test]
fn monitor_filter_with_nul_is_invalid() {
    let ctx = Context::new().unwrap();
    let mut m = Monitor::new(&ctx).unwrap();
    assert!(m.match_subsystem("blo\0ck").is_err());
    assert!(m.match_subsystem_devtype("block", "di\0sk").is_err());
    assert!(m.match_tag("\0").is_err());
}

#[test]
fn event_type_derivation() {
    let ctx = Context::new().unwrap();
    let m = Monitor::new(&ctx).unwrap();
    let mut socket = m.listen().unwrap();
    socket.deliver(event_device("/sys/a", "block", Some("add"), 1));
    socket.deliver(event_device("/sys/b", "block", Some("change"), 2));
    socket.deliver(event_device("/sys/c", "block", Some("remove"), 3));
    socket.deliver(event_device("/sys/d", "block", Some("bind"), 4));
    socket.deliver(event_device("/sys/e", "block", None, 5));
    assert_eq!(socket.receive_event().unwrap().event_type(), EventType::Add);
    assert_eq!(socket.receive_event().unwrap().event_type(), EventType::Change);
    assert_eq!(socket.receive_event().unwrap().event_type(), EventType::Remove);
    assert_eq!(socket.receive_event().unwrap().event_type(), EventType::Unknown);
    assert_eq!(socket.receive_event().unwrap().event_type(), EventType::Unknown);
}

#[test]
fn event_exposes_its_device() {
    let ctx = Context::new().unwrap();
    let m = Monitor::new(&ctx).unwrap();
    let mut socket = m.listen().unwrap();
    socket.deliver(event_device("/sys/a", "usb", Some("add"), 7));
    let event = socket.receive_event().unwrap();
    assert_eq!(event.device().syspath(), Some("/sys/a"));
    assert_eq!(event.device().subsystem(), Some("usb"));
}

#[test]
fn event_type_labels() {
    assert_eq!(EventType::Add.label(), "add");
    assert_eq!(EventType::Change.label(), "change");
    assert_eq!(EventType::Remove.label(), "remove");
    assert_eq!(EventType::Unknown.label(), "unknown");
    assert_eq!(EventType::default(), EventType::Unknown);
}
