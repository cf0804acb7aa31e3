use libudev::error::EINVAL;
use libudev::Device;

fn tty_device() -> Device {
    let mut d = Device::new();
    d.syspath = Some("/sys/devices/virtual/tty/tty0".to_string());
    d.devpath = Some("/devices/virtual/tty/tty0".to_string());
    d.devnode = Some("/dev/tty0".to_string());
    d.subsystem = Some("tty".to_string());
    d.sysname = Some("tty0".to_string());
    d.properties = vec![
        ("DEVNAME".to_string(), "/dev/tty0".to_string()),
        ("SUBSYSTEM".to_string(), "tty".to_string()),
    ];
    d.attributes = vec![
        ("active".to_string(), Some("tty0".to_string())),
        ("uevent".to_string(), None),
    ];
    d
}

#[test]
fn accessors_report_fields() {
    let d = tty_device();
    assert_eq!(d.syspath(), Some("/sys/devices/virtual/tty/tty0"));
    assert_eq!(d.devpath(), Some("/devices/virtual/tty/tty0"));
    assert_eq!(d.devnode(), Some("/dev/tty0"));
    assert_eq!(d.subsystem(), Some("tty"));
    assert_eq!(d.sysname(), Some("tty0"));
    assert_eq!(d.devtype(), None);
    assert_eq!(d.driver(), None);
}

#[test]
fn devnum_zero_is_absent() {
    let mut d = tty_device();
    assert_eq!(d.devnum(), None);
    d.devnum = 0x801;
    assert_eq!(d.devnum(), Some(0x801));
}

#[test]
fn is_initialized_without_node_or_interface() {
    let mut d = tty_device();
    d.has_node_or_interface = false;
    d.initialized = false;
    assert!(d.is_initialized());
    d.has_node_or_interface = true;
    assert!(!d.is_initialized());
    d.initialized = true;
    assert!(d.is_initialized());
}

#[test]
fn sysnum_parses_trailing_digits() {
    let mut d = tty_device();
    assert_eq!(d.sysnum(), Some(0));
    d.sysname = Some("tty10".to_string());
    assert_eq!(d.sysnum(), Some(10));
    d.sysname = Some("abc007".to_string());
    assert_eq!(d.sysnum(), Some(7));
    d.sysname = Some("sda2n1".to_string());
    assert_eq!(d.sysnum(), Some(1));
}

#[test]
fn sysnum_absent_cases() {
    let mut d = tty_device();
    d.sysname = Some("console".to_string());
    assert_eq!(d.sysnum(), None);
    d.sysname = None;
    assert_eq!(d.sysnum(), None);
    d.sysname = Some("x99999999999999999999999999".to_string());
    assert_eq!(d.sysnum(), None);
    d.sysname = Some("x00000000000000000000000005".to_string());
    assert_eq!(d.sysnum(), Some(5));
}

#[test]
fn sysnum_overflow_boundary() {
    let mut d = tty_device();
    d.sysname = Some(format!("disk{}", usize::MAX));
    assert_eq!(d.sysnum(), Some(usize::MAX));
    d.sysname = Some("disk18446744073709551616".to_string());
    assert_eq!(d.sysnum(), None);
}

#[test]
fn property_value_lookup() {
    let d = tty_device();
    assert_eq!(d.property_value("DEVNAME"), Some("/dev/tty0"));
    assert_eq!(d.property_value("SUBSYSTEM"), Some("tty"));
    assert_eq!(d.property_value("MISSING"), None);
}

#[test]
fn property_value_nul_key_is_silently_absent() {
    let d = tty_device();
    assert_eq!(d.property_value("DEV\0NAME"), None);
}

#[test]
fn attribute_value_lookup() {
    let d = tty_device();
    assert_eq!(d.attribute_value("active"), Some("tty0"));
    assert_eq!(d.attribute_value("uevent"), None);
    assert_eq!(d.attribute_value("missing"), None);
    assert_eq!(d.attribute_value("act\0ive"), None);
}

#[test]
fn set_attribute_value_replaces_and_appends() {
    let mut d = tty_device();
    d.set_attribute_value("active", "tty1").unwrap();
    assert_eq!(d.attribute_value("active"), Some("tty1"));
    d.set_attribute_value("fresh", "value").unwrap();
    assert_eq!(d.attribute_value("fresh"), Some("value"));
    assert_eq!(d.attribute_value("uevent"), None);
}

#[test]
fn set_attribute_value_rejects_embedded_nul() {
    let mut d = tty_device();
    let e = d.set_attribute_value("a\0b", "v").unwrap_err();
    assert_eq!(e.errno(), EINVAL);
    let e = d.set_attribute_value("a", "v\0").unwrap_err();
    assert_eq!(e.errno(), EINVAL);
    assert_eq!(d.attribute_value("a"), None);
}

#[test]
fn properties_iterator_yields_pairs_in_order() {
    let d = tty_device();
    let mut it = d.properties();
    let p = it.next().unwrap();
    assert_eq!(p.name(), "DEVNAME");
    assert_eq!(p.value(), "/dev/tty0");
    let p = it.next().unwrap();
    assert_eq!(p.name(), "SUBSYSTEM");
    assert_eq!(p.value(), "tty");
    assert!(it.next().is_none());
}

#[test]
fn properties_iterator_stays_exhausted() {
    let d = tty_device();
    let mut it = d.properties();
    while it.next().is_some() {}
    assert!(it.next().is_none());
    assert!(it.next().is_none());
}

#[test]
fn attributes_iterator_yields_names_and_values() {
    let d = tty_device();
    let mut it = d.attributes();
    let a = it.next().unwrap();
    assert_eq!(a.name(), "active");
    assert_eq!(a.value(), Some("tty0"));
    let a = it.next().unwrap();
    assert_eq!(a.name(), "uevent");
    assert_eq!(a.value(), None);
    assert!(it.next().is_none());
    assert!(it.next().is_none());
}

#[test]
fn iterators_are_independent() {
    let d = tty_device();
    let mut first = d.properties();
    let mut second = d.properties();
    assert_eq!(first.next().unwrap().name(), "DEVNAME");
    assert_eq!(second.next().unwrap().name(), "DEVNAME");
}

#[test]
fn parent_chain_is_reachable() {
    let mut parent = Device::new();
    parent.syspath = Some("/sys/devices/pci".to_string());
    let mut child = tty_device();
    child.parent = Some(Box::new(parent));
    let p = child.parent().unwrap();
    assert_eq!(p.syspath(), Some("/sys/devices/pci"));
    assert!(p.parent().is_none());
}

#[test]
fn duplicate_matches_original() {
    let d = tty_device();
    let copy = d.duplicate();
    assert_eq!(copy.syspath(), d.syspath());
    assert_eq!(copy.property_value("DEVNAME"), d.property_value("DEVNAME"));
    assert_eq!(copy.attribute_value("active"), d.attribute_value("active"));
}
