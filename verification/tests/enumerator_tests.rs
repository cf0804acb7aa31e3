use libudev::{Context, Device, Enumerator, ErrorKind};

fn device(syspath: &str, subsystem: &str, sysname: &str) -> Device {
    let mut d = Device::new();
    d.syspath = Some(syspath.to_string());
    d.subsystem = Some(subsystem.to_string());
    d.sysname = Some(sysname.to_string());
    d
}

fn sample_context() -> Context {
    let mut ctx = Context::new().unwrap();

    let mut sda = device("/sys/devices/pci/host/sda", "block", "sda");
    sda.properties = vec![("ID_FS_TYPE".to_string(), "ext4".to_string())];
    sda.tags = vec!["systemd".to_string()];
    ctx.add_device(sda);

    let mut tty0 = device("/sys/devices/virtual/tty/tty0", "tty", "tty0");
    tty0.properties = vec![("ID_FS_TYPE".to_string(), "ext4".to_string())];
    ctx.add_device(tty0);

    let tty1 = device("/sys/devices/virtual/tty/tty1", "tty", "tty1");
    ctx.add_device(tty1);

    let mut eth0 = device("/sys/devices/net/eth0", "net", "eth0");
    eth0.properties = vec![("ID_FS_TYPE".to_string(), "vfat".to_string())];
    ctx.add_device(eth0);

    ctx
}

fn scanned_syspaths(e: Enumerator) -> Vec<String> {
    let mut out = Vec::new();
    let mut devices = e.scan_devices().unwrap();
    while let Some(d) = devices.next() {
        out.push(d.syspath.clone().unwrap());
    }
    out
}

#[test]
fn no_filters_list_whole_table_in_order() {
    let ctx = sample_context();
    let e = Enumerator::new(&ctx).unwrap();
    let paths = scanned_syspaths(e);
    assert_eq!(
        paths,
        vec![
            "/sys/devices/pci/host/sda".to_string(),
            "/sys/devices/virtual/tty/tty0".to_string(),
            "/sys/devices/virtual/tty/tty1".to_string(),
            "/sys/devices/net/eth0".to_string(),
        ]
    );
}

#[test]
fn same_kind_filters_are_ored_and_kinds_anded() {
    let ctx = sample_context();
    let mut e = Enumerator::new(&ctx).unwrap();
    e.match_subsystem("block").unwrap();
    e.match_subsystem("tty").unwrap();
    e.match_property("ID_FS_TYPE", "ext4").unwrap();
    let paths = scanned_syspaths(e);
    // Either subsystem qualifies, but the property clause is AND'ed:
    // tty1 has no property and eth0 has the wrong subsystem.
    assert_eq!(
        paths,
        vec![
            "/sys/devices/pci/host/sda".to_string(),
            "/sys/devices/virtual/tty/tty0".to_string(),
        ]
    );
}

#[test]
fn nomatch_subsystem_excludes() {
    let ctx = sample_context();
    let mut e = Enumerator::new(&ctx).unwrap();
    e.nomatch_subsystem("tty").unwrap();
    let paths = scanned_syspaths(e);
    assert_eq!(
        paths,
        vec![
            "/sys/devices/pci/host/sda".to_string(),
            "/sys/devices/net/eth0".to_string(),
        ]
    );
}

#[test]
fn match_sysname_and_tag() {
    let ctx = sample_context();
    let mut e = Enumerator::new(&ctx).unwrap();
    e.match_sysname("tty1").unwrap();
    assert_eq!(scanned_syspaths(e), vec!["/sys/devices/virtual/tty/tty1".to_string()]);

    let mut e = Enumerator::new(&ctx).unwrap();
    e.match_tag("systemd").unwrap();
    assert_eq!(scanned_syspaths(e), vec!["/sys/devices/pci/host/sda".to_string()]);
}

#[test]
fn match_attribute_and_nomatch_attribute() {
    let mut ctx = Context::new().unwrap();
    let mut a = device("/sys/devices/a", "block", "a");
    a.attributes = vec![("removable".to_string(), Some("1".to_string()))];
    ctx.add_device(a);
    let mut b = device("/sys/devices/b", "block", "b");
    b.attributes = vec![("removable".to_string(), Some("0".to_string()))];
    ctx.add_device(b);

    let mut e = Enumerator::new(&ctx).unwrap();
    e.match_attribute("removable", "1").unwrap();
    assert_eq!(scanned_syspaths(e), vec!["/sys/devices/a".to_string()]);

    let mut e = Enumerator::new(&ctx).unwrap();
    e.nomatch_attribute("removable", "1").unwrap();
    assert_eq!(scanned_syspaths(e), vec!["/sys/devices/b".to_string()]);
}

#[test]
fn match_is_initialized_filters() {
    let mut ctx = Context::new().unwrap();
    let mut a = device("/sys/devices/a", "block", "a");
    a.has_node_or_interface = true;
    a.initialized = false;
    ctx.add_device(a);
    let b = device("/sys/devices/b", "block", "b");
    ctx.add_device(b);

    let mut e = Enumerator::new(&ctx).unwrap();
    e.match_is_initialized().unwrap();
    assert_eq!(scanned_syspaths(e), vec!["/sys/devices/b".to_string()]);
}

#[test]
fn match_parent_includes_subtree() {
    let mut ctx = Context::new().unwrap();
    let root = device("/sys/devices/pci", "pci", "pci");
    let mut disk = device("/sys/devices/pci/host/sda", "block", "sda");
    disk.parent = Some(Box::new(root.duplicate()));
    let other = device("/sys/devices/virtual/tty/tty0", "tty", "tty0");
    ctx.add_device(root.duplicate());
    ctx.add_device(disk);
    ctx.add_device(other);

    let mut e = Enumerator::new(&ctx).unwrap();
    e.match_parent(&root).unwrap();
    assert_eq!(
        scanned_syspaths(e),
        vec!["/sys/devices/pci".to_string(), "/sys/devices/pci/host/sda".to_string()]
    );
}

#[test]
fn parent_listed_before_child() {
    let mut ctx = Context::new().unwrap();
    let parent = device("/sys/devices/pci", "pci", "pci");
    let mut child = device("/sys/devices/pci/host/sda", "block", "sda");
    child.parent = Some(Box::new(parent.duplicate()));
    ctx.add_device(parent.duplicate());
    ctx.add_device(child);

    let mut e = Enumerator::new(&ctx).unwrap();
    e.match_parent(&parent).unwrap();
    let paths = scanned_syspaths(e);
    let pp = paths.iter().position(|p| p == "/sys/devices/pci").unwrap();
    let pc = paths.iter().position(|p| p == "/sys/devices/pci/host/sda").unwrap();
    assert!(pp < pc);
}

#[test]
fn add_syspath_bypasses_filters() {
    let ctx = sample_context();
    let mut e = Enumerator::new(&ctx).unwrap();
    e.match_subsystem("block").unwrap();
    e.add_syspath("/sys/devices/net/eth0").unwrap();
    let paths = scanned_syspaths(e);
    assert_eq!(
        paths,
        vec![
            "/sys/devices/pci/host/sda".to_string(),
            "/sys/devices/net/eth0".to_string(),
        ]
    );
}

#[test]
fn filter_arguments_with_nul_are_invalid() {
    let ctx = sample_context();
    let mut e = Enumerator::new(&ctx).unwrap();
    assert_eq!(e.match_subsystem("tt\0y").unwrap_err().kind(), ErrorKind::InvalidArgument);
    assert_eq!(e.match_tag("t\0").unwrap_err().kind(), ErrorKind::InvalidArgument);
    assert_eq!(e.add_syspath("/sys\0").unwrap_err().kind(), ErrorKind::InvalidArgument);
    // A rejected registration leaves the filter set as it was.
    let paths = scanned_syspaths(e);
    assert_eq!(paths.len(), 4);
}

#[test]
fn scan_of_empty_table_is_empty() {
    let ctx = Context::new().unwrap();
    let e = Enumerator::new(&ctx).unwrap();
    assert!(scanned_syspaths(e).is_empty());
}

#[test]
fn devices_iterator_stays_exhausted() {
    let ctx = sample_context();
    let e = Enumerator::new(&ctx).unwrap();
    let mut devices = e.scan_devices().unwrap();
    while devices.next().is_some() {}
    assert!(devices.next().is_none());
    assert!(devices.next().is_none());
}

#[test]
fn matches_judges_one_device() {
    let ctx = sample_context();
    let mut e = Enumerator::new(&ctx).unwrap();
    e.match_subsystem("tty").unwrap();
    let tty = device("/sys/devices/virtual/tty/tty7", "tty", "tty7");
    let net = device("/sys/devices/net/eth1", "net", "eth1");
    assert!(e.matches(&tty));
    assert!(!e.matches(&net));
}
