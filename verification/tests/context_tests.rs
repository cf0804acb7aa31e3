use libudev::error::{EINVAL, ENOMEM};
use libudev::{Context, Device, DeviceKind, ErrorKind};

fn named_device(syspath: &str, subsystem: &str, sysname: &str) -> Device {
    let mut d = Device::new();
    d.syspath = Some(syspath.to_string());
    d.subsystem = Some(subsystem.to_string());
    d.sysname = Some(sysname.to_string());
    d
}

#[test]
fn encode_devnum_zero() {
    assert_eq!(libudev::context::encode_devnum(0, 0), 0);
}

#[test]
fn encode_devnum_small_pair() {
    assert_eq!(libudev::context::encode_devnum(8, 1), 0x801);
}

#[test]
fn encode_devnum_high_major_bits() {
    assert_eq!(libudev::context::encode_devnum(0xFFF, 0), 0xfff00);
    assert_eq!(
        libudev::context::encode_devnum(0x12345678, 0x12345),
        0x1234500012367845
    );
}

#[test]
fn encode_devnum_matches_platform_makedev() {
    for &(major, minor) in &[(0u32, 0u32), (8, 1), (0xFFF, 0), (259, 7), (0x12345678, 0x12345)] {
        assert_eq!(
            libudev::context::encode_devnum(major, minor),
            libc::makedev(major, minor)
        );
    }
}

#[test]
fn new_context_is_empty() {
    let ctx = Context::new().unwrap();
    assert!(ctx.devices.is_empty());
}

#[test]
fn device_from_syspath_finds_device() {
    let mut ctx = Context::new().unwrap();
    ctx.add_device(named_device("/sys/devices/virtual/tty/tty0", "tty", "tty0"));
    ctx.add_device(named_device("/sys/devices/virtual/tty/tty1", "tty", "tty1"));
    let d = ctx.device_from_syspath("/sys/devices/virtual/tty/tty1").unwrap();
    assert_eq!(d.sysname.as_deref(), Some("tty1"));
}

#[test]
fn device_from_syspath_unknown_is_allocation_failure() {
    let ctx = Context::new().unwrap();
    let e = ctx.device_from_syspath("/sys/devices/missing").unwrap_err();
    assert_eq!(e.errno(), ENOMEM);
    assert_eq!(e.kind(), ErrorKind::AllocationFailure);
}

#[test]
fn device_from_syspath_embedded_nul_is_invalid_argument() {
    let ctx = Context::new().unwrap();
    let e = ctx.device_from_syspath("/sys/\0devices").unwrap_err();
    assert_eq!(e.errno(), EINVAL);
    assert_eq!(e.kind(), ErrorKind::InvalidArgument);
}

#[test]
fn device_from_devnum_distinguishes_kinds() {
    let mut ctx = Context::new().unwrap();
    let mut block = named_device("/sys/devices/pci/sda", "block", "sda");
    block.kind = DeviceKind::Block;
    block.devnum = libudev::context::encode_devnum(8, 0);
    let mut chr = named_device("/sys/devices/virtual/mem/null", "mem", "null");
    chr.kind = DeviceKind::Character;
    chr.devnum = libudev::context::encode_devnum(1, 3);
    ctx.add_device(block);
    ctx.add_device(chr);

    let found = ctx.device_from_devnum(DeviceKind::Block, 8, 0).unwrap();
    assert_eq!(found.sysname.as_deref(), Some("sda"));
    let missing = ctx.device_from_devnum(DeviceKind::Character, 8, 0).unwrap_err();
    assert_eq!(missing.kind(), ErrorKind::AllocationFailure);
}

#[test]
fn device_from_subsystem_sysname_lookup() {
    let mut ctx = Context::new().unwrap();
    ctx.add_device(named_device("/sys/devices/virtual/tty/tty0", "tty", "tty0"));
    ctx.add_device(named_device("/sys/devices/net/eth0", "net", "eth0"));
    let d = ctx.device_from_subsystem_sysname("net", "eth0").unwrap();
    assert_eq!(d.syspath.as_deref(), Some("/sys/devices/net/eth0"));
    let e = ctx.device_from_subsystem_sysname("net", "tty0").unwrap_err();
    assert_eq!(e.kind(), ErrorKind::AllocationFailure);
    let e = ctx.device_from_subsystem_sysname("ne\0t", "eth0").unwrap_err();
    assert_eq!(e.kind(), ErrorKind::InvalidArgument);
}

#[test]
fn device_from_syspath_on_device_type() {
    let mut ctx = Context::new().unwrap();
    ctx.add_device(named_device("/sys/devices/net/eth0", "net", "eth0"));
    let d = Device::from_syspath(&ctx, "/sys/devices/net/eth0").unwrap();
    assert_eq!(d.subsystem.as_deref(), Some("net"));
    drop(ctx);
    assert_eq!(d.sysname.as_deref(), Some("eth0"));
}

#[test]
fn duplicate_context_matches_original() {
    let mut ctx = Context::new().unwrap();
    ctx.add_device(named_device("/sys/devices/virtual/tty/tty0", "tty", "tty0"));
    let copy = ctx.duplicate();
    assert_eq!(copy.devices.len(), 1);
    assert_eq!(copy.devices[0].syspath.as_deref(), Some("/sys/devices/virtual/tty/tty0"));
    drop(ctx);
    assert_eq!(copy.devices[0].sysname.as_deref(), Some("tty0"));
}

#[test]
fn errno_translation() {
    assert!(libudev::util::errno_to_result(0).is_ok());
    let e = libudev::util::errno_to_result(13).unwrap_err();
    assert_eq!(e.kind(), ErrorKind::BackendError(13));
    assert_eq!(libudev::error::from_errno(ENOMEM).kind(), ErrorKind::AllocationFailure);
    assert_eq!(libudev::error::from_errno(EINVAL).kind(), ErrorKind::InvalidArgument);
}
