//! The root of the model: one context owns one reference to the root
//! resource and carries the device table read from the backend.
//!
//! Every other component is constructed from a context and keeps its own
//! counted reference to the same root (see [`crate::handle`]), so devices,
//! enumeration sessions and monitor sessions remain valid after the
//! context value that produced them is dropped. Point lookups resolve a
//! device by syspath, by packed device number, or by subsystem and
//! sysname; the device-number encoding reproduces the platform's bit
//! layout exactly, as a contract with the kernel.

use vstd::prelude::*;

use crate::device::{dev_like, devs_like, Device, DeviceKind};
use crate::error::{alloc_error, Error, EINVAL, ENOMEM};
use crate::util::{check_encodable, nul_free, opt_is, opt_view, str_eq};

verus! {

/// A handle on the device database: the root every other value derives
/// from.
///
/// The embedding that talks to the native backend fills the table once
/// and hands the context to the model; construction and every duplicate
/// stand for one counted reference to the root resource each.
pub struct Context {
    /// The device table, in the backend's dependency order: parents
    /// before children.
    pub devices: Vec<Device>,
}

/// The first device satisfying the predicate, in table order.
pub open spec fn find_first(devs: Seq<Device>, pred: spec_fn(Device) -> bool) -> Option<Device>
    decreases devs.len(),
{
    if devs.len() == 0 {
        None
    } else if pred(devs[0]) {
        Some(devs[0])
    } else {
        find_first(devs.drop_first(), pred)
    }
}

proof fn lemma_find_first_found(devs: Seq<Device>, pred: spec_fn(Device) -> bool, i: int)
    requires
        0 <= i < devs.len(),
        pred(devs[i]),
        forall|j: int| 0 <= j < i ==> !pred(devs[j]),
    ensures
        find_first(devs, pred) == Some(devs[i]),
    decreases i,
{
    if i > 0 {
        lemma_find_first_found(devs.drop_first(), pred, i - 1);
    }
}

proof fn lemma_find_first_none(devs: Seq<Device>, pred: spec_fn(Device) -> bool)
    requires
        forall|j: int| 0 <= j < devs.len() ==> !pred(devs[j]),
    ensures
        find_first(devs, pred) is None,
    decreases devs.len(),
{
    if devs.len() > 0 {
        lemma_find_first_none(devs.drop_first(), pred);
    }
}

/// The platform's packed device-number layout, bit for bit.
pub open spec fn spec_encode_devnum(major: u32, minor: u32) -> u64 {
    (((major as u64) & 0xfffff000) << 32) | (((major as u64) & 0xfff) << 8) | (((minor
        as u64) & 0xffffff00) << 12) | ((minor as u64) & 0xff)
}

/// Packs a major/minor pair into the platform device number. The bit
/// layout is a contract with the kernel and is reproduced exactly.
pub fn encode_devnum(major: u32, minor: u32) -> (r: u64)
    ensures
        r == spec_encode_devnum(major, minor),
{
    (((major as u64) & 0xfffff000) << 32) | (((major as u64) & 0xfff) << 8) | (((minor
        as u64) & 0xffffff00) << 12) | ((minor as u64) & 0xff)
}

/// The predicate a syspath lookup resolves with.
pub open spec fn by_syspath(p: Seq<char>) -> spec_fn(Device) -> bool {
    |d: Device| opt_view(d.syspath) == Some(p)
}

/// The predicate a device-number lookup resolves with.
pub open spec fn by_devnum(kind: DeviceKind, num: u64) -> spec_fn(Device) -> bool {
    |d: Device| d.kind == kind && d.devnum == num
}

/// The predicate a subsystem/sysname lookup resolves with.
pub open spec fn by_subsystem_sysname(s: Seq<char>, n: Seq<char>) -> spec_fn(Device) -> bool {
    |d: Device| opt_view(d.subsystem) == Some(s) && opt_view(d.sysname) == Some(n)
}

impl Context {
    /// A new context with an empty device table. In the model,
    /// construction always succeeds; an embedding whose backend fails to
    /// allocate the native root reports the allocation error instead.
    pub fn new() -> (r: Result<Context, Error>)
        ensures
            r is Ok,
            r->Ok_0.devices@ == Seq::<Device>::empty(),
    {
        Ok(Context { devices: Vec::new() })
    }

    /// Appends one device record to the table; the embedding calls this
    /// in the backend's dependency order, parents before children.
    pub fn add_device(&mut self, d: Device)
        ensures
            final(self).devices@ == old(self).devices@.push(d),
    {
        self.devices.push(d);
    }

    /// A duplicate of the context, standing for one more counted
    /// reference to the root resource; either value may be dropped first.
    pub fn duplicate(&self) -> (r: Context)
        ensures
            devs_like(r.devices@, self.devices@),
    {
        let mut devs: Vec<Device> = Vec::new();
        let mut i: usize = 0;
        while i < self.devices.len()
            invariant
                i <= self.devices@.len(),
                devs@.len() == i,
                forall|j: int| 0 <= j < i ==> dev_like(devs@[j], self.devices@[j]),
            decreases self.devices@.len() - i,
        {
            devs.push(self.devices[i].duplicate());
            i += 1;
        }
        Context { devices: devs }
    }

    /// Looks a device up by its syspath. An unencodable path is the
    /// invalid-argument error; an unknown path is the allocation error,
    /// as for every lookup the backend answers with a null handle.
    pub fn device_from_syspath(&self, syspath: &str) -> (r: Result<Device, Error>)
        ensures
            !nul_free(syspath@) ==> r is Err && r->Err_0.errno == EINVAL,
            nul_free(syspath@) ==> match find_first(self.devices@, by_syspath(syspath@)) {
                Some(d) => r is Ok && dev_like(r->Ok_0, d),
                None => r is Err && r->Err_0.errno == ENOMEM,
            },
    {
        if let Err(e) = check_encodable(syspath) {
            return Err(e);
        }
        let n = self.devices.len();
        let mut i: usize = 0;
        while i < n
            invariant
                i <= n,
                n == self.devices@.len(),
                nul_free(syspath@),
                forall|j: int| 0 <= j < i ==> !by_syspath(syspath@)(self.devices@[j]),
            decreases n - i,
        {
            if opt_is(&self.devices[i].syspath, syspath) {
                proof {
                    lemma_find_first_found(self.devices@, by_syspath(syspath@), i as int);
                }
                return Ok(self.devices[i].duplicate());
            }
            i += 1;
        }
        proof {
            lemma_find_first_none(self.devices@, by_syspath(syspath@));
        }
        Err(alloc_error())
    }

    /// Looks a device up by kind and major/minor number, packing the pair
    /// with [`encode_devnum`]. An unknown pair is the allocation error.
    pub fn device_from_devnum(&self, kind: DeviceKind, major: u32, minor: u32) -> (r: Result<
        Device,
        Error,
    >)
        ensures
            match find_first(self.devices@, by_devnum(kind, spec_encode_devnum(major, minor))) {
                Some(d) => r is Ok && dev_like(r->Ok_0, d),
                None => r is Err && r->Err_0.errno == ENOMEM,
            },
    {
        let num = encode_devnum(major, minor);
        let n = self.devices.len();
        let mut i: usize = 0;
        while i < n
            invariant
                i <= n,
                n == self.devices@.len(),
                num == spec_encode_devnum(major, minor),
                forall|j: int| 0 <= j < i ==> !by_devnum(kind, num)(self.devices@[j]),
            decreases n - i,
        {
            let d = &self.devices[i];
            if d.devnum == num && kind_eq(d.kind, kind) {
                proof {
                    lemma_find_first_found(self.devices@, by_devnum(kind, num), i as int);
                }
                return Ok(self.devices[i].duplicate());
            }
            i += 1;
        }
        proof {
            lemma_find_first_none(self.devices@, by_devnum(kind, num));
        }
        Err(alloc_error())
    }

    /// Looks a device up by subsystem and sysname. An unencodable string
    /// is the invalid-argument error; an unknown combination is the
    /// allocation error.
    pub fn device_from_subsystem_sysname(&self, subsystem: &str, sysname: &str) -> (r: Result<
        Device,
        Error,
    >)
        ensures
            !(nul_free(subsystem@) && nul_free(sysname@)) ==> r is Err && r->Err_0.errno
                == EINVAL,
            nul_free(subsystem@) && nul_free(sysname@) ==> match find_first(
                self.devices@,
                by_subsystem_sysname(subsystem@, sysname@),
            ) {
                Some(d) => r is Ok && dev_like(r->Ok_0, d),
                None => r is Err && r->Err_0.errno == ENOMEM,
            },
    {
        if let Err(e) = check_encodable(subsystem) {
            return Err(e);
        }
        if let Err(e) = check_encodable(sysname) {
            return Err(e);
        }
        let n = self.devices.len();
        let mut i: usize = 0;
        while i < n
            invariant
                i <= n,
                n == self.devices@.len(),
                nul_free(subsystem@),
                nul_free(sysname@),
                forall|j: int|
                    0 <= j < i ==> !by_subsystem_sysname(subsystem@, sysname@)(self.devices@[j]),
            decreases n - i,
        {
            let d = &self.devices[i];
            if opt_is(&d.subsystem, subsystem) && opt_is(&d.sysname, sysname) {
                proof {
                    lemma_find_first_found(
                        self.devices@,
                        by_subsystem_sysname(subsystem@, sysname@),
                        i as int,
                    );
                }
                return Ok(self.devices[i].duplicate());
            }
            i += 1;
        }
        proof {
            lemma_find_first_none(self.devices@, by_subsystem_sysname(subsystem@, sysname@));
        }
        Err(alloc_error())
    }
}

/// Decides equality of two device kinds.
fn kind_eq(a: DeviceKind, b: DeviceKind) -> (r: bool)
    ensures
        r == (a == b),
{
    match (a, b) {
        (DeviceKind::Character, DeviceKind::Character) => true,
        (DeviceKind::Block, DeviceKind::Block) => true,
        _ => false,
    }
}

} // verus!
