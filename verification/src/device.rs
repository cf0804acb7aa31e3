//! The record type for one node of the device tree.
//!
//! A device is a plain record of what the backend reports for one node:
//! identity paths, subsystem and name, numbers, init state, properties,
//! attributes, tags and the parent chain. An embedding fills records from
//! the native database; every read rule — the absent-not-error policy, the
//! zero sentinel of the device number, the numeric-suffix parse of the
//! instance number, the silent-absent policy for unencodable keys — is
//! stated and proved here.

use vstd::prelude::*;
use vstd::string::*;

use crate::error::{Error, EINVAL};
use crate::util::{
    check_encodable, clone_attr_pairs, clone_opt_string, clone_pairs, clone_strings, is_nul_free,
    nul_free, opt_view, str_eq,
};

verus! {

/// Whether a device registers in the block or the character number space.
#[derive(Clone, Copy, Debug, PartialEq, Eq, Structural)]
pub enum DeviceKind {
    /// A character device.
    Character,
    /// A block device.
    Block,
}

/// One node of the device tree, as a plain record.
///
/// Every owning `Device` value stands for one counted reference to the
/// root resource (see [`crate::handle`]); as a self-contained record it
/// remains valid after the `Context` it was read from is gone.
#[derive(Debug)]
pub struct Device {
    /// Absolute path of the device inside the device-tree filesystem.
    pub syspath: Option<String>,
    /// Kernel path of the device, without the filesystem mount prefix.
    pub devpath: Option<String>,
    /// Path of the special file through which the device is accessed.
    pub devnode: Option<String>,
    /// Kernel subsystem the device belongs to.
    pub subsystem: Option<String>,
    /// Kernel name distinguishing the device within its subsystem.
    pub sysname: Option<String>,
    /// Devtype name of the device.
    pub devtype: Option<String>,
    /// Name of the kernel driver attached to the device.
    pub driver: Option<String>,
    /// Packed device number; zero is the sentinel for "none".
    pub devnum: u64,
    /// Sequence number stamped by the event source; zero outside events.
    pub seqnum: u64,
    /// Which device-number space the device registers in.
    pub kind: DeviceKind,
    /// Backend init state, meaningful only with a node or interface.
    pub initialized: bool,
    /// Whether the device has a node or network interface at all.
    pub has_node_or_interface: bool,
    /// Key/value pairs resolved by the backend, value always present.
    pub properties: Vec<(String, String)>,
    /// Attribute names with their values; a value may be unreadable.
    pub attributes: Vec<(String, Option<String>)>,
    /// Tags attached to the device.
    pub tags: Vec<String>,
    /// Parent device; absent for root devices.
    pub parent: Option<Box<Device>>,
}

/// Whether two device records carry the same data, parent chain included.
pub open spec fn dev_like(a: Device, b: Device) -> bool
    decreases a,
{
    &&& a.syspath == b.syspath
    &&& a.devpath == b.devpath
    &&& a.devnode == b.devnode
    &&& a.subsystem == b.subsystem
    &&& a.sysname == b.sysname
    &&& a.devtype == b.devtype
    &&& a.driver == b.driver
    &&& a.devnum == b.devnum
    &&& a.seqnum == b.seqnum
    &&& a.kind == b.kind
    &&& a.initialized == b.initialized
    &&& a.has_node_or_interface == b.has_node_or_interface
    &&& a.properties@ == b.properties@
    &&& a.attributes@ == b.attributes@
    &&& a.tags@ == b.tags@
    &&& match (a.parent, b.parent) {
        (Some(pa), Some(pb)) => dev_like(*pa, *pb),
        (None, None) => true,
        _ => false,
    }
}

/// Elementwise [`dev_like`] over two device sequences.
pub open spec fn devs_like(a: Seq<Device>, b: Seq<Device>) -> bool {
    a.len() == b.len() && forall|i: int| 0 <= i < a.len() ==> dev_like(a[i], b[i])
}

/// The first value listed for `key`, or absent when no pair carries it.
pub open spec fn prop_lookup(ps: Seq<(String, String)>, key: Seq<char>) -> Option<Seq<char>>
    decreases ps.len(),
{
    if ps.len() == 0 {
        None
    } else if ps[0].0@ == key {
        Some(ps[0].1@)
    } else {
        prop_lookup(ps.drop_first(), key)
    }
}

/// The value of the first attribute listed under `key`: absent when no
/// pair carries the key or when the listed value is unreadable.
pub open spec fn attr_lookup(
    ps: Seq<(String, Option<String>)>,
    key: Seq<char>,
) -> Option<Seq<char>>
    decreases ps.len(),
{
    if ps.len() == 0 {
        None
    } else if ps[0].0@ == key {
        opt_view(ps[0].1)
    } else {
        attr_lookup(ps.drop_first(), key)
    }
}

/// Whether one of the tags holds exactly the given characters.
pub open spec fn has_tag(tags: Seq<String>, t: Seq<char>) -> bool {
    exists|i: int| 0 <= i < tags.len() && tags[i]@ == t
}

/// Decides whether one of the tags holds exactly the given characters.
pub(crate) fn has_tag_exec(tags: &Vec<String>, t: &str) -> (r: bool)
    ensures
        r == has_tag(tags@, t@),
{
    let n = tags.len();
    let mut i: usize = 0;
    while i < n
        invariant
            i <= n,
            n == tags@.len(),
            forall|j: int| 0 <= j < i ==> tags@[j]@ != t@,
        decreases n - i,
    {
        if str_eq(tags[i].as_str(), t) {
            return true;
        }
        i += 1;
    }
    false
}

/// What `is_initialized` reports: unconditionally true for device classes
/// without a node or interface concept, the backend init state otherwise.
pub open spec fn spec_initialized(d: Device) -> bool {
    !d.has_node_or_interface || d.initialized
}

/// Whether `d` is the device at `syspath` or lies in its subtree, judged
/// along the parent chain.
pub open spec fn in_subtree(d: Device, syspath: Seq<char>) -> bool
    decreases d,
{
    ||| opt_view(d.syspath) == Some(syspath)
    ||| match d.parent {
        Some(p) => in_subtree(*p, syspath),
        None => false,
    }
}

/// Subtree membership depends only on a record's data: records alike in
/// every field lie in the same subtrees.
pub proof fn lemma_in_subtree_respects_like(a: Device, b: Device, syspath: Seq<char>)
    requires
        dev_like(a, b),
    ensures
        in_subtree(a, syspath) == in_subtree(b, syspath),
    decreases a,
{
    match (a.parent, b.parent) {
        (Some(pa), Some(pb)) => {
            lemma_in_subtree_respects_like(*pa, *pb, syspath);
        },
        _ => {},
    }
}

/// Whether an optional borrowed string reports the same content as the
/// optional owned field it was read from.
pub open spec fn opt_str_matches(r: Option<&str>, o: Option<String>) -> bool {
    match (r, o) {
        (Some(rs), Some(os)) => rs@ == os@,
        (None, None) => true,
        _ => false,
    }
}

pub(crate) proof fn lemma_prop_lookup_found(ps: Seq<(String, String)>, key: Seq<char>, i: int)
    requires
        0 <= i < ps.len(),
        ps[i].0@ == key,
        forall|j: int| 0 <= j < i ==> ps[j].0@ != key,
    ensures
        prop_lookup(ps, key) == Some(ps[i].1@),
    decreases i,
{
    if i > 0 {
        lemma_prop_lookup_found(ps.drop_first(), key, i - 1);
    }
}

pub(crate) proof fn lemma_prop_lookup_none(ps: Seq<(String, String)>, key: Seq<char>)
    requires
        forall|j: int| 0 <= j < ps.len() ==> ps[j].0@ != key,
    ensures
        prop_lookup(ps, key) is None,
    decreases ps.len(),
{
    if ps.len() > 0 {
        lemma_prop_lookup_none(ps.drop_first(), key);
    }
}

pub(crate) proof fn lemma_attr_lookup_found(ps: Seq<(String, Option<String>)>, key: Seq<char>, i: int)
    requires
        0 <= i < ps.len(),
        ps[i].0@ == key,
        forall|j: int| 0 <= j < i ==> ps[j].0@ != key,
    ensures
        attr_lookup(ps, key) == opt_view(ps[i].1),
    decreases i,
{
    if i > 0 {
        lemma_attr_lookup_found(ps.drop_first(), key, i - 1);
    }
}

pub(crate) proof fn lemma_attr_lookup_none(ps: Seq<(String, Option<String>)>, key: Seq<char>)
    requires
        forall|j: int| 0 <= j < ps.len() ==> ps[j].0@ != key,
    ensures
        attr_lookup(ps, key) is None,
    decreases ps.len(),
{
    if ps.len() > 0 {
        lemma_attr_lookup_none(ps.drop_first(), key);
    }
}

proof fn lemma_attr_lookup_agrees(
    ps: Seq<(String, Option<String>)>,
    qs: Seq<(String, Option<String>)>,
    ex: Seq<char>,
)
    requires
        ps.len() == qs.len(),
        forall|j: int| 0 <= j < ps.len() ==> ps[j].0@ == qs[j].0@,
        forall|j: int|
            0 <= j < ps.len() && ps[j].0@ != ex ==> opt_view(ps[j].1) == opt_view(qs[j].1),
    ensures
        forall|k: Seq<char>| k != ex ==> attr_lookup(ps, k) == attr_lookup(qs, k),
    decreases ps.len(),
{
    if ps.len() > 0 {
        assert forall|j: int| 0 <= j < ps.drop_first().len() implies ps.drop_first()[j].0@
            == qs.drop_first()[j].0@ by {
            assert(ps.drop_first()[j] == ps[j + 1]);
            assert(qs.drop_first()[j] == qs[j + 1]);
        }
        assert forall|j: int|
            0 <= j < ps.drop_first().len() && ps.drop_first()[j].0@ != ex implies opt_view(
            ps.drop_first()[j].1,
        ) == opt_view(qs.drop_first()[j].1) by {
            assert(ps.drop_first()[j] == ps[j + 1]);
            assert(qs.drop_first()[j] == qs[j + 1]);
        }
        lemma_attr_lookup_agrees(ps.drop_first(), qs.drop_first(), ex);
        assert forall|k: Seq<char>| k != ex implies attr_lookup(ps, k) == attr_lookup(qs, k) by {
            assert(ps[0].0@ == qs[0].0@);
            if ps[0].0@ == k {
                assert(opt_view(ps[0].1) == opt_view(qs[0].1));
            } else {
                assert(attr_lookup(ps, k) == attr_lookup(ps.drop_first(), k));
                assert(attr_lookup(qs, k) == attr_lookup(qs.drop_first(), k));
            }
        }
    }
}

proof fn lemma_attr_lookup_push_other(
    ps: Seq<(String, Option<String>)>,
    p: (String, Option<String>),
    k: Seq<char>,
)
    requires
        p.0@ != k,
    ensures
        attr_lookup(ps.push(p), k) == attr_lookup(ps, k),
    decreases ps.len(),
{
    if ps.len() == 0 {
        assert(ps.push(p)[0] == p);
        assert(ps.push(p).drop_first() =~= Seq::<(String, Option<String>)>::empty());
        assert(attr_lookup(ps.push(p), k) == attr_lookup(ps.push(p).drop_first(), k));
    } else {
        assert(ps.push(p)[0] == ps[0]);
        assert(ps.push(p).drop_first() =~= ps.drop_first().push(p));
        lemma_attr_lookup_push_other(ps.drop_first(), p, k);
        if ps[0].0@ != k {
            assert(attr_lookup(ps.push(p), k) == attr_lookup(ps.drop_first().push(p), k));
            assert(attr_lookup(ps, k) == attr_lookup(ps.drop_first(), k));
        }
    }
}

/// Whether the trailing character is a decimal digit.
pub open spec fn is_digit(c: char) -> bool {
    48 <= c as int && c as int <= 57
}

/// Decides whether the character at `i` is a decimal digit.
fn is_digit_at(s: &str, i: usize) -> (r: bool)
    requires
        i < s@.len(),
    ensures
        r == is_digit(s@[i as int]),
{
    let c = s.get_char(i);
    (c as u32) >= 48 && (c as u32) <= 57
}

/// The index where the trailing run of decimal digits starts; the length
/// of the string when it does not end in a digit.
pub open spec fn suffix_start(s: Seq<char>) -> int
    decreases s.len(),
{
    if s.len() == 0 {
        0
    } else if !is_digit(s[s.len() - 1]) {
        s.len() as int
    } else {
        suffix_start(s.drop_last())
    }
}

/// The number a run of decimal digits denotes, most significant first.
pub open spec fn digits_value(s: Seq<char>) -> int
    decreases s.len(),
{
    if s.len() == 0 {
        0
    } else {
        digits_value(s.drop_last()) * 10 + (s[s.len() - 1] as int - 48)
    }
}

proof fn lemma_suffix_start_bounds(s: Seq<char>)
    ensures
        0 <= suffix_start(s) <= s.len(),
        forall|j: int| suffix_start(s) <= j < s.len() ==> is_digit(s[j]),
    decreases s.len(),
{
    if s.len() > 0 && is_digit(s[s.len() - 1]) {
        lemma_suffix_start_bounds(s.drop_last());
        assert forall|j: int| suffix_start(s) <= j < s.len() implies is_digit(s[j]) by {
            if j < s.len() - 1 {
                assert(s.drop_last()[j] == s[j]);
            }
        }
    }
}

proof fn lemma_digits_value_nonneg(s: Seq<char>)
    requires
        forall|j: int| 0 <= j < s.len() ==> is_digit(s[j]),
    ensures
        digits_value(s) >= 0,
    decreases s.len(),
{
    if s.len() > 0 {
        assert forall|j: int| 0 <= j < s.drop_last().len() implies is_digit(
            s.drop_last()[j],
        ) by {
            assert(s.drop_last()[j] == s[j]);
        }
        lemma_digits_value_nonneg(s.drop_last());
    }
}

proof fn lemma_digits_value_monotone(s: Seq<char>, m: int)
    requires
        forall|j: int| 0 <= j < s.len() ==> is_digit(s[j]),
        0 <= m <= s.len(),
    ensures
        digits_value(s) >= digits_value(s.take(m)),
    decreases s.len() - m,
{
    if m < s.len() {
        assert(s.take(m + 1).drop_last() =~= s.take(m));
        assert(s.take(m + 1)[m] == s[m]);
        assert forall|j: int| 0 <= j < s.take(m).len() implies is_digit(s.take(m)[j]) by {
            assert(s.take(m)[j] == s[j]);
        }
        lemma_digits_value_nonneg(s.take(m));
        assert(digits_value(s.take(m + 1)) == digits_value(s.take(m)) * 10 + (s[m] as int - 48));
        lemma_digits_value_monotone(s, m + 1);
    } else {
        assert(s.take(m) =~= s);
    }
}

impl Device {
    /// An empty record: every field absent, numbers zero, lists empty.
    pub fn new() -> (r: Device)
        ensures
            r.syspath is None,
            r.devpath is None,
            r.devnode is None,
            r.subsystem is None,
            r.sysname is None,
            r.devtype is None,
            r.driver is None,
            r.devnum == 0,
            r.seqnum == 0,
            r.kind == DeviceKind::Character,
            !r.initialized,
            !r.has_node_or_interface,
            r.properties@ == Seq::<(String, String)>::empty(),
            r.attributes@ == Seq::<(String, Option<String>)>::empty(),
            r.tags@ == Seq::<String>::empty(),
            r.parent is None,
    {
        Device {
            syspath: None,
            devpath: None,
            devnode: None,
            subsystem: None,
            sysname: None,
            devtype: None,
            driver: None,
            devnum: 0,
            seqnum: 0,
            kind: DeviceKind::Character,
            initialized: false,
            has_node_or_interface: false,
            properties: Vec::new(),
            attributes: Vec::new(),
            tags: Vec::new(),
            parent: None,
        }
    }

    /// Looks the device at `syspath` up in the context's table; the
    /// record is its own value and outlives the context. An unencodable
    /// path is the invalid-argument error and an unknown path the
    /// allocation error.
    pub fn from_syspath(context: &crate::context::Context, syspath: &str) -> (r: Result<
        Device,
        Error,
    >)
        ensures
            !nul_free(syspath@) ==> r is Err && r->Err_0.errno == EINVAL,
            nul_free(syspath@) ==> match crate::context::find_first(
                context.devices@,
                crate::context::by_syspath(syspath@),
            ) {
                Some(d) => r is Ok && dev_like(r->Ok_0, d),
                None => r is Err && r->Err_0.errno == crate::error::ENOMEM,
            },
    {
        context.device_from_syspath(syspath)
    }

    /// A copy of this record, like the original in every field.
    pub fn duplicate(&self) -> (r: Device)
        ensures
            dev_like(r, *self),
        decreases *self,
    {
        Device {
            syspath: clone_opt_string(&self.syspath),
            devpath: clone_opt_string(&self.devpath),
            devnode: clone_opt_string(&self.devnode),
            subsystem: clone_opt_string(&self.subsystem),
            sysname: clone_opt_string(&self.sysname),
            devtype: clone_opt_string(&self.devtype),
            driver: clone_opt_string(&self.driver),
            devnum: self.devnum,
            seqnum: self.seqnum,
            kind: self.kind,
            initialized: self.initialized,
            has_node_or_interface: self.has_node_or_interface,
            properties: clone_pairs(&self.properties),
            attributes: clone_attr_pairs(&self.attributes),
            tags: clone_strings(&self.tags),
            parent: match &self.parent {
                Some(b) => Some(Box::new(b.duplicate())),
                None => None,
            },
        }
    }

    /// The syspath of the device, absent when the backend reports none.
    pub fn syspath(&self) -> (r: Option<&str>)
        ensures
            opt_str_matches(r, self.syspath),
    {
        match &self.syspath {
            Some(s) => Some(s.as_str()),
            None => None,
        }
    }

    /// The kernel devpath value of the device.
    pub fn devpath(&self) -> (r: Option<&str>)
        ensures
            opt_str_matches(r, self.devpath),
    {
        match &self.devpath {
            Some(s) => Some(s.as_str()),
            None => None,
        }
    }

    /// The path to the device node belonging to the device.
    pub fn devnode(&self) -> (r: Option<&str>)
        ensures
            opt_str_matches(r, self.devnode),
    {
        match &self.devnode {
            Some(s) => Some(s.as_str()),
            None => None,
        }
    }

    /// The subsystem name of the device.
    pub fn subsystem(&self) -> (r: Option<&str>)
        ensures
            opt_str_matches(r, self.subsystem),
    {
        match &self.subsystem {
            Some(s) => Some(s.as_str()),
            None => None,
        }
    }

    /// The kernel device name of the device.
    pub fn sysname(&self) -> (r: Option<&str>)
        ensures
            opt_str_matches(r, self.sysname),
    {
        match &self.sysname {
            Some(s) => Some(s.as_str()),
            None => None,
        }
    }

    /// The devtype name of the device.
    pub fn devtype(&self) -> (r: Option<&str>)
        ensures
            opt_str_matches(r, self.devtype),
    {
        match &self.devtype {
            Some(s) => Some(s.as_str()),
            None => None,
        }
    }

    /// The name of the kernel driver attached to the device.
    pub fn driver(&self) -> (r: Option<&str>)
        ensures
            opt_str_matches(r, self.driver),
    {
        match &self.driver {
            Some(s) => Some(s.as_str()),
            None => None,
        }
    }

    /// The packed device number, absent when the backend reports the zero
    /// sentinel.
    pub fn devnum(&self) -> (r: Option<u64>)
        ensures
            self.devnum == 0 ==> r is None,
            self.devnum != 0 ==> r == Some(self.devnum),
    {
        if self.devnum == 0 {
            None
        } else {
            Some(self.devnum)
        }
    }

    /// Whether the backend has finished initializing the device; true
    /// unconditionally for device classes without a node or interface.
    pub fn is_initialized(&self) -> (r: bool)
        ensures
            r == spec_initialized(*self),
    {
        !self.has_node_or_interface || self.initialized
    }

    /// The parent of the device, re-derived on every call; absent for
    /// root devices.
    pub fn parent(&self) -> (r: Option<Device>)
        ensures
            r is Some <==> self.parent is Some,
            r is Some ==> dev_like(r->Some_0, *self.parent->Some_0),
    {
        match &self.parent {
            Some(b) => Some(b.duplicate()),
            None => None,
        }
    }

    /// The instance number of the device: the trailing decimal digits of
    /// the sysname, absent when there are none, when the sysname itself is
    /// absent, or when the number does not fit the platform.
    pub fn sysnum(&self) -> (r: Option<usize>)
        ensures
            match self.sysname {
                None => r is None,
                Some(name) => {
                    let tail = name@.subrange(suffix_start(name@), name@.len() as int);
                    if tail.len() == 0 {
                        r is None
                    } else if digits_value(tail) > usize::MAX {
                        r is None
                    } else {
                        r == Some(digits_value(tail) as usize)
                    }
                },
            },
    {
        let name = match &self.sysname {
            Some(s) => s.as_str(),
            None => { return None; },
        };
        let n = name.unicode_len();
        let mut start: usize = n;
        proof {
            lemma_suffix_start_bounds(name@);
            assert(name@.take(n as int) =~= name@);
        }
        while start > 0 && is_digit_at(name, start - 1)
            invariant
                start <= n,
                n == name@.len(),
                forall|j: int| start <= j < n ==> is_digit(name@[j]),
                suffix_start(name@) == suffix_start(name@.take(start as int)),
            decreases start,
        {
            proof {
                let t = name@.take(start as int);
                assert(t[t.len() - 1] == name@[start - 1]);
                assert(t.drop_last() =~= name@.take(start - 1));
            }
            start = start - 1;
        }
        proof {
            if start == 0 {
                assert(name@.take(0) =~= Seq::<char>::empty());
            } else {
                let t = name@.take(start as int);
                assert(t[t.len() - 1] == name@[start - 1]);
            }
            assert(suffix_start(name@) == start as int);
        }
        let ghost tail = name@.subrange(start as int, n as int);
        if start == n {
            proof {
                assert(tail.len() == 0);
            }
            return None;
        }
        let mut val: usize = 0;
        let mut m: usize = start;
        proof {
            assert(tail.take(0) =~= Seq::<char>::empty());
        }
        while m < n
            invariant
                start <= m <= n,
                n == name@.len(),
                self.sysname is Some,
                name@ == self.sysname->Some_0@,
                suffix_start(name@) == start as int,
                tail == name@.subrange(start as int, n as int),
                forall|j: int| start <= j < n ==> is_digit(name@[j]),
                val == digits_value(tail.take(m - start)),
            decreases n - m,
        {
            let c = name.get_char(m);
            proof {
                assert(tail[m - start] == name@[m as int]);
            }
            let d: usize = ((c as u32) - 48) as usize;
            proof {
                vstd::arithmetic::div_mod::lemma_fundamental_div_mod(
                    usize::MAX as int - d,
                    10,
                );
                vstd::arithmetic::div_mod::lemma_mod_bound(usize::MAX as int - d, 10);
            }
            if val > (usize::MAX - d) / 10 {
                proof {
                    let done = tail.take(m - start);
                    let next = tail.take(m + 1 - start);
                    assert(next.drop_last() =~= done);
                    assert(next[next.len() - 1] == tail[m - start]);
                    assert(digits_value(next) == val * 10 + d);
                    let q = (usize::MAX as int - d) / 10;
                    assert(val * 10 >= (q + 1) * 10) by (nonlinear_arith)
                        requires
                            val >= q + 1,
                    ;
                    assert(val * 10 + d > usize::MAX);
                    assert forall|j: int| 0 <= j < tail.len() implies is_digit(tail[j]) by {
                        assert(tail[j] == name@[start + j]);
                    }
                    lemma_digits_value_monotone(tail, m + 1 - start);
                    assert(digits_value(tail) > usize::MAX);
                }
                return None;
            }
            proof {
                let done = tail.take(m - start);
                let next = tail.take(m + 1 - start);
                assert(next.drop_last() =~= done);
                assert(next[next.len() - 1] == tail[m - start]);
                let q = (usize::MAX as int - d) / 10;
                assert(val * 10 <= q * 10) by (nonlinear_arith)
                    requires
                        val <= q,
                ;
                assert(val * 10 + d <= usize::MAX);
                assert(digits_value(next) == val * 10 + d);
            }
            val = val * 10 + d;
            m = m + 1;
        }
        proof {
            assert(tail.take(n - start) =~= tail);
        }
        Some(val)
    }

    /// The value of a device property: absent when the key is unknown and,
    /// silently, when the key cannot be encoded for the backend.
    pub fn property_value(&self, property: &str) -> (r: Option<&str>)
        ensures
            !nul_free(property@) ==> r is None,
            nul_free(property@) ==> opt_str_view(r) == prop_lookup(self.properties@, property@),
    {
        if !is_nul_free(property) {
            return None;
        }
        let n = self.properties.len();
        let mut i: usize = 0;
        while i < n
            invariant
                i <= n,
                n == self.properties@.len(),
                nul_free(property@),
                forall|j: int| 0 <= j < i ==> self.properties@[j].0@ != property@,
            decreases n - i,
        {
            if str_eq(self.properties[i].0.as_str(), property) {
                proof {
                    lemma_prop_lookup_found(self.properties@, property@, i as int);
                }
                return Some(self.properties[i].1.as_str());
            }
            i += 1;
        }
        proof {
            lemma_prop_lookup_none(self.properties@, property@);
        }
        None
    }

    /// The value of a device attribute: absent when the key is unknown,
    /// when the listed value is unreadable and, silently, when the key
    /// cannot be encoded for the backend.
    pub fn attribute_value(&self, attribute: &str) -> (r: Option<&str>)
        ensures
            !nul_free(attribute@) ==> r is None,
            nul_free(attribute@) ==> opt_str_view(r) == attr_lookup(self.attributes@, attribute@),
    {
        if !is_nul_free(attribute) {
            return None;
        }
        let n = self.attributes.len();
        let mut i: usize = 0;
        while i < n
            invariant
                i <= n,
                n == self.attributes@.len(),
                nul_free(attribute@),
                forall|j: int| 0 <= j < i ==> self.attributes@[j].0@ != attribute@,
            decreases n - i,
        {
            if str_eq(self.attributes[i].0.as_str(), attribute) {
                proof {
                    lemma_attr_lookup_found(self.attributes@, attribute@, i as int);
                }
                return match &self.attributes[i].1 {
                    Some(v) => Some(v.as_str()),
                    None => None,
                };
            }
            i += 1;
        }
        proof {
            lemma_attr_lookup_none(self.attributes@, attribute@);
        }
        None
    }

    /// Writes a device attribute. An unencodable name or value is the
    /// invalid-argument error — unlike reads, which stay silently absent —
    /// and on success the first attribute listed under the name carries
    /// the new value while every other key reads as before.
    pub fn set_attribute_value(&mut self, attribute: &str, value: &str) -> (r: Result<(), Error>)
        ensures
            r is Ok <==> nul_free(attribute@) && nul_free(value@),
            r is Err ==> r->Err_0.errno == EINVAL && final(self).attributes@ == old(
                self,
            ).attributes@,
            r is Ok ==> attr_lookup(final(self).attributes@, attribute@) == Some(value@),
            r is Ok ==> forall|k: Seq<char>|
                k != attribute@ ==> attr_lookup(final(self).attributes@, k) == attr_lookup(
                    old(self).attributes@,
                    k,
                ),
            final(self).syspath == old(self).syspath,
            final(self).properties == old(self).properties,
            final(self).tags == old(self).tags,
            final(self).parent == old(self).parent,
    {
        if let Err(e) = check_encodable(attribute) {
            return Err(e);
        }
        if let Err(e) = check_encodable(value) {
            return Err(e);
        }
        let n = self.attributes.len();
        let mut i: usize = 0;
        while i < n
            invariant
                i <= n,
                n == self.attributes@.len(),
                nul_free(attribute@),
                nul_free(value@),
                *self == *old(self),
                forall|j: int| 0 <= j < i ==> self.attributes@[j].0@ != attribute@,
            decreases n - i,
        {
            if str_eq(self.attributes[i].0.as_str(), attribute) {
                let ghost before = self.attributes@;
                let pair = (attribute.to_owned(), Some(value.to_owned()));
                self.attributes.set(i, pair);
                proof {
                    let after = self.attributes@;
                    assert(after == before.update(i as int, after[i as int]));
                    lemma_attr_lookup_found(after, attribute@, i as int);
                    assert forall|j: int| 0 <= j < before.len() implies before[j].0@
                        == after[j].0@ by {}
                    lemma_attr_lookup_agrees(after, before, attribute@);
                }
                return Ok(());
            }
            i += 1;
        }
        let ghost before = self.attributes@;
        let pair = (attribute.to_owned(), Some(value.to_owned()));
        self.attributes.push(pair);
        proof {
            let after = self.attributes@;
            assert(after == before.push(after[after.len() - 1]));
            lemma_attr_lookup_found(after, attribute@, before.len() as int);
            assert forall|k: Seq<char>| k != attribute@ implies attr_lookup(after, k)
                == attr_lookup(before, k) by {
                lemma_attr_lookup_push_other(before, after[after.len() - 1], k);
            }
        }
        Ok(())
    }

    /// A fresh iterator over the device's properties; repeated calls build
    /// independent iterators.
    pub fn properties(&self) -> (r: Properties)
        ensures
            r.entries@ == self.properties@,
    {
        Properties { entries: clone_pairs(&self.properties) }
    }

    /// A fresh iterator over the device's attributes; repeated calls build
    /// independent iterators.
    pub fn attributes(&self) -> (r: Attributes)
        ensures
            r.entries@ == self.attributes@,
    {
        Attributes { entries: clone_attr_pairs(&self.attributes) }
    }
}

/// The view a borrowed optional string reports.
pub open spec fn opt_str_view(r: Option<&str>) -> Option<Seq<char>> {
    match r {
        Some(s) => Some(s@),
        None => None,
    }
}

/// A forward-only, single-pass iterator over a device's properties.
pub struct Properties {
    /// The pairs not yet yielded, front first.
    pub entries: Vec<(String, String)>,
}

/// One property: a name together with its resolved value.
pub struct Property {
    /// The property name.
    pub name: String,
    /// The property value, resolved at traversal time.
    pub value: String,
}

impl Property {
    /// The property name.
    pub fn name(&self) -> (r: &str)
        ensures
            r@ == self.name@,
    {
        self.name.as_str()
    }

    /// The property value.
    pub fn value(&self) -> (r: &str)
        ensures
            r@ == self.value@,
    {
        self.value.as_str()
    }
}

impl Properties {
    /// The next property, or absent once the traversal is exhausted; an
    /// exhausted iterator stays exhausted.
    pub fn next(&mut self) -> (r: Option<Property>)
        ensures
            old(self).entries@.len() == 0 ==> r is None && final(self).entries == old(
                self,
            ).entries,
            old(self).entries@.len() > 0 ==> {
                &&& r is Some
                &&& (r->Some_0).name == old(self).entries@[0].0
                &&& (r->Some_0).value == old(self).entries@[0].1
                &&& final(self).entries@ == old(self).entries@.drop_first()
            },
    {
        if self.entries.len() == 0 {
            None
        } else {
            let (name, value) = self.entries.remove(0);
            proof {
                assert(old(self).entries@.drop_first() =~= old(self).entries@.remove(0));
            }
            Some(Property { name, value })
        }
    }
}

/// A forward-only, single-pass iterator over a device's attributes.
pub struct Attributes {
    /// The pairs not yet yielded, front first.
    pub entries: Vec<(String, Option<String>)>,
}

/// One attribute: a name together with the value listed for it, which may
/// be unreadable.
pub struct Attribute {
    /// The attribute name.
    pub name: String,
    /// The attribute value, absent when unreadable.
    pub value: Option<String>,
}

impl Attribute {
    /// The attribute name.
    pub fn name(&self) -> (r: &str)
        ensures
            r@ == self.name@,
    {
        self.name.as_str()
    }

    /// The attribute value, absent when unreadable.
    pub fn value(&self) -> (r: Option<&str>)
        ensures
            opt_str_matches(r, self.value),
    {
        match &self.value {
            Some(s) => Some(s.as_str()),
            None => None,
        }
    }
}

impl Attributes {
    /// The next attribute, or absent once the traversal is exhausted; an
    /// exhausted iterator stays exhausted.
    pub fn next(&mut self) -> (r: Option<Attribute>)
        ensures
            old(self).entries@.len() == 0 ==> r is None && final(self).entries == old(
                self,
            ).entries,
            old(self).entries@.len() > 0 ==> {
                &&& r is Some
                &&& (r->Some_0).name == old(self).entries@[0].0
                &&& (r->Some_0).value == old(self).entries@[0].1
                &&& final(self).entries@ == old(self).entries@.drop_first()
            },
    {
        if self.entries.len() == 0 {
            None
        } else {
            let (name, value) = self.entries.remove(0);
            proof {
                assert(old(self).entries@.drop_first() =~= old(self).entries@.remove(0));
            }
            Some(Attribute { name, value })
        }
    }
}

} // verus!
