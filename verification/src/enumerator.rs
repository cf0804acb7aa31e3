//! The enumeration session: a filter set, a one-way scan, and the lazy
//! sequence of matching devices.
//!
//! Filters accumulate while the session is configuring; predicates of the
//! same kind are OR'ed together and predicates of different kinds AND'ed,
//! mirroring the native semantics exactly. `scan_devices` consumes the
//! session — after the scan the filter set is structurally immutable —
//! and yields the matching devices in table order, so a table listing
//! parents before children keeps that order in the result.

use vstd::prelude::*;

use crate::context::Context;
use crate::device::{
    attr_lookup, dev_like, devs_like, has_tag, has_tag_exec, in_subtree, lemma_attr_lookup_found,
    lemma_attr_lookup_none, lemma_prop_lookup_found, lemma_prop_lookup_none, prop_lookup,
    spec_initialized, Device,
};
use crate::error::{Error, EINVAL};
use crate::util::{check_encodable, nul_free, opt_is, opt_view, seq_pushed, str_eq};

verus! {

/// One registered predicate of an enumeration session.
pub enum Filter {
    /// Match devices of the given kernel subsystem.
    MatchSubsystem(String),
    /// Exclude devices of the given kernel subsystem.
    NomatchSubsystem(String),
    /// Match devices whose attribute carries the given value.
    MatchAttribute(String, String),
    /// Exclude devices whose attribute carries the given value.
    NomatchAttribute(String, String),
    /// Match devices with the given kernel device name.
    MatchSysname(String),
    /// Match devices whose property carries the given value.
    MatchProperty(String, String),
    /// Match devices with the given tag.
    MatchTag(String),
    /// Match the device at the given syspath and its subtree.
    MatchParent(String),
    /// Match only initialized devices.
    MatchInitialized,
}

/// The kind a filter belongs to; predicates of one kind are OR'ed.
#[derive(Clone, Copy, Debug, PartialEq, Eq, Structural)]
pub enum FilterKind {
    /// Subsystem match predicates.
    Subsystem,
    /// Subsystem exclusions.
    NomatchSubsystem,
    /// Attribute match predicates.
    Attribute,
    /// Attribute exclusions.
    NomatchAttribute,
    /// Sysname match predicates.
    Sysname,
    /// Property match predicates.
    Property,
    /// Tag match predicates.
    Tag,
    /// Parent-subtree match predicates.
    Parent,
    /// The initialized-only predicate.
    Initialized,
}

/// The kind of one filter.
pub open spec fn filter_kind(f: Filter) -> FilterKind {
    match f {
        Filter::MatchSubsystem(_) => FilterKind::Subsystem,
        Filter::NomatchSubsystem(_) => FilterKind::NomatchSubsystem,
        Filter::MatchAttribute(_, _) => FilterKind::Attribute,
        Filter::NomatchAttribute(_, _) => FilterKind::NomatchAttribute,
        Filter::MatchSysname(_) => FilterKind::Sysname,
        Filter::MatchProperty(_, _) => FilterKind::Property,
        Filter::MatchTag(_) => FilterKind::Tag,
        Filter::MatchParent(_) => FilterKind::Parent,
        Filter::MatchInitialized => FilterKind::Initialized,
    }
}

/// Whether one predicate, taken alone, hits the device.
pub open spec fn filter_hit(f: Filter, d: Device) -> bool {
    match f {
        Filter::MatchSubsystem(s) => opt_view(d.subsystem) == Some(s@),
        Filter::NomatchSubsystem(s) => opt_view(d.subsystem) == Some(s@),
        Filter::MatchAttribute(a, v) => attr_lookup(d.attributes@, a@) == Some(v@),
        Filter::NomatchAttribute(a, v) => attr_lookup(d.attributes@, a@) == Some(v@),
        Filter::MatchSysname(s) => opt_view(d.sysname) == Some(s@),
        Filter::MatchProperty(k, v) => prop_lookup(d.properties@, k@) == Some(v@),
        Filter::MatchTag(t) => has_tag(d.tags@, t@),
        Filter::MatchParent(p) => in_subtree(d, p@),
        Filter::MatchInitialized => spec_initialized(d),
    }
}

/// Whether the set holds any filter of the given kind.
pub open spec fn kind_present(fs: Seq<Filter>, k: FilterKind) -> bool {
    exists|i: int| 0 <= i < fs.len() && filter_kind(fs[i]) == k
}

/// Whether some filter of the given kind hits the device.
pub open spec fn kind_satisfied(fs: Seq<Filter>, k: FilterKind, d: Device) -> bool {
    exists|i: int| 0 <= i < fs.len() && filter_kind(fs[i]) == k && filter_hit(fs[i], d)
}

/// The OR'ed clause of one match kind: vacuous when no filter of the
/// kind was added, otherwise some filter of the kind must hit.
pub open spec fn kind_clause(fs: Seq<Filter>, k: FilterKind, d: Device) -> bool {
    kind_present(fs, k) ==> kind_satisfied(fs, k, d)
}

/// The OR'ed clause of one exclusion kind: no exclusion of the kind may
/// hit the device.
pub open spec fn nomatch_clause(fs: Seq<Filter>, k: FilterKind, d: Device) -> bool {
    forall|i: int| 0 <= i < fs.len() && filter_kind(fs[i]) == k ==> !filter_hit(fs[i], d)
}

/// The native filter semantics: predicates of the same kind are OR'ed,
/// predicates of different kinds are AND'ed.
pub open spec fn spec_matches(fs: Seq<Filter>, d: Device) -> bool {
    &&& kind_clause(fs, FilterKind::Subsystem, d)
    &&& kind_clause(fs, FilterKind::Attribute, d)
    &&& kind_clause(fs, FilterKind::Sysname, d)
    &&& kind_clause(fs, FilterKind::Property, d)
    &&& kind_clause(fs, FilterKind::Tag, d)
    &&& kind_clause(fs, FilterKind::Parent, d)
    &&& kind_clause(fs, FilterKind::Initialized, d)
    &&& nomatch_clause(fs, FilterKind::NomatchSubsystem, d)
    &&& nomatch_clause(fs, FilterKind::NomatchAttribute, d)
}

/// Whether the device was pulled in explicitly by syspath.
pub open spec fn added_syspath(paths: Seq<String>, d: Device) -> bool {
    exists|i: int| 0 <= i < paths.len() && opt_view(d.syspath) == Some(paths[i]@)
}

/// Whether the scan lists the device: it matches the filter set, or its
/// syspath was added explicitly.
pub open spec fn included(fs: Seq<Filter>, paths: Seq<String>, d: Device) -> bool {
    spec_matches(fs, d) || added_syspath(paths, d)
}

/// The scan result: the included devices, in table order.
pub open spec fn spec_scan(devs: Seq<Device>, fs: Seq<Filter>, paths: Seq<String>) -> Seq<Device>
    decreases devs.len(),
{
    if devs.len() == 0 {
        Seq::empty()
    } else {
        let rest = spec_scan(devs.drop_first(), fs, paths);
        if included(fs, paths, devs[0]) {
            seq![devs[0]] + rest
        } else {
            rest
        }
    }
}

fn filter_kind_of(f: &Filter) -> (r: FilterKind)
    ensures
        r == filter_kind(*f),
{
    match f {
        Filter::MatchSubsystem(_) => FilterKind::Subsystem,
        Filter::NomatchSubsystem(_) => FilterKind::NomatchSubsystem,
        Filter::MatchAttribute(_, _) => FilterKind::Attribute,
        Filter::NomatchAttribute(_, _) => FilterKind::NomatchAttribute,
        Filter::MatchSysname(_) => FilterKind::Sysname,
        Filter::MatchProperty(_, _) => FilterKind::Property,
        Filter::MatchTag(_) => FilterKind::Tag,
        Filter::MatchParent(_) => FilterKind::Parent,
        Filter::MatchInitialized => FilterKind::Initialized,
    }
}

/// Decides whether the first property listed for `key` carries `value`.
fn prop_value_is(ps: &Vec<(String, String)>, key: &str, value: &str) -> (r: bool)
    ensures
        r == (prop_lookup(ps@, key@) == Some(value@)),
{
    let n = ps.len();
    let mut i: usize = 0;
    while i < n
        invariant
            i <= n,
            n == ps@.len(),
            forall|j: int| 0 <= j < i ==> ps@[j].0@ != key@,
        decreases n - i,
    {
        if str_eq(ps[i].0.as_str(), key) {
            proof {
                lemma_prop_lookup_found(ps@, key@, i as int);
            }
            return str_eq(ps[i].1.as_str(), value);
        }
        i += 1;
    }
    proof {
        lemma_prop_lookup_none(ps@, key@);
    }
    false
}

/// Decides whether the first attribute listed for `key` carries `value`.
fn attr_value_is(ps: &Vec<(String, Option<String>)>, key: &str, value: &str) -> (r: bool)
    ensures
        r == (attr_lookup(ps@, key@) == Some(value@)),
{
    let n = ps.len();
    let mut i: usize = 0;
    while i < n
        invariant
            i <= n,
            n == ps@.len(),
            forall|j: int| 0 <= j < i ==> ps@[j].0@ != key@,
        decreases n - i,
    {
        if str_eq(ps[i].0.as_str(), key) {
            proof {
                lemma_attr_lookup_found(ps@, key@, i as int);
            }
            return match &ps[i].1 {
                Some(v) => str_eq(v.as_str(), value),
                None => false,
            };
        }
        i += 1;
    }
    proof {
        lemma_attr_lookup_none(ps@, key@);
    }
    false
}

/// Decides subtree membership along the parent chain.
fn in_subtree_exec(d: &Device, syspath: &str) -> (r: bool)
    ensures
        r == in_subtree(*d, syspath@),
    decreases *d,
{
    if opt_is(&d.syspath, syspath) {
        return true;
    }
    match &d.parent {
        Some(p) => in_subtree_exec(p, syspath),
        None => false,
    }
}

/// Decides whether one predicate, taken alone, hits the device.
fn eval_filter(f: &Filter, d: &Device) -> (r: bool)
    ensures
        r == filter_hit(*f, *d),
{
    match f {
        Filter::MatchSubsystem(s) => opt_is(&d.subsystem, s.as_str()),
        Filter::NomatchSubsystem(s) => opt_is(&d.subsystem, s.as_str()),
        Filter::MatchAttribute(a, v) => attr_value_is(&d.attributes, a.as_str(), v.as_str()),
        Filter::NomatchAttribute(a, v) => attr_value_is(&d.attributes, a.as_str(), v.as_str()),
        Filter::MatchSysname(s) => opt_is(&d.sysname, s.as_str()),
        Filter::MatchProperty(k, v) => prop_value_is(&d.properties, k.as_str(), v.as_str()),
        Filter::MatchTag(t) => has_tag_exec(&d.tags, t.as_str()),
        Filter::MatchParent(p) => in_subtree_exec(d, p.as_str()),
        Filter::MatchInitialized => d.is_initialized(),
    }
}

/// Decides the OR'ed clause of one match kind.
fn match_kind_ok(fs: &Vec<Filter>, k: FilterKind, d: &Device) -> (r: bool)
    ensures
        r == kind_clause(fs@, k, *d),
{
    let n = fs.len();
    let mut saw = false;
    let mut hit = false;
    let mut i: usize = 0;
    while i < n
        invariant
            i <= n,
            n == fs@.len(),
            saw == exists|j: int| 0 <= j < i && filter_kind(fs@[j]) == k,
            hit == exists|j: int|
                0 <= j < i && filter_kind(fs@[j]) == k && filter_hit(fs@[j], *d),
        decreases n - i,
    {
        let f = &fs[i];
        if filter_kind_of(f) == k {
            saw = true;
            if eval_filter(f, d) {
                hit = true;
            }
        }
        i += 1;
    }
    !saw || hit
}

/// Decides the OR'ed clause of one exclusion kind.
fn nomatch_kind_ok(fs: &Vec<Filter>, k: FilterKind, d: &Device) -> (r: bool)
    ensures
        r == nomatch_clause(fs@, k, *d),
{
    let n = fs.len();
    let mut i: usize = 0;
    while i < n
        invariant
            i <= n,
            n == fs@.len(),
            forall|j: int| 0 <= j < i && filter_kind(fs@[j]) == k ==> !filter_hit(fs@[j], *d),
        decreases n - i,
    {
        let f = &fs[i];
        if filter_kind_of(f) == k && eval_filter(f, d) {
            return false;
        }
        i += 1;
    }
    true
}

/// Decides the whole filter set against one device.
fn matches_filters(fs: &Vec<Filter>, d: &Device) -> (r: bool)
    ensures
        r == spec_matches(fs@, *d),
{
    match_kind_ok(fs, FilterKind::Subsystem, d) && match_kind_ok(fs, FilterKind::Attribute, d)
        && match_kind_ok(fs, FilterKind::Sysname, d) && match_kind_ok(
        fs,
        FilterKind::Property,
        d,
    ) && match_kind_ok(fs, FilterKind::Tag, d) && match_kind_ok(fs, FilterKind::Parent, d)
        && match_kind_ok(fs, FilterKind::Initialized, d) && nomatch_kind_ok(
        fs,
        FilterKind::NomatchSubsystem,
        d,
    ) && nomatch_kind_ok(fs, FilterKind::NomatchAttribute, d)
}

/// Decides whether the device's syspath was added explicitly.
fn added_syspath_exec(paths: &Vec<String>, d: &Device) -> (r: bool)
    ensures
        r == added_syspath(paths@, *d),
{
    let n = paths.len();
    let mut i: usize = 0;
    while i < n
        invariant
            i <= n,
            n == paths@.len(),
            forall|j: int| 0 <= j < i ==> opt_view(d.syspath) != Some(paths@[j]@),
        decreases n - i,
    {
        if opt_is(&d.syspath, paths[i].as_str()) {
            return true;
        }
        i += 1;
    }
    false
}

/// An enumeration session while it is still configuring.
///
/// The session keeps its own copy of the device table — its own counted
/// reference to the root — so it stays valid after the context value that
/// created it is gone.
pub struct Enumerator {
    /// The registered predicates, in registration order.
    pub filters: Vec<Filter>,
    /// Syspaths added explicitly, included regardless of the filters.
    pub syspaths: Vec<String>,
    /// The session's view of the device table, parents before children.
    pub devices: Vec<Device>,
}

impl Enumerator {
    /// A new session over the context's table, with no filters yet. In
    /// the model, construction always succeeds; an embedding whose
    /// backend fails reports the allocation error instead.
    pub fn new(context: &Context) -> (r: Result<Enumerator, Error>)
        ensures
            r is Ok,
            r->Ok_0.filters@ == Seq::<Filter>::empty(),
            r->Ok_0.syspaths@ == Seq::<String>::empty(),
            devs_like(r->Ok_0.devices@, context.devices@),
    {
        let copy = context.duplicate();
        Ok(Enumerator { filters: Vec::new(), syspaths: Vec::new(), devices: copy.devices })
    }

    /// Registers a subsystem match predicate.
    pub fn match_subsystem(&mut self, subsystem: &str) -> (r: Result<(), Error>)
        ensures
            r is Ok <==> nul_free(subsystem@),
            r is Err ==> r->Err_0.errno == EINVAL && final(self).filters == old(self).filters,
            r is Ok ==> seq_pushed(
                final(self).filters@,
                old(self).filters@,
                |f: Filter| f matches Filter::MatchSubsystem(s) && s@ == subsystem@,
            ),
            final(self).syspaths == old(self).syspaths,
            final(self).devices == old(self).devices,
    {
        if let Err(e) = check_encodable(subsystem) {
            return Err(e);
        }
        let ghost prev = self.filters@;
        self.filters.push(Filter::MatchSubsystem(subsystem.to_owned()));
        proof {
            assert(self.filters@.take(prev.len() as int) =~= prev);
        }
        Ok(())
    }

    /// Registers a subsystem exclusion.
    pub fn nomatch_subsystem(&mut self, subsystem: &str) -> (r: Result<(), Error>)
        ensures
            r is Ok <==> nul_free(subsystem@),
            r is Err ==> r->Err_0.errno == EINVAL && final(self).filters == old(self).filters,
            r is Ok ==> seq_pushed(
                final(self).filters@,
                old(self).filters@,
                |f: Filter| f matches Filter::NomatchSubsystem(s) && s@ == subsystem@,
            ),
            final(self).syspaths == old(self).syspaths,
            final(self).devices == old(self).devices,
    {
        if let Err(e) = check_encodable(subsystem) {
            return Err(e);
        }
        let ghost prev = self.filters@;
        self.filters.push(Filter::NomatchSubsystem(subsystem.to_owned()));
        proof {
            assert(self.filters@.take(prev.len() as int) =~= prev);
        }
        Ok(())
    }

    /// Registers an attribute match predicate.
    pub fn match_attribute(&mut self, attribute: &str, value: &str) -> (r: Result<(), Error>)
        ensures
            r is Ok <==> nul_free(attribute@) && nul_free(value@),
            r is Err ==> r->Err_0.errno == EINVAL && final(self).filters == old(self).filters,
            r is Ok ==> seq_pushed(
                final(self).filters@,
                old(self).filters@,
                |f: Filter|
                    f matches Filter::MatchAttribute(a, v) && a@ == attribute@ && v@ == value@,
            ),
            final(self).syspaths == old(self).syspaths,
            final(self).devices == old(self).devices,
    {
        if let Err(e) = check_encodable(attribute) {
            return Err(e);
        }
        if let Err(e) = check_encodable(value) {
            return Err(e);
        }
        let ghost prev = self.filters@;
        self.filters.push(Filter::MatchAttribute(attribute.to_owned(), value.to_owned()));
        proof {
            assert(self.filters@.take(prev.len() as int) =~= prev);
        }
        Ok(())
    }

    /// Registers an attribute exclusion.
    pub fn nomatch_attribute(&mut self, attribute: &str, value: &str) -> (r: Result<(), Error>)
        ensures
            r is Ok <==> nul_free(attribute@) && nul_free(value@),
            r is Err ==> r->Err_0.errno == EINVAL && final(self).filters == old(self).filters,
            r is Ok ==> seq_pushed(
                final(self).filters@,
                old(self).filters@,
                |f: Filter|
                    f matches Filter::NomatchAttribute(a, v) && a@ == attribute@ && v@ == value@,
            ),
            final(self).syspaths == old(self).syspaths,
            final(self).devices == old(self).devices,
    {
        if let Err(e) = check_encodable(attribute) {
            return Err(e);
        }
        if let Err(e) = check_encodable(value) {
            return Err(e);
        }
        let ghost prev = self.filters@;
        self.filters.push(Filter::NomatchAttribute(attribute.to_owned(), value.to_owned()));
        proof {
            assert(self.filters@.take(prev.len() as int) =~= prev);
        }
        Ok(())
    }

    /// Registers a sysname match predicate.
    pub fn match_sysname(&mut self, sysname: &str) -> (r: Result<(), Error>)
        ensures
            r is Ok <==> nul_free(sysname@),
            r is Err ==> r->Err_0.errno == EINVAL && final(self).filters == old(self).filters,
            r is Ok ==> seq_pushed(
                final(self).filters@,
                old(self).filters@,
                |f: Filter| f matches Filter::MatchSysname(s) && s@ == sysname@,
            ),
            final(self).syspaths == old(self).syspaths,
            final(self).devices == old(self).devices,
    {
        if let Err(e) = check_encodable(sysname) {
            return Err(e);
        }
        let ghost prev = self.filters@;
        self.filters.push(Filter::MatchSysname(sysname.to_owned()));
        proof {
            assert(self.filters@.take(prev.len() as int) =~= prev);
        }
        Ok(())
    }

    /// Registers a property match predicate.
    pub fn match_property(&mut self, property: &str, value: &str) -> (r: Result<(), Error>)
        ensures
            r is Ok <==> nul_free(property@) && nul_free(value@),
            r is Err ==> r->Err_0.errno == EINVAL && final(self).filters == old(self).filters,
            r is Ok ==> seq_pushed(
                final(self).filters@,
                old(self).filters@,
                |f: Filter|
                    f matches Filter::MatchProperty(k, v) && k@ == property@ && v@ == value@,
            ),
            final(self).syspaths == old(self).syspaths,
            final(self).devices == old(self).devices,
    {
        if let Err(e) = check_encodable(property) {
            return Err(e);
        }
        if let Err(e) = check_encodable(value) {
            return Err(e);
        }
        let ghost prev = self.filters@;
        self.filters.push(Filter::MatchProperty(property.to_owned(), value.to_owned()));
        proof {
            assert(self.filters@.take(prev.len() as int) =~= prev);
        }
        Ok(())
    }

    /// Registers a tag match predicate.
    pub fn match_tag(&mut self, tag: &str) -> (r: Result<(), Error>)
        ensures
            r is Ok <==> nul_free(tag@),
            r is Err ==> r->Err_0.errno == EINVAL && final(self).filters == old(self).filters,
            r is Ok ==> seq_pushed(
                final(self).filters@,
                old(self).filters@,
                |f: Filter| f matches Filter::MatchTag(t) && t@ == tag@,
            ),
            final(self).syspaths == old(self).syspaths,
            final(self).devices == old(self).devices,
    {
        if let Err(e) = check_encodable(tag) {
            return Err(e);
        }
        let ghost prev = self.filters@;
        self.filters.push(Filter::MatchTag(tag.to_owned()));
        proof {
            assert(self.filters@.take(prev.len() as int) =~= prev);
        }
        Ok(())
    }

    /// Registers a parent-subtree match predicate: the parent device and
    /// every device below it match. A parent without an encodable syspath
    /// is the invalid-argument error.
    pub fn match_parent(&mut self, parent: &Device) -> (r: Result<(), Error>)
        ensures
            r is Ok <==> parent.syspath is Some && nul_free(parent.syspath->Some_0@),
            r is Err ==> r->Err_0.errno == EINVAL && final(self).filters == old(self).filters,
            r is Ok ==> seq_pushed(
                final(self).filters@,
                old(self).filters@,
                |f: Filter| f matches Filter::MatchParent(p) && p@ == parent.syspath->Some_0@,
            ),
            final(self).syspaths == old(self).syspaths,
            final(self).devices == old(self).devices,
    {
        let path = match &parent.syspath {
            Some(s) => s,
            None => { return Err(crate::error::invalid_argument()); },
        };
        if let Err(e) = check_encodable(path.as_str()) {
            return Err(e);
        }
        let ghost prev = self.filters@;
        self.filters.push(Filter::MatchParent(path.clone()));
        proof {
            assert(self.filters@.take(prev.len() as int) =~= prev);
        }
        Ok(())
    }

    /// Registers the initialized-only predicate.
    pub fn match_is_initialized(&mut self) -> (r: Result<(), Error>)
        ensures
            r is Ok,
            seq_pushed(
                final(self).filters@,
                old(self).filters@,
                |f: Filter| f matches Filter::MatchInitialized,
            ),
            final(self).syspaths == old(self).syspaths,
            final(self).devices == old(self).devices,
    {
        let ghost prev = self.filters@;
        self.filters.push(Filter::MatchInitialized);
        proof {
            assert(self.filters@.take(prev.len() as int) =~= prev);
        }
        Ok(())
    }

    /// Includes the device with the given syspath in the scan result,
    /// regardless of the filters.
    pub fn add_syspath(&mut self, syspath: &str) -> (r: Result<(), Error>)
        ensures
            r is Ok <==> nul_free(syspath@),
            r is Err ==> r->Err_0.errno == EINVAL && final(self).syspaths == old(self).syspaths,
            r is Ok ==> seq_pushed(
                final(self).syspaths@,
                old(self).syspaths@,
                |p: String| p@ == syspath@,
            ),
            final(self).filters == old(self).filters,
            final(self).devices == old(self).devices,
    {
        if let Err(e) = check_encodable(syspath) {
            return Err(e);
        }
        let ghost prev = self.syspaths@;
        self.syspaths.push(syspath.to_owned());
        proof {
            assert(self.syspaths@.take(prev.len() as int) =~= prev);
        }
        Ok(())
    }

    /// Decides the filter set against one device.
    pub fn matches(&self, d: &Device) -> (r: bool)
        ensures
            r == spec_matches(self.filters@, *d),
    {
        matches_filters(&self.filters, d)
    }

    /// Executes the scan. The session is consumed — after the scan no
    /// filter can be registered — and the result lists exactly the
    /// included devices, in table order. In the model, the scan itself
    /// always succeeds; an embedding whose backend fails reports the
    /// backend error instead.
    pub fn scan_devices(self) -> (r: Result<Devices, Error>)
        ensures
            r is Ok,
            r->Ok_0.items@ == spec_scan(self.devices@, self.filters@, self.syspaths@),
    {
        let Enumerator { filters, syspaths, mut devices } = self;
        let ghost orig = devices@;
        let mut out: Vec<Device> = Vec::new();
        proof {
            assert(out@ + spec_scan(orig, filters@, syspaths@) =~= spec_scan(
                orig,
                filters@,
                syspaths@,
            ));
        }
        while devices.len() > 0
            invariant
                out@ + spec_scan(devices@, filters@, syspaths@) == spec_scan(
                    orig,
                    filters@,
                    syspaths@,
                ),
            decreases devices@.len(),
        {
            let ghost pre = devices@;
            let d = devices.remove(0);
            proof {
                assert(devices@ =~= pre.drop_first());
            }
            let inc = {
                let m = matches_filters(&filters, &d);
                m || added_syspath_exec(&syspaths, &d)
            };
            if inc {
                let ghost outpre = out@;
                out.push(d);
                proof {
                    assert((outpre + seq![pre[0]]) + spec_scan(pre.drop_first(), filters@, syspaths@)
                        =~= outpre + (seq![pre[0]] + spec_scan(
                        pre.drop_first(),
                        filters@,
                        syspaths@,
                    )));
                    assert(out@ =~= outpre + seq![pre[0]]);
                }
            }
        }
        proof {
            assert(out@ + spec_scan(devices@, filters@, syspaths@) =~= out@);
        }
        Ok(Devices { items: out })
    }
}

/// The lazy scan result: a forward-only, single-pass, finite sequence of
/// devices, materialized front first.
pub struct Devices {
    /// The devices not yet yielded, front first.
    pub items: Vec<Device>,
}

impl Devices {
    /// The next device, or absent once the traversal is exhausted; an
    /// exhausted iterator stays exhausted.
    pub fn next(&mut self) -> (r: Option<Device>)
        ensures
            old(self).items@.len() == 0 ==> r is None && final(self).items == old(self).items,
            old(self).items@.len() > 0 ==> {
                &&& r is Some
                &&& r->Some_0 == old(self).items@[0]
                &&& final(self).items@ == old(self).items@.drop_first()
            },
    {
        if self.items.len() == 0 {
            None
        } else {
            let d = self.items.remove(0);
            proof {
                assert(old(self).items@.drop_first() =~= old(self).items@.remove(0));
            }
            Some(d)
        }
    }
}

/// The position at which table index `i`'s record stands in the scan
/// result, counting the included records before it.
pub open spec fn scan_pos(devs: Seq<Device>, fs: Seq<Filter>, paths: Seq<String>, i: int) -> int {
    spec_scan(devs.take(i), fs, paths).len() as int
}

proof fn lemma_scan_push(devs: Seq<Device>, fs: Seq<Filter>, paths: Seq<String>, x: Device)
    ensures
        spec_scan(devs.push(x), fs, paths) == spec_scan(devs, fs, paths) + (if included(
            fs,
            paths,
            x,
        ) {
            seq![x]
        } else {
            Seq::<Device>::empty()
        }),
    decreases devs.len(),
{
    let tail: Seq<Device> = if included(fs, paths, x) {
        seq![x]
    } else {
        Seq::empty()
    };
    if devs.len() == 0 {
        assert(devs.push(x)[0] == x);
        assert(devs.push(x).drop_first() =~= devs);
        assert(spec_scan(devs, fs, paths) == Seq::<Device>::empty());
        if included(fs, paths, x) {
            assert(spec_scan(devs.push(x), fs, paths) == seq![x] + spec_scan(devs, fs, paths));
            assert(seq![x] + spec_scan(devs, fs, paths) =~= spec_scan(devs, fs, paths) + tail);
        } else {
            assert(spec_scan(devs.push(x), fs, paths) == spec_scan(devs, fs, paths));
            assert(spec_scan(devs, fs, paths) =~= spec_scan(devs, fs, paths) + tail);
        }
    } else {
        assert(devs.push(x)[0] == devs[0]);
        assert(devs.push(x).drop_first() =~= devs.drop_first().push(x));
        lemma_scan_push(devs.drop_first(), fs, paths, x);
        if included(fs, paths, devs[0]) {
            assert((seq![devs[0]] + spec_scan(devs.drop_first(), fs, paths)) + tail =~= seq![
                devs[0],
            ] + (spec_scan(devs.drop_first(), fs, paths) + tail));
        }
    }
}

proof fn lemma_scan_take_step(devs: Seq<Device>, fs: Seq<Filter>, paths: Seq<String>, i: int)
    requires
        0 <= i < devs.len(),
    ensures
        spec_scan(devs.take(i + 1), fs, paths) == spec_scan(devs.take(i), fs, paths) + (
        if included(fs, paths, devs[i]) {
            seq![devs[i]]
        } else {
            Seq::<Device>::empty()
        }),
{
    assert(devs.take(i + 1) =~= devs.take(i).push(devs[i]));
    lemma_scan_push(devs.take(i), fs, paths, devs[i]);
}

proof fn lemma_scan_take_prefix(devs: Seq<Device>, fs: Seq<Filter>, paths: Seq<String>, i: int)
    requires
        0 <= i <= devs.len(),
    ensures
        spec_scan(devs.take(i), fs, paths).len() <= spec_scan(devs, fs, paths).len(),
        forall|p: int|
            0 <= p < spec_scan(devs.take(i), fs, paths).len() ==> spec_scan(
                devs.take(i),
                fs,
                paths,
            )[p] == spec_scan(devs, fs, paths)[p],
    decreases devs.len() - i,
{
    if i == devs.len() {
        assert(devs.take(i) =~= devs);
    } else {
        lemma_scan_take_step(devs, fs, paths, i);
        lemma_scan_take_prefix(devs, fs, paths, i + 1);
    }
}

proof fn lemma_scan_pos_monotone(
    devs: Seq<Device>,
    fs: Seq<Filter>,
    paths: Seq<String>,
    a: int,
    b: int,
)
    requires
        0 <= a <= b <= devs.len(),
    ensures
        scan_pos(devs, fs, paths, a) <= scan_pos(devs, fs, paths, b),
    decreases b - a,
{
    if a < b {
        lemma_scan_take_step(devs, fs, paths, a);
        lemma_scan_pos_monotone(devs, fs, paths, a + 1, b);
    }
}

/// The ordering law of the scan: two included table entries appear in
/// the result in table order. A table that lists parents before their
/// children — the backend's dependency order — therefore yields every
/// parent's record before its children's.
pub proof fn lemma_scan_preserves_order(
    devs: Seq<Device>,
    fs: Seq<Filter>,
    paths: Seq<String>,
    i: int,
    j: int,
)
    requires
        0 <= i < j < devs.len(),
        included(fs, paths, devs[i]),
        included(fs, paths, devs[j]),
    ensures
        ({
            let out = spec_scan(devs, fs, paths);
            let pi = scan_pos(devs, fs, paths, i);
            let pj = scan_pos(devs, fs, paths, j);
            &&& 0 <= pi < pj < out.len()
            &&& out[pi] == devs[i]
            &&& out[pj] == devs[j]
        }),
{
    let out = spec_scan(devs, fs, paths);
    let pi = scan_pos(devs, fs, paths, i);
    let pj = scan_pos(devs, fs, paths, j);
    lemma_scan_take_step(devs, fs, paths, i);
    assert(spec_scan(devs.take(i + 1), fs, paths)[pi] == devs[i]);
    lemma_scan_take_prefix(devs, fs, paths, i + 1);
    assert(out[pi] == devs[i]);
    lemma_scan_take_step(devs, fs, paths, j);
    assert(spec_scan(devs.take(j + 1), fs, paths)[pj] == devs[j]);
    lemma_scan_take_prefix(devs, fs, paths, j + 1);
    assert(out[pj] == devs[j]);
    lemma_scan_pos_monotone(devs, fs, paths, i + 1, j);
    assert(scan_pos(devs, fs, paths, i + 1) == pi + 1);
}

/// Filter decisions depend only on a record's data: two records alike
/// in every field are matched alike by any filter set.
pub proof fn lemma_matches_respects_like(fs: Seq<Filter>, a: Device, b: Device)
    requires
        dev_like(a, b),
    ensures
        spec_matches(fs, a) == spec_matches(fs, b),
        forall|paths: Seq<String>| included(fs, paths, a) == included(fs, paths, b),
{
    assert forall|i: int| 0 <= i < fs.len() implies filter_hit(fs[i], a) == filter_hit(
        fs[i],
        b,
    ) by {
        match fs[i] {
            Filter::MatchParent(p) => {
                crate::device::lemma_in_subtree_respects_like(a, b, p@);
            },
            _ => {},
        }
    }
    assert forall|k: FilterKind| kind_satisfied(fs, k, a) == kind_satisfied(fs, k, b) by {}
}

/// The scan depends only on the records' data: over two tables alike
/// entry for entry — a session's copy of a context's table is one — the
/// same filter set selects records alike in every field, in the same
/// positions.
pub proof fn lemma_scan_respects_like(
    da: Seq<Device>,
    db: Seq<Device>,
    fs: Seq<Filter>,
    paths: Seq<String>,
)
    requires
        devs_like(da, db),
    ensures
        devs_like(spec_scan(da, fs, paths), spec_scan(db, fs, paths)),
    decreases da.len(),
{
    if da.len() > 0 {
        assert(dev_like(da[0], db[0]));
        lemma_matches_respects_like(fs, da[0], db[0]);
        assert forall|j: int| 0 <= j < da.drop_first().len() implies dev_like(
            da.drop_first()[j],
            db.drop_first()[j],
        ) by {
            assert(da.drop_first()[j] == da[j + 1]);
            assert(db.drop_first()[j] == db[j + 1]);
        }
        lemma_scan_respects_like(da.drop_first(), db.drop_first(), fs, paths);
        let ra = spec_scan(da, fs, paths);
        let rb = spec_scan(db, fs, paths);
        if included(fs, paths, da[0]) {
            assert forall|j: int| 0 <= j < ra.len() implies dev_like(ra[j], rb[j]) by {
                if j > 0 {
                    assert(ra[j] == spec_scan(da.drop_first(), fs, paths)[j - 1]);
                    assert(rb[j] == spec_scan(db.drop_first(), fs, paths)[j - 1]);
                }
            }
        }
    }
}

/// The OR/AND law of the filter set, on its simplest instructive shape:
/// with two subsystem predicates and one property predicate registered,
/// a device is matched exactly when it belongs to either subsystem and
/// carries the property value — a device without the property is
/// excluded even when its subsystem matches.
pub proof fn lemma_filter_or_and(s1: String, s2: String, key: String, value: String, d: Device)
    ensures
        ({
            let fs = seq![
                Filter::MatchSubsystem(s1),
                Filter::MatchSubsystem(s2),
                Filter::MatchProperty(key, value),
            ];
            spec_matches(fs, d) <==> ((opt_view(d.subsystem) == Some(s1@) || opt_view(d.subsystem)
                == Some(s2@)) && prop_lookup(d.properties@, key@) == Some(value@))
        }),
{
    let fs = seq![
        Filter::MatchSubsystem(s1),
        Filter::MatchSubsystem(s2),
        Filter::MatchProperty(key, value),
    ];
    assert(fs.len() == 3);
    assert(fs[0] == Filter::MatchSubsystem(s1));
    assert(fs[1] == Filter::MatchSubsystem(s2));
    assert(fs[2] == Filter::MatchProperty(key, value));
    if spec_matches(fs, d) {
        assert(kind_present(fs, FilterKind::Subsystem));
        let w = choose|w: int|
            0 <= w < fs.len() && filter_kind(fs[w]) == FilterKind::Subsystem && filter_hit(
                fs[w],
                d,
            );
        assert(w == 0 || w == 1);
        assert(kind_present(fs, FilterKind::Property));
        let v = choose|v: int|
            0 <= v < fs.len() && filter_kind(fs[v]) == FilterKind::Property && filter_hit(
                fs[v],
                d,
            );
        assert(v == 2);
    }
    if (opt_view(d.subsystem) == Some(s1@) || opt_view(d.subsystem) == Some(s2@)) && prop_lookup(
        d.properties@,
        key@,
    ) == Some(value@) {
        if opt_view(d.subsystem) == Some(s1@) {
            assert(filter_kind(fs[0]) == FilterKind::Subsystem && filter_hit(fs[0], d));
        } else {
            assert(filter_kind(fs[1]) == FilterKind::Subsystem && filter_hit(fs[1], d));
        }
        assert(filter_kind(fs[2]) == FilterKind::Property && filter_hit(fs[2], d));
        assert(forall|i: int|
            0 <= i < fs.len() ==> filter_kind(fs[i]) != FilterKind::Sysname && filter_kind(fs[i])
                != FilterKind::Attribute && filter_kind(fs[i]) != FilterKind::Tag && filter_kind(
                fs[i],
            ) != FilterKind::Parent && filter_kind(fs[i]) != FilterKind::Initialized
                && filter_kind(fs[i]) != FilterKind::NomatchSubsystem && filter_kind(fs[i])
                != FilterKind::NomatchAttribute);
        assert(spec_matches(fs, d));
    }
}

} // verus!
