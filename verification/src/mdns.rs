//! DNS-SD advertising data for IPP printers (`_ipp._tcp.local.`): which
//! network interfaces to advertise on and the TXT records CUPS /
//! cups-browsed need for IPP-Everywhere auto-discovery.

use vstd::prelude::*;

use crate::text::{decimal, is_prefix, owned, push_decimal, push_str, starts_with, str_eq};

verus! {

/// The DNS-SD service type of an IPP printer.
pub fn ipp_service_type() -> (r: &'static str)
    ensures
        r@ == "_ipp._tcp.local."@,
{
    "_ipp._tcp.local."
}

/// Interface name prefixes of container / VM virtual bridges and veth
/// pairs, on which advertising confuses a co-resident `cups-browsed`.
pub open spec fn virtual_iface_prefixes() -> Seq<Seq<char>> {
    seq!["veth"@, "docker"@, "br-"@, "virbr"@, "vnet"@, "vmnet"@, "vboxnet"@]
}

/// Whether `name` looks like a container/VM virtual bridge or veth
/// interface we must not advertise on.
pub open spec fn is_virtual_iface_spec(name: Seq<char>) -> bool {
    exists|i: int|
        0 <= i < virtual_iface_prefixes().len() && is_prefix(
            #[trigger] virtual_iface_prefixes()[i],
            name,
        )
}

/// Whether `name` looks like a container/VM virtual bridge or veth
/// interface we must not advertise on (plain `br0`/`tun0` are kept).
pub fn is_virtual_iface(name: &str) -> (r: bool)
    ensures
        r == is_virtual_iface_spec(name@),
{
    let ghost p = virtual_iface_prefixes();
    let r = starts_with(name, "veth") || starts_with(name, "docker") || starts_with(name, "br-")
        || starts_with(name, "virbr") || starts_with(name, "vnet") || starts_with(name, "vmnet")
        || starts_with(name, "vboxnet");
    proof {
        if r {
            if is_prefix("veth"@, name@) {
                assert(is_prefix(p[0], name@));
            } else if is_prefix("docker"@, name@) {
                assert(is_prefix(p[1], name@));
            } else if is_prefix("br-"@, name@) {
                assert(is_prefix(p[2], name@));
            } else if is_prefix("virbr"@, name@) {
                assert(is_prefix(p[3], name@));
            } else if is_prefix("vnet"@, name@) {
                assert(is_prefix(p[4], name@));
            } else if is_prefix("vmnet"@, name@) {
                assert(is_prefix(p[5], name@));
            } else {
                assert(is_prefix(p[6], name@));
            }
        } else {
            assert forall|i: int| 0 <= i < p.len() implies !is_prefix(#[trigger] p[i], name@) by {
                if i == 0 {
                } else if i == 1 {
                } else if i == 2 {
                } else if i == 3 {
                } else if i == 4 {
                } else if i == 5 {
                } else {
                }
            }
        }
    }
    r
}

/// An interface is advertised on when it is up, neither loopback nor
/// link-local, and not a container/VM virtual interface.
pub fn should_advertise_on(
    name: &str,
    is_loopback: bool,
    is_link_local: bool,
    is_oper_up: bool,
) -> (r: bool)
    ensures
        r == (!is_loopback && !is_link_local && is_oper_up && !is_virtual_iface_spec(name@)),
{
    if is_loopback || is_link_local || !is_oper_up {
        return false;
    }
    !is_virtual_iface(name)
}

/// The UUID with a leading `urn:uuid:` removed.
pub open spec fn bare_uuid_spec(uuid: Seq<char>) -> Seq<char> {
    if is_prefix("urn:uuid:"@, uuid) {
        uuid.subrange(9, uuid.len() as int)
    } else {
        uuid
    }
}

/// The UUID with a leading `urn:uuid:` removed (cups-browsed compares the
/// bare value).
pub fn bare_uuid(uuid: &str) -> (r: &str)
    ensures
        r@ == bare_uuid_spec(uuid@),
{
    if starts_with(uuid, "urn:uuid:") {
        proof {
            reveal_strlit("urn:uuid:");
        }
        uuid.substring_char(9, uuid.unicode_len())
    } else {
        uuid
    }
}

/// The mDNS host name of a machine: `<host>.local.`.
pub fn service_host_name(host: &str) -> (r: String)
    ensures
        r@ == host@ + ".local."@,
{
    let mut s = owned(host);
    push_str(&mut s, ".local.");
    s
}

/// One TXT record entry.
pub open spec fn txt(key: Seq<char>, value: Seq<char>) -> (Seq<char>, Seq<char>) {
    (key, value)
}

/// The TXT records of a printer's `_ipp._tcp` service: resource path,
/// `UUID` (when there is one), make and model, document formats, URF,
/// colour/duplex, admin URL, priority, queue count and TXT version.
pub open spec fn txt_records_spec(
    host: Seq<char>,
    port: u16,
    logical_name: Seq<char>,
    make_and_model: Seq<char>,
    uuid: Seq<char>,
) -> Seq<(Seq<char>, Seq<char>)> {
    seq![txt("rp"@, "ipp/print/"@ + logical_name)] + (if bare_uuid_spec(uuid).len() > 0 {
        seq![txt("UUID"@, bare_uuid_spec(uuid))]
    } else {
        seq![]
    }) + seq![
        txt("ty"@, make_and_model),
        txt("note"@, make_and_model),
        txt("product"@, "("@ + make_and_model + ")"@),
        txt("pdl"@, "image/pwg-raster,application/vnd.cups-raster,application/octet-stream"@),
        txt("URF"@, "W8,SRGB24,CP1,RS203"@),
        txt("Color"@, "F"@),
        txt("Duplex"@, "F"@),
        txt("adminurl"@, "http://"@ + host + ".local:"@ + decimal(port as nat) + "/"@),
        txt("priority"@, "0"@),
        txt("qtotal"@, "1"@),
        txt("txtvers"@, "1"@),
    ]
}

/// The views of TXT record entries.
pub open spec fn txt_view(s: Seq<(String, String)>) -> Seq<(Seq<char>, Seq<char>)> {
    s.map_values(|e: (String, String)| (e.0@, e.1@))
}

fn entry(key: &str, value: String) -> (r: (String, String))
    ensures
        r.0@ == key@,
        r.1@ == value@,
{
    (owned(key), value)
}

/// The TXT records of a printer's `_ipp._tcp` service (PWG 5100.14 /
/// Bonjour for IPP). `rp` is always the logical name; the DNS-SD instance
/// name carries the human-readable label.
pub fn txt_records(
    host: &str,
    port: u16,
    logical_name: &str,
    make_and_model: &str,
    uuid: &str,
) -> (r: Vec<(String, String)>)
    ensures
        txt_view(r@) == txt_records_spec(host@, port, logical_name@, make_and_model@, uuid@),
{
    let mut v: Vec<(String, String)> = Vec::new();
    let mut rp = owned("ipp/print/");
    push_str(&mut rp, logical_name);
    v.push(entry("rp", rp));
    let bare = bare_uuid(uuid);
    if bare.unicode_len() > 0 {
        v.push(entry("UUID", owned(bare)));
    }
    v.push(entry("ty", owned(make_and_model)));
    v.push(entry("note", owned(make_and_model)));
    let mut product = owned("(");
    push_str(&mut product, make_and_model);
    push_str(&mut product, ")");
    v.push(entry("product", product));
    v.push(
        entry(
            "pdl",
            owned("image/pwg-raster,application/vnd.cups-raster,application/octet-stream"),
        ),
    );
    v.push(entry("URF", owned("W8,SRGB24,CP1,RS203")));
    v.push(entry("Color", owned("F")));
    v.push(entry("Duplex", owned("F")));
    let mut admin = owned("http://");
    push_str(&mut admin, host);
    push_str(&mut admin, ".local:");
    push_decimal(&mut admin, port as u64);
    push_str(&mut admin, "/");
    v.push(entry("adminurl", admin));
    v.push(entry("priority", owned("0")));
    v.push(entry("qtotal", owned("1")));
    v.push(entry("txtvers", owned("1")));
    proof {
        assert(txt_view(v@) =~= txt_records_spec(host@, port, logical_name@, make_and_model@, uuid@));
    }
    v
}


/// What the advertiser reads of one network interface.
#[derive(Debug, Clone)]
pub struct InterfaceFacts {
    pub name: String,
    pub is_loopback: bool,
    pub is_link_local: bool,
    pub is_oper_up: bool,
}

/// Whether an interface with these facts is advertised on.
pub open spec fn advertised_on(f: InterfaceFacts) -> bool {
    !f.is_loopback && !f.is_link_local && f.is_oper_up && !is_virtual_iface_spec(f.name@)
}

/// Where the printers are advertised.
#[derive(Debug)]
pub enum AddressChoice {
    /// On the addresses of these interfaces (positions in the list given).
    Listed(Vec<usize>),
    /// On whatever addresses the mDNS daemon detects itself.
    Auto,
}

/// Choose the interfaces to advertise on: those [`should_advertise_on`]
/// keeps, in the order given. When the interfaces could not be listed
/// (`None`) or none is kept, the daemon's own address detection is used.
pub fn choose_addresses(ifaces: Option<&Vec<InterfaceFacts>>) -> (r: AddressChoice)
    ensures
        match ifaces {
            None => r is Auto,
            Some(v) => {
                &&& (r is Auto) == (forall|i: int| 0 <= i < v@.len() ==> !advertised_on(#[trigger] v@[i]))
                &&& r matches AddressChoice::Listed(idx) ==> {
                    &&& forall|a: int, b: int| 0 <= a < b < idx@.len() ==> idx@[a] < idx@[b]
                    &&& forall|a: int| 0 <= a < idx@.len() ==> (#[trigger] idx@[a]) < v@.len()
                        && advertised_on(v@[idx@[a] as int])
                    &&& forall|i: int| 0 <= i < v@.len() && advertised_on(#[trigger] v@[i]) ==> idx@.contains(i as usize)
                }
            },
        },
{
    match ifaces {
        None => AddressChoice::Auto,
        Some(v) => {
            let mut idx: Vec<usize> = Vec::new();
            let mut i: usize = 0;
            while i < v.len()
                invariant
                    i <= v@.len(),
                    forall|a: int, b: int| 0 <= a < b < idx@.len() ==> idx@[a] < idx@[b],
                    forall|a: int| 0 <= a < idx@.len() ==> (#[trigger] idx@[a]) < i
                        && advertised_on(v@[idx@[a] as int]),
                    forall|j: int| 0 <= j < i && advertised_on(#[trigger] v@[j]) ==> idx@.contains(j as usize),
                decreases v@.len() - i,
            {
                let f = &v[i];
                if should_advertise_on(f.name.as_str(), f.is_loopback, f.is_link_local, f.is_oper_up) {
                    let ghost before = idx@;
                    idx.push(i);
                    proof {
                        assert forall|j: int| 0 <= j < i + 1 && advertised_on(#[trigger] v@[j]) implies idx@.contains(j as usize) by {
                            if j < i {
                                let a = choose|a: int| 0 <= a < before.len() && before[a] == j as usize;
                                assert(idx@[a] == j as usize);
                            } else {
                                assert(idx@[before.len() as int] == i);
                            }
                        }
                    }
                }
                i = i + 1;
            }
            if idx.len() == 0 {
                proof {
                    assert forall|j: int| 0 <= j < v@.len() implies !advertised_on(#[trigger] v@[j]) by {
                        if advertised_on(v@[j]) {
                            assert(idx@.contains(j as usize));
                        }
                    }
                }
                AddressChoice::Auto
            } else {
                proof {
                    let k = idx@[0];
                    assert(advertised_on(v@[k as int]));
                }
                AddressChoice::Listed(idx)
            }
        },
    }
}

/// The DNS-SD adverts that are registered: for each printer name, the full
/// service name of its advert. A printer has at most one advert.
pub struct Adverts {
    entries: Vec<(String, String)>,
}

impl Adverts {
    /// No printer name occurs twice.
    pub closed spec fn wf(&self) -> bool {
        forall|i: int, j: int|
            0 <= i < j < self.entries@.len() ==> (#[trigger] self.entries@[i]).0@
                != (#[trigger] self.entries@[j]).0@
    }

    /// The registered adverts: printer name to full service name.
    pub closed spec fn adverts(&self) -> Map<Seq<char>, Seq<char>> {
        Map::new(
            |n: Seq<char>| exists|i: int| 0 <= i < self.entries@.len() && (#[trigger] self.entries@[i]).0@ == n,
            |n: Seq<char>|
                self.entries@[choose|i: int|
                    0 <= i < self.entries@.len() && (#[trigger] self.entries@[i]).0@ == n].1@,
        )
    }

    /// No advert registered.
    pub fn new() -> (r: Adverts)
        ensures
            r.wf(),
            r.adverts() == Map::<Seq<char>, Seq<char>>::empty(),
    {
        let r = Adverts { entries: Vec::new() };
        proof {
            assert(r.adverts() =~= Map::<Seq<char>, Seq<char>>::empty());
        }
        r
    }

    /// Where the advert of `name` stands, if any.
    fn position(&self, name: &str) -> (r: Option<usize>)
        requires
            self.wf(),
        ensures
            match r {
                Some(i) => i < self.entries@.len() && self.entries@[i as int].0@ == name@,
                None => forall|i: int| 0 <= i < self.entries@.len() ==> (#[trigger] self.entries@[i]).0@ != name@,
            },
    {
        let mut k: usize = 0;
        while k < self.entries.len()
            invariant
                k <= self.entries@.len(),
                forall|i: int| 0 <= i < k ==> (#[trigger] self.entries@[i]).0@ != name@,
            decreases self.entries@.len() - k,
        {
            if str_eq(self.entries[k].0.as_str(), name) {
                return Some(k);
            }
            k = k + 1;
        }
        None
    }

    /// Whether printer `name` has an advert.
    pub fn is_advertised(&self, name: &str) -> (r: bool)
        requires
            self.wf(),
        ensures
            r == self.adverts().contains_key(name@),
    {
        match self.position(name) {
            Some(i) => {
                assert(self.entries@[i as int].0@ == name@);
                true
            },
            None => false,
        }
    }

    /// Record that printer `name` is advertised as `fullname`, in place of
    /// any earlier advert of it.
    pub fn record(&mut self, name: String, fullname: String)
        requires
            old(self).wf(),
        ensures
            final(self).wf(),
            final(self).adverts() == old(self).adverts().insert(name@, fullname@),
    {
        let ghost before = self.entries@;
        let ghost n = name@;
        let ghost f = fullname@;
        match self.position(name.as_str()) {
            Some(i) => {
                self.entries.set(i, (name, fullname));
                proof {
                    assert forall|a: int, b: int| 0 <= a < b < self.entries@.len() implies (#[trigger] self.entries@[a]).0@
                        != (#[trigger] self.entries@[b]).0@ by {
                        assert(before[a].0@ != before[b].0@);
                    }
                    assert forall|m: Seq<char>| #[trigger] self.adverts().contains_key(m) == old(self).adverts().insert(n, f).contains_key(m) by {
                        if m != n && old(self).adverts().contains_key(m) {
                            let j = choose|j: int| 0 <= j < before.len() && (#[trigger] before[j]).0@ == m;
                            assert(self.entries@[j].0@ == m);
                        }
                        if self.adverts().contains_key(m) {
                            let j = choose|j: int| 0 <= j < self.entries@.len() && (#[trigger] self.entries@[j]).0@ == m;
                            if j != i {
                                assert(before[j].0@ == m);
                            }
                        }
                        assert(self.entries@[i as int].0@ == n);
                    }
                    assert forall|m: Seq<char>| #[trigger] self.adverts().contains_key(m) implies self.adverts()[m]
                        == old(self).adverts().insert(n, f)[m] by {
                        let j = choose|j: int| 0 <= j < self.entries@.len() && (#[trigger] self.entries@[j]).0@ == m;
                        if m == n {
                            assert(j == i);
                        } else {
                            let j0 = choose|j0: int| 0 <= j0 < before.len() && (#[trigger] before[j0]).0@ == m;
                            assert(before[j].0@ == m);
                            assert(j == j0);
                        }
                    }
                    assert(self.adverts() =~= old(self).adverts().insert(n, f));
                }
            },
            None => {
                self.entries.push((name, fullname));
                proof {
                    let last = before.len() as int;
                    assert(self.entries@[last].0@ == n);
                    assert forall|a: int, b: int| 0 <= a < b < self.entries@.len() implies (#[trigger] self.entries@[a]).0@
                        != (#[trigger] self.entries@[b]).0@ by {
                        if b < last {
                            assert(before[a].0@ != before[b].0@);
                        } else {
                            assert(self.entries@[a] == before[a]);
                        }
                    }
                    assert forall|m: Seq<char>| #[trigger] self.adverts().contains_key(m) == old(self).adverts().insert(n, f).contains_key(m) by {
                        if m != n && old(self).adverts().contains_key(m) {
                            let j = choose|j: int| 0 <= j < before.len() && (#[trigger] before[j]).0@ == m;
                            assert(self.entries@[j].0@ == m);
                        }
                        if self.adverts().contains_key(m) && m != n {
                            let j = choose|j: int| 0 <= j < self.entries@.len() && (#[trigger] self.entries@[j]).0@ == m;
                            assert(before[j].0@ == m);
                        }
                    }
                    assert forall|m: Seq<char>| #[trigger] self.adverts().contains_key(m) implies self.adverts()[m]
                        == old(self).adverts().insert(n, f)[m] by {
                        let j = choose|j: int| 0 <= j < self.entries@.len() && (#[trigger] self.entries@[j]).0@ == m;
                        if m == n {
                            assert(j == last);
                        } else {
                            let j0 = choose|j0: int| 0 <= j0 < before.len() && (#[trigger] before[j0]).0@ == m;
                            assert(before[j].0@ == m);
                            assert(j == j0);
                        }
                    }
                    assert(self.adverts() =~= old(self).adverts().insert(n, f));
                }
            },
        }
    }

    /// Forget the advert of printer `name`, handing back its full service
    /// name; `None` if it had none.
    pub fn take(&mut self, name: &str) -> (r: Option<String>)
        requires
            old(self).wf(),
        ensures
            final(self).wf(),
            final(self).adverts() == old(self).adverts().remove(name@),
            match r {
                Some(f) => old(self).adverts().contains_key(name@) && f@ == old(self).adverts()[name@],
                None => !old(self).adverts().contains_key(name@),
            },
    {
        let ghost before = self.entries@;
        let ghost n = name@;
        match self.position(name) {
            None => {
                proof {
                    assert(self.adverts() =~= old(self).adverts().remove(n));
                }
                None
            },
            Some(i) => {
                let (_, fullname) = self.entries.remove(i);
                proof {
                    assert(old(self).adverts().contains_key(n));
                    let j0 = choose|j: int| 0 <= j < before.len() && (#[trigger] before[j]).0@ == n;
                    assert(j0 == i);
                    let after = self.entries@;
                    assert(after =~= before.remove(i as int));
                    assert forall|a: int, b: int| 0 <= a < b < after.len() implies (#[trigger] after[a]).0@
                        != (#[trigger] after[b]).0@ by {
                        let a0 = if a < i { a } else { a + 1 };
                        let b0 = if b < i { b } else { b + 1 };
                        assert(after[a] == before[a0] && after[b] == before[b0]);
                        assert(before[a0].0@ != before[b0].0@);
                    }
                    assert forall|m: Seq<char>| #[trigger] self.adverts().contains_key(m) == old(self).adverts().remove(n).contains_key(m) by {
                        if m != n && old(self).adverts().contains_key(m) {
                            let j = choose|j: int| 0 <= j < before.len() && (#[trigger] before[j]).0@ == m;
                            assert(j != i);
                            let j1 = if j < i { j } else { j - 1 };
                            assert(after[j1] == before[j]);
                        }
                        if self.adverts().contains_key(m) {
                            let j = choose|j: int| 0 <= j < after.len() && (#[trigger] after[j]).0@ == m;
                            let j0 = if j < i { j } else { j + 1 };
                            assert(after[j] == before[j0]);
                            assert(j0 != i);
                        }
                    }
                    assert forall|m: Seq<char>| #[trigger] self.adverts().contains_key(m) implies self.adverts()[m]
                        == old(self).adverts().remove(n)[m] by {
                        let j = choose|j: int| 0 <= j < after.len() && (#[trigger] after[j]).0@ == m;
                        let j0 = if j < i { j } else { j + 1 };
                        assert(after[j] == before[j0]);
                        let k0 = choose|k0: int| 0 <= k0 < before.len() && (#[trigger] before[k0]).0@ == m;
                        assert(k0 == j0);
                    }
                    assert(self.adverts() =~= old(self).adverts().remove(n));
                }
                Some(fullname)
            },
        }
    }

    /// `f` is the full service name of some printer's advert.
    pub open spec fn is_advert_fullname(&self, f: Seq<char>) -> bool {
        exists|n: Seq<char>| #[trigger] self.adverts().contains_key(n) && self.adverts()[n] == f
    }

    /// One advert per entry.
    proof fn lemma_adverts_len(&self)
        requires
            self.wf(),
        ensures
            self.adverts().len() == self.entries@.len(),
    {
        let e = self.entries@;
        let names = e.map_values(|p: (String, String)| p.0@);
        assert(self.adverts().dom() =~= names.to_set()) by {
            assert forall|n: Seq<char>| names.to_set().contains(n) implies self.adverts().dom().contains(n) by {
                let j = choose|j: int| 0 <= j < names.len() && names[j] == n;
                assert(e[j].0@ == n);
            }
            assert forall|n: Seq<char>| self.adverts().dom().contains(n) implies names.to_set().contains(n) by {
                let j = choose|j: int| 0 <= j < e.len() && (#[trigger] e[j]).0@ == n;
                assert(names[j] == n);
            }
        }
        assert(names.no_duplicates()) by {
            assert forall|a: int, b: int| 0 <= a < names.len() && 0 <= b < names.len() && a != b implies names[a]
                != names[b] by {
                if a < b {
                    assert(e[a].0@ != e[b].0@);
                } else {
                    assert(e[b].0@ != e[a].0@);
                }
            }
        }
        names.unique_seq_to_set();
    }

    /// The full service names of all adverts (each printer's once).
    pub fn fullnames(&self) -> (r: Vec<String>)
        requires
            self.wf(),
        ensures
            r@.len() == self.adverts().len(),
            forall|k: int| 0 <= k < r@.len() ==> self.is_advert_fullname(#[trigger] r@[k]@),
            forall|n: Seq<char>| #[trigger] self.adverts().contains_key(n) ==> exists|k: int|
                0 <= k < r@.len() && r@[k]@ == self.adverts()[n],
    {
        let mut out: Vec<String> = Vec::new();
        let mut k: usize = 0;
        while k < self.entries.len()
            invariant
                self.wf(),
                k <= self.entries@.len(),
                out@.len() == k,
                forall|j: int| 0 <= j < k ==> (#[trigger] out@[j])@ == self.entries@[j].1@,
            decreases self.entries@.len() - k,
        {
            out.push(self.entries[k].1.clone());
            k = k + 1;
        }
        proof {
            let e = self.entries@;
            assert forall|j: int| 0 <= j < e.len() implies self.adverts().contains_key(e[j].0@)
                && self.adverts()[e[j].0@] == (#[trigger] e[j]).1@ by {
                let j0 = choose|j0: int| 0 <= j0 < e.len() && (#[trigger] e[j0]).0@ == e[j].0@;
                assert(j0 == j);
            }
            assert forall|kk: int| 0 <= kk < out@.len() implies self.is_advert_fullname(#[trigger] out@[kk]@) by {
                let w = e[kk].0@;
                assert(self.adverts().contains_key(w) && self.adverts()[w] == e[kk].1@);
                assert(out@[kk]@ == e[kk].1@);
            }
            assert forall|n: Seq<char>| #[trigger] self.adverts().contains_key(n) implies exists|kk: int|
                0 <= kk < out@.len() && out@[kk]@ == self.adverts()[n] by {
                let j = choose|j: int| 0 <= j < e.len() && (#[trigger] e[j]).0@ == n;
                assert(out@[j]@ == self.adverts()[n]);
            }
            self.lemma_adverts_len();
        }
        out
    }
}

} // verus!
