//! Interface enumeration: every local (interface, address) pair the OS
//! reports, classified by address family. Pairs with an IPv4 or IPv6
//! address are emitted; every other pair is skipped with a diagnostic
//! note, without failing the request. Only a failure of the enumeration
//! call itself aborts.

use vstd::prelude::*;
use vstd::string::StringExecFns;
use nix::sys::socket::SockaddrStorage;
use crate::errors::HostError;

verus! {

#[verifier::external_type_specification]
#[verifier::external_body]
pub struct ExSockaddrStorage(SockaddrStorage);

/// An IPv4 or IPv6 address held as its address bytes, big-endian, packed
/// into one unsigned integer.
#[derive(Clone, Copy, Debug, PartialEq, Eq, Structural)]
pub enum IpAddress {
    V4(u32),
    V6(u128),
}

/// Every value of the type is of a supported address family.
pub open spec fn is_supported(ip: IpAddress) -> bool {
    ip is V4 || ip is V6
}

/// One (interface, address) pair as the OS reports it, not yet classified.
pub struct RawInterface {
    pub name: String,
    pub addr: Option<SockaddrStorage>,
}

/// One pair after address-family classification: `ip` is `None` when the
/// pair had no resolvable address or one of an unsupported family.
pub struct ClassifiedInterface {
    pub name: String,
    pub ip: Option<IpAddress>,
}

/// One emitted entry of the snapshot: an interface name with one of its
/// addresses.
pub struct InterfaceAddress {
    pub name: String,
    pub ip: IpAddress,
}

impl InterfaceAddress {
    pub fn new(name: String, ip: IpAddress) -> (r: Self)
        ensures
            r.name == name,
            r.ip == ip,
    {
        InterfaceAddress { name, ip }
    }
}

/// The emitted addresses, plus one diagnostic note per skipped pair.
pub struct InterfacesReport {
    pub addresses: Vec<InterfaceAddress>,
    pub notes: Vec<String>,
}

/// Relies on nix::ifaddrs::getifaddrs: one entry per (interface, address)
/// pair, in the order the OS walks them; the query itself fails only when
/// the OS refuses it, and then this returns `None`.
#[verifier::external_body]
fn fetch_interfaces() -> Option<Vec<RawInterface>> {
    match nix::ifaddrs::getifaddrs() {
        Ok(it) => Some(
            it.map(
                |entry| RawInterface { name: entry.interface_name, addr: entry.address },
            ).collect(),
        ),
        Err(_) => None,
    }
}

/// Relies on nix's SockaddrStorage::as_sockaddr_in and as_sockaddr_in6
/// (which answer for exactly the IPv4 and IPv6 families) and on the ip
/// accessors of SockaddrIn and SockaddrIn6 for the address bytes; every
/// other family gives `None`.
#[verifier::external_body]
fn classify_sockaddr(addr: &SockaddrStorage) -> Option<IpAddress> {
    if let Some(sin) = addr.as_sockaddr_in() {
        Some(IpAddress::V4(u32::from_be_bytes(sin.ip().octets())))
    } else if let Some(sin6) = addr.as_sockaddr_in6() {
        Some(IpAddress::V6(u128::from_be_bytes(sin6.ip().octets())))
    } else {
        None
    }
}

/// Classifies every enumerated pair, keeping names and order; a pair
/// without an address can never come out classified.
pub fn classify_all(raw: Vec<RawInterface>) -> (out: Vec<ClassifiedInterface>)
    ensures
        out@.len() == raw@.len(),
        forall|i: int| 0 <= i < raw@.len() ==> (#[trigger] out@[i]).name == raw@[i].name,
        forall|i: int|
            0 <= i < raw@.len() ==> (raw@[i].addr is None ==> (#[trigger] out@[i]).ip is None),
{
    let ghost orig = raw@;
    let mut rest = raw;
    let mut out: Vec<ClassifiedInterface> = Vec::new();
    while rest.len() > 0
        invariant
            out@.len() + rest@.len() == orig.len(),
            rest@ == orig.skip(out@.len() as int),
            forall|i: int| 0 <= i < out@.len() ==> (#[trigger] out@[i]).name == orig[i].name,
            forall|i: int|
                0 <= i < out@.len() ==> (orig[i].addr is None ==> (#[trigger] out@[i]).ip is None),
        decreases rest@.len(),
    {
        let entry = rest.remove(0);
        proof {
            assert(entry == orig[out@.len() as int]);
        }
        let ip: Option<IpAddress> = match &entry.addr {
            Some(a) => classify_sockaddr(a),
            None => None,
        };
        out.push(ClassifiedInterface { name: entry.name, ip });
        proof {
            assert(rest@ =~= orig.skip(out@.len() as int));
        }
    }
    out
}

/// The diagnostic note recorded for a skipped pair.
pub open spec fn note_for(name: Seq<char>) -> Seq<char> {
    "interface "@ + name + " with unsupported address family"@
}

fn make_note(name: String) -> (r: String)
    ensures
        r@ == note_for(name@),
{
    let mut n = String::from_str("interface ");
    n.append(name.as_str());
    n.append(" with unsupported address family");
    n
}

/// The addresses that classification keeps, in order.
pub open spec fn spec_emitted(s: Seq<ClassifiedInterface>) -> Seq<InterfaceAddress>
    decreases s.len(),
{
    if s.len() == 0 {
        Seq::empty()
    } else {
        let rest = spec_emitted(s.drop_first());
        match s[0].ip {
            Some(ip) => seq![InterfaceAddress { name: s[0].name, ip }] + rest,
            None => rest,
        }
    }
}

/// The notes that classification records for the skipped pairs, in order.
pub open spec fn spec_notes(s: Seq<ClassifiedInterface>) -> Seq<Seq<char>>
    decreases s.len(),
{
    if s.len() == 0 {
        Seq::empty()
    } else {
        let rest = spec_notes(s.drop_first());
        match s[0].ip {
            Some(_) => rest,
            None => seq![note_for(s[0].name@)] + rest,
        }
    }
}

/// Law: every classified pair is either emitted or noted, never both, so
/// the emitted addresses never outnumber the enumerated pairs; and every
/// emitted address is of a supported family.
pub proof fn lemma_emitted_bounded(s: Seq<ClassifiedInterface>)
    ensures
        spec_emitted(s).len() + spec_notes(s).len() == s.len(),
        spec_emitted(s).len() <= s.len(),
        forall|k: int|
            0 <= k < spec_emitted(s).len() ==> is_supported((#[trigger] spec_emitted(s)[k]).ip),
    decreases s.len(),
{
    if s.len() > 0 {
        lemma_emitted_bounded(s.drop_first());
    }
}

/// Turns the classified pairs into the report: addresses for the kept
/// pairs, a note for each skipped one, both in enumeration order.
pub fn build_report(entries: Vec<ClassifiedInterface>) -> (r: InterfacesReport)
    ensures
        r.addresses@ == spec_emitted(entries@),
        r.notes.deep_view() == spec_notes(entries@),
{
    let ghost orig = entries@;
    let mut rest = entries;
    let mut addresses: Vec<InterfaceAddress> = Vec::new();
    let mut notes: Vec<String> = Vec::new();
    proof {
        assert(addresses@ + spec_emitted(orig) =~= spec_emitted(orig));
        assert(notes.deep_view() =~= Seq::<Seq<char>>::empty());
        assert(notes.deep_view() + spec_notes(orig) =~= spec_notes(orig));
    }
    while rest.len() > 0
        invariant
            spec_emitted(orig) == addresses@ + spec_emitted(rest@),
            spec_notes(orig) == notes.deep_view() + spec_notes(rest@),
        decreases rest@.len(),
    {
        let ghost prev = rest@;
        let entry = rest.remove(0);
        proof {
            assert(entry == prev[0]);
            assert(rest@ =~= prev.drop_first());
        }
        match entry.ip {
            Some(ip) => {
                let ghost a0 = addresses@;
                addresses.push(InterfaceAddress { name: entry.name, ip });
                proof {
                    assert(spec_emitted(prev) == seq![
                        InterfaceAddress { name: prev[0].name, ip },
                    ] + spec_emitted(prev.drop_first()));
                    assert(addresses@ =~= a0 + seq![InterfaceAddress { name: entry.name, ip }]);
                    assert((a0 + seq![InterfaceAddress { name: entry.name, ip }]) + spec_emitted(
                        rest@,
                    ) =~= a0 + spec_emitted(prev));
                }
            },
            None => {
                let ghost n0 = notes.deep_view();
                let note = make_note(entry.name);
                let ghost nv = note@;
                notes.push(note);
                proof {
                    assert(spec_notes(prev) == seq![note_for(prev[0].name@)] + spec_notes(
                        prev.drop_first(),
                    ));
                    assert(notes.deep_view() =~= n0 + seq![nv]);
                    assert((n0 + seq![nv]) + spec_notes(rest@) =~= n0 + spec_notes(prev));
                }
            },
        }
    }
    proof {
        assert(spec_emitted(rest@) =~= Seq::<InterfaceAddress>::empty());
        assert(addresses@ + Seq::<InterfaceAddress>::empty() =~= addresses@);
        assert(spec_notes(rest@) =~= Seq::<Seq<char>>::empty());
        assert(notes.deep_view() + Seq::<Seq<char>>::empty() =~= notes.deep_view());
    }
    InterfacesReport { addresses, notes }
}

/// Enumerates the host's interfaces and classifies every pair. Fails, with
/// `SystemQueryError` alone, only when the enumeration call itself fails;
/// a skipped pair instead leaves a note and the collection goes on.
pub fn get_ip_addr_info() -> (r: Result<InterfacesReport, HostError>)
    ensures
        r matches Err(e) ==> e == HostError::SystemQueryError,
        r matches Ok(rep) ==> exists|c: Seq<ClassifiedInterface>|
            rep.addresses@ == spec_emitted(c) && rep.notes.deep_view() == spec_notes(c)
                && rep.addresses@.len() + rep.notes@.len() == c.len(),
        r matches Ok(rep) ==> forall|k: int|
            0 <= k < rep.addresses@.len() ==> is_supported((#[trigger] rep.addresses@[k]).ip),
{
    match fetch_interfaces() {
        None => Err(HostError::SystemQueryError),
        Some(raw) => {
            let classified = classify_all(raw);
            let ghost c = classified@;
            let rep = build_report(classified);
            proof {
                lemma_emitted_bounded(c);
                assert(rep.notes@.len() == rep.notes.deep_view().len());
            }
            Ok(rep)
        },
    }
}

} // verus!
