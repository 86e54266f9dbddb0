//! What comes out of a datagram socket: packets with the time they arrived, and the
//! addresses a name resolves to.

use crate::time::HostTime;
use vstd::prelude::*;
use vstd::string::*;

verus! {

/// One reception.
#[derive(Clone, Copy, Debug, PartialEq, Eq, Structural)]
pub struct Received {
    pub len: usize,
    /// The arrival as the kernel noted it, where it did.
    pub kernel_time: Option<HostTime>,
    /// Read right after the call returned, so never before the arrival.
    pub user_time: HostTime,
}

impl Received {
    pub open spec fn arrival_spec(self) -> HostTime {
        match self.kernel_time {
            Some(k) => k,
            None => self.user_time,
        }
    }

    /// The instant to use for t₄: the kernel's where there is one. The other is late,
    /// which can only widen an interval.
    pub fn arrival(&self) -> (t: HostTime)
        ensures
            t == self.arrival_spec(),
    {
        match self.kernel_time {
            Some(k) => k,
            None => self.user_time,
        }
    }
}

/// An address that a host name resolved to.
#[derive(Clone, Copy, Debug, PartialEq, Eq, Structural)]
pub enum Address {
    V4 { ip: u32, port: u16 },
    V6,
}

/// An IPv4 address and port.
#[derive(Clone, Copy, Debug, PartialEq, Eq, Structural)]
pub struct AddressV4 {
    pub ip: u32,
    pub port: u16,
}

/// The IPv4 addresses of a list, in its order.
pub open spec fn v4_of(found: Seq<Address>) -> Seq<AddressV4>
    decreases found.len(),
{
    if found.len() == 0 {
        Seq::empty()
    } else {
        let front = v4_of(found.drop_last());
        match found.last() {
            Address::V4 { ip, port } => front.push(AddressV4 { ip, port }),
            Address::V6 => front,
        }
    }
}

/// Keeps the IPv4 addresses among those that `host` resolved to. None at all is an error.
pub fn resolve_ipv4(host: &str, found: &Vec<Address>) -> (r: Result<Vec<AddressV4>, String>)
    ensures
        r is Ok <==> v4_of(found@).len() > 0,
        r is Ok ==> r->Ok_0@ == v4_of(found@),
        r is Err ==> r->Err_0@ == host@ + " 沒有 IPv4 位址"@,
{
    let mut kept: Vec<AddressV4> = Vec::new();
    let mut i: usize = 0;
    while i < found.len()
        invariant
            i <= found@.len(),
            kept@ == v4_of(found@.subrange(0, i as int)),
        decreases found@.len() - i,
    {
        proof {
            assert(found@.subrange(0, i + 1).drop_last() =~= found@.subrange(0, i as int));
        }
        match found[i] {
            Address::V4 { ip, port } => kept.push(AddressV4 { ip, port }),
            Address::V6 => {},
        }
        i = i + 1;
    }
    proof {
        assert(found@.subrange(0, i as int) =~= found@);
    }
    if kept.len() == 0 {
        let mut text: String = host.to_owned();
        text.append(" 沒有 IPv4 位址");
        Err(text)
    } else {
        Ok(kept)
    }
}

/// The kernel's time counts wherever there is one.
pub proof fn the_kernels_time_counts(r: Received, t: HostTime)
    ensures
        r.kernel_time == Some(t) ==> r.arrival_spec() == t,
        r.kernel_time is None ==> r.arrival_spec() == r.user_time,
{
}

/// The addresses kept are those of version 4, all of them, in their order.
pub proof fn all_addresses_of_version_4_are_kept(a: Seq<Address>, b: Seq<Address>, ip: u32, port: u16)
    ensures
        v4_of(Seq::<Address>::empty()) == Seq::<AddressV4>::empty(),
        v4_of(a.push(Address::V4 { ip, port })) == v4_of(a).push(AddressV4 { ip, port }),
        v4_of(a.push(Address::V6)) == v4_of(a),
        v4_of(a + b) == v4_of(a) + v4_of(b),
    decreases b.len(),
{
    assert(a.push(Address::V4 { ip, port }).drop_last() =~= a);
    assert(a.push(Address::V6).drop_last() =~= a);
    if b.len() > 0 {
        all_addresses_of_version_4_are_kept(a, b.drop_last(), ip, port);
        assert((a + b).drop_last() =~= a + b.drop_last());
        assert((a + b).last() == b.last());
        assert(v4_of(a + b) =~= v4_of(a) + v4_of(b));
    } else {
        assert(a + b =~= a);
        assert(v4_of(a) + v4_of(b) =~= v4_of(a));
    }
}

/// A host without an address of version 4 is refused with its name, and one with any gives all.
pub proof fn a_host_without_version_4_is_refused(
    host: &str,
    found: Vec<Address>,
    r: Result<Vec<AddressV4>, String>,
)
    requires
        call_ensures(resolve_ipv4, (host, &found), r),
    ensures
        r is Err <==> v4_of(found@) =~= Seq::empty(),
        r is Ok ==> r->Ok_0@ == v4_of(found@),
        r is Err ==> r->Err_0@.len() >= host@.len() && r->Err_0@.subrange(0, host@.len() as int)
            == host@,
{
    if r is Err {
        assert(r->Err_0@.subrange(0, host@.len() as int) =~= host@);
    }
}

} // verus!
