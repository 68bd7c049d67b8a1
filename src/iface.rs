//! Interface records as the operating system enumerates them, and the
//! snapshot of one interface's reportable state.
use vstd::prelude::*;

verus! {

/// Address family tag of one interface address.
#[derive(Clone, Copy, Debug, PartialEq, Eq, Structural)]
pub enum AddressFamily {
    IPv4,
    IPv6,
    Link,
    Packet,
    Unknown(i32),
}

/// An IP address; an IPv4 address is its four bytes read big-endian.
#[derive(Clone, Copy, Debug, PartialEq, Eq, Structural)]
pub enum IpAddress {
    V4(u32),
    V6(u128),
}

/// One address entry of an interface record.
#[derive(Clone, Copy, Debug, PartialEq, Eq, Structural)]
pub struct RecordAddress {
    pub family: AddressFamily,
    pub address: Option<IpAddress>,
}

/// One raw interface record of an enumeration.
pub struct InterfaceRecord {
    pub name: String,
    pub addresses: Vec<RecordAddress>,
    /// OS-assigned interface index, where the source knows one.
    pub index: u32,
}

/// Normalized state of one interface: its name and chosen IPv4 address.
pub struct InterfaceSnapshot {
    pub name: String,
    /// The IPv4 address, its four bytes read big-endian.
    pub address: u32,
    /// Informational only: not part of the reported state.
    pub index: u32,
}

/// The IPv4 address an entry carries, if it carries one.
pub open spec fn ipv4_of(a: RecordAddress) -> Option<u32> {
    match a.address {
        Some(IpAddress::V4(v)) => Some(v),
        _ => None,
    }
}

/// The lowest IPv4 address among the entries, if any entry carries one.
pub open spec fn lowest_ipv4(addrs: Seq<RecordAddress>) -> Option<u32>
    decreases addrs.len(),
{
    if addrs.len() == 0 {
        None
    } else {
        let rest = lowest_ipv4(addrs.drop_last());
        match ipv4_of(addrs.last()) {
            Some(v) => match rest {
                Some(m) => if v < m { Some(v) } else { Some(m) },
                None => Some(v),
            },
            None => rest,
        }
    }
}

/// Whether some entry is tagged with the IPv4 family.
pub open spec fn has_ipv4_family(addrs: Seq<RecordAddress>) -> bool {
    exists|i: int| 0 <= i < addrs.len() && addrs[i].family == AddressFamily::IPv4
}

/// Two snapshots stand for the same reported state when their names and
/// addresses agree; the index does not count.
pub open spec fn same_state(a: InterfaceSnapshot, b: InterfaceSnapshot) -> bool {
    a.name@ == b.name@ && a.address == b.address
}

/// `lowest_ipv4` is the minimum of the IPv4 addresses that the entries carry.
pub proof fn lemma_lowest_ipv4_is_minimum(addrs: Seq<RecordAddress>)
    ensures
        lowest_ipv4(addrs) is None <==> (forall|i: int| 0 <= i < addrs.len() ==> ipv4_of(#[trigger] addrs[i]) is None),
        lowest_ipv4(addrs) matches Some(m) ==> {
            &&& exists|i: int| 0 <= i < addrs.len() && ipv4_of(#[trigger] addrs[i]) == Some(m)
            &&& forall|i: int| 0 <= i < addrs.len() && #[trigger] ipv4_of(addrs[i]) is Some ==> m <= ipv4_of(addrs[i])->0
        },
    decreases addrs.len(),
{
    if addrs.len() > 0 {
        let init = addrs.drop_last();
        lemma_lowest_ipv4_is_minimum(init);
        assert forall|i: int| 0 <= i < init.len() implies init[i] == addrs[i] by {}
        let n = addrs.len() - 1;
        if let Some(m) = lowest_ipv4(init) {
            let i = choose|i: int| 0 <= i < init.len() && ipv4_of(#[trigger] init[i]) == Some(m);
            assert(addrs[i] == init[i]);
        }
        if lowest_ipv4(init) is None && ipv4_of(addrs.last()) is None {
            assert forall|i: int| 0 <= i < addrs.len() implies ipv4_of(#[trigger] addrs[i]) is None by {
                if i < n {
                    assert(addrs[i] == init[i]);
                }
            }
        }
        if lowest_ipv4(addrs) is None {
            assert(ipv4_of(addrs[n]) is None);
        }
    }
}

/// The lowest IPv4 address among the entries (the tie-break between several
/// IPv4 addresses of one interface).
pub fn lowest_ipv4_address(addrs: &Vec<RecordAddress>) -> (r: Option<u32>)
    ensures
        r == lowest_ipv4(addrs@),
{
    let mut best: Option<u32> = None;
    let mut i: usize = 0;
    while i < addrs.len()
        invariant
            i <= addrs.len(),
            best == lowest_ipv4(addrs@.subrange(0, i as int)),
        decreases addrs.len() - i,
    {
        let entry = addrs[i];
        assert(addrs@.subrange(0, i + 1).drop_last() == addrs@.subrange(0, i as int));
        match entry.address {
            Some(IpAddress::V4(v)) => {
                match best {
                    Some(m) => {
                        if v < m {
                            best = Some(v);
                        }
                    },
                    None => {
                        best = Some(v);
                    },
                }
            },
            _ => {},
        }
        i = i + 1;
    }
    assert(addrs@.subrange(0, addrs@.len() as int) == addrs@);
    best
}

/// Whether some entry is tagged with the IPv4 family.
pub fn has_ipv4_entry(addrs: &Vec<RecordAddress>) -> (r: bool)
    ensures
        r == has_ipv4_family(addrs@),
{
    let mut i: usize = 0;
    while i < addrs.len()
        invariant
            i <= addrs.len(),
            forall|j: int| 0 <= j < i ==> addrs@[j].family != AddressFamily::IPv4,
        decreases addrs.len() - i,
    {
        if addrs[i].family == AddressFamily::IPv4 {
            return true;
        }
        i = i + 1;
    }
    false
}

impl InterfaceSnapshot {
    /// Whether two snapshots stand for the same reported state.
    pub fn same_state(&self, other: &InterfaceSnapshot) -> (r: bool)
        ensures
            r == same_state(*self, *other),
    {
        self.address == other.address && self.name == other.name
    }
}

} // verus!
