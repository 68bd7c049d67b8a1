//! Choosing the VPN interfaces of an enumeration.
use vstd::prelude::*;
use crate::iface::{
    InterfaceRecord, InterfaceSnapshot, has_ipv4_family, lowest_ipv4, lowest_ipv4_address,
    has_ipv4_entry,
};

verus! {

/// The naming convention by which a platform marks its VPN interfaces.
pub enum NamePolicy {
    /// The name begins with this text (tunnel interfaces such as `tun0`).
    Prefix(String),
    /// The name contains this text (an adapter vendor's descriptive name).
    Contains(String),
}

/// Whether `pat` occurs in `s` at position `at`.
pub open spec fn occurs_at(s: Seq<char>, pat: Seq<char>, at: int) -> bool {
    0 <= at && at + pat.len() <= s.len() && s.subrange(at, at + pat.len()) == pat
}

/// Whether a name follows the naming convention.
pub open spec fn name_matches(policy: NamePolicy, name: Seq<char>) -> bool {
    match policy {
        NamePolicy::Prefix(p) => occurs_at(name, p@, 0),
        NamePolicy::Contains(n) => exists|at: int| occurs_at(name, n@, at),
    }
}

/// Whether a record is a VPN interface that can be reported: its name follows
/// the convention, it has an IPv4-tagged entry, and some entry carries an
/// IPv4 address.
pub open spec fn is_candidate(policy: NamePolicy, rec: InterfaceRecord) -> bool {
    name_matches(policy, rec.name@) && has_ipv4_family(rec.addresses@)
        && lowest_ipv4(rec.addresses@) is Some
}

/// The snapshot of a candidate record: its name and lowest IPv4 address.
pub open spec fn snapshot_of(rec: InterfaceRecord) -> InterfaceSnapshot {
    InterfaceSnapshot { name: rec.name, address: lowest_ipv4(rec.addresses@)->0, index: rec.index }
}

/// The candidates of an enumeration, in enumeration order.
pub open spec fn selected(policy: NamePolicy, recs: Seq<InterfaceRecord>) -> Seq<InterfaceSnapshot>
    decreases recs.len(),
{
    if recs.len() == 0 {
        Seq::empty()
    } else {
        let init = selected(policy, recs.drop_last());
        if is_candidate(policy, recs.last()) {
            init.push(snapshot_of(recs.last()))
        } else {
            init
        }
    }
}

/// Whether `pat` occurs in `s` at position `at`.
fn occurs_at_exec(s: &str, pat: &str, at: usize) -> (r: bool)
    requires
        at <= s@.len(),
    ensures
        r == occurs_at(s@, pat@, at as int),
{
    let n = s.unicode_len();
    let m = pat.unicode_len();
    if m > n - at {
        return false;
    }
    let mut k: usize = 0;
    while k < m
        invariant
            n == s@.len(),
            m == pat@.len(),
            at + m <= n,
            k <= m,
            forall|j: int| 0 <= j < k ==> s@[at + j] == pat@[j],
        decreases m - k,
    {
        if s.get_char(at + k) != pat.get_char(k) {
            assert(s@.subrange(at as int, at + m)[k as int] != pat@[k as int]);
            return false;
        }
        k = k + 1;
    }
    assert(s@.subrange(at as int, at + m) == pat@);
    true
}

/// Whether `pat` occurs anywhere in `s`.
fn occurs_in(s: &str, pat: &str) -> (r: bool)
    ensures
        r == exists|at: int| occurs_at(s@, pat@, at),
{
    let n = s.unicode_len();
    let m = pat.unicode_len();
    if m > n {
        return false;
    }
    let last = n - m;
    let mut at: usize = 0;
    loop
        invariant
            n == s@.len(),
            m == pat@.len(),
            last == n - m,
            at <= last,
            forall|j: int| 0 <= j < at ==> !occurs_at(s@, pat@, j),
        decreases last - at,
    {
        if occurs_at_exec(s, pat, at) {
            return true;
        }
        if at == last {
            assert forall|j: int| !occurs_at(s@, pat@, j) by {
                if 0 <= j && j < at {
                }
            }
            return false;
        }
        at = at + 1;
    }
}

impl NamePolicy {
    /// Whether a name follows this naming convention.
    pub fn matches(&self, name: &str) -> (r: bool)
        ensures
            r == name_matches(*self, name@),
    {
        match self {
            NamePolicy::Prefix(p) => occurs_at_exec(name, p.as_str(), 0),
            NamePolicy::Contains(needle) => occurs_in(name, needle.as_str()),
        }
    }
}

/// The snapshot of a record when it is a VPN candidate under the policy.
pub fn candidate_of(policy: &NamePolicy, rec: &InterfaceRecord) -> (r: Option<InterfaceSnapshot>)
    ensures
        r == (if is_candidate(*policy, *rec) { Some(snapshot_of(*rec)) } else { None }),
{
    if !policy.matches(rec.name.as_str()) || !has_ipv4_entry(&rec.addresses) {
        return None;
    }
    match lowest_ipv4_address(&rec.addresses) {
        Some(address) => Some(InterfaceSnapshot { name: rec.name.clone(), address, index: rec.index }),
        None => None,
    }
}

/// The VPN candidates of an enumeration, in enumeration order: the records
/// whose name follows the policy and which carry an IPv4 address, each
/// reduced to its name and lowest IPv4 address.
pub fn select(policy: &NamePolicy, records: &Vec<InterfaceRecord>) -> (r: Vec<InterfaceSnapshot>)
    ensures
        r@ == selected(*policy, records@),
{
    let mut out: Vec<InterfaceSnapshot> = Vec::new();
    let mut i: usize = 0;
    while i < records.len()
        invariant
            i <= records.len(),
            out@ == selected(*policy, records@.subrange(0, i as int)),
        decreases records.len() - i,
    {
        assert(records@.subrange(0, i + 1).drop_last() == records@.subrange(0, i as int));
        match candidate_of(policy, &records[i]) {
            Some(s) => out.push(s),
            None => {},
        }
        i = i + 1;
    }
    assert(records@.subrange(0, records@.len() as int) == records@);
    out
}

} // verus!
