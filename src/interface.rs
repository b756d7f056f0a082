//! One enumerated interface entry as plain values, and the queries over a
//! snapshot of entries in the order the operating system reported them.
use vstd::prelude::*;

use crate::address::{is_zero_mac, same_bytes};

verus! {

/// What the queries read of an entry: its name, and its hardware address if
/// the entry carries one.
pub type EntryView = (Seq<char>, Option<Seq<u8>>);

/// One entry of an interface enumeration.
#[derive(Debug)]
pub struct Interface {
    /// The interface's name as the operating system reports it.
    pub name: String,
    /// The entry's link-layer address, if it has one.
    pub mac: Option<[u8; 6]>,
}

impl View for Interface {
    type V = EntryView;

    open spec fn view(&self) -> EntryView {
        (
            self.name@,
            match self.mac {
                Some(b) => Some(b@),
                None => None,
            },
        )
    }
}

/// The views of a snapshot of entries.
pub open spec fn entries(v: Seq<Interface>) -> Seq<EntryView> {
    v.map_values(|i: Interface| i@)
}

/// The byte sequences of a sequence of addresses.
pub open spec fn mac_views(v: Seq<[u8; 6]>) -> Seq<Seq<u8>> {
    v.map_values(|m: [u8; 6]| m@)
}

/// Every hardware address carried by the entries, in order, zero or not.
pub open spec fn link_macs(s: Seq<EntryView>) -> Seq<Seq<u8>>
    decreases s.len(),
{
    if s.len() == 0 {
        Seq::empty()
    } else {
        let rest = link_macs(s.drop_first());
        match s[0].1 {
            Some(m) => seq![m] + rest,
            None => rest,
        }
    }
}

/// The hardware addresses carried by the entries that are not the all-zero
/// sentinel, in order, duplicates kept.
pub open spec fn nonzero_macs(s: Seq<EntryView>) -> Seq<Seq<u8>>
    decreases s.len(),
{
    if s.len() == 0 {
        Seq::empty()
    } else {
        let rest = nonzero_macs(s.drop_first());
        match s[0].1 {
            Some(m) => if is_zero_mac(m) {
                rest
            } else {
                seq![m] + rest
            },
            None => rest,
        }
    }
}

/// Whether an entry answers an address query: with a name, an entry of that
/// exact name that carries an address (zero or not); without one, an entry
/// that carries a non-zero address.
pub open spec fn answers(e: EntryView, name: Option<Seq<char>>) -> bool {
    match e.1 {
        Some(m) => match name {
            Some(n) => e.0 == n,
            None => !is_zero_mac(m),
        },
        None => false,
    }
}

/// The address of the first entry that answers the query, if any.
pub open spec fn first_mac(s: Seq<EntryView>, name: Option<Seq<char>>) -> Option<Seq<u8>>
    decreases s.len(),
{
    if s.len() == 0 {
        None
    } else if answers(s[0], name) {
        s[0].1
    } else {
        first_mac(s.drop_first(), name)
    }
}

/// The name of the first entry whose address is exactly `mac`, if any.
pub open spec fn first_name(s: Seq<EntryView>, mac: Seq<u8>) -> Option<Seq<char>>
    decreases s.len(),
{
    if s.len() == 0 {
        None
    } else if s[0].1 == Some(mac) {
        Some(s[0].0)
    } else {
        first_name(s.drop_first(), mac)
    }
}

/// The view of an optional query name.
pub open spec fn name_view(name: Option<&str>) -> Option<Seq<char>> {
    match name {
        Some(n) => Some(n@),
        None => None,
    }
}

/// The view of an optional address.
pub open spec fn opt_mac_view(m: Option<[u8; 6]>) -> Option<Seq<u8>> {
    match m {
        Some(b) => Some(b@),
        None => None,
    }
}

proof fn lemma_entries_skip(v: Seq<Interface>, i: int)
    requires
        0 <= i < v.len(),
    ensures
        entries(v).skip(i).len() > 0,
        entries(v).skip(i)[0] == v[i]@,
        entries(v).skip(i).drop_first() =~= entries(v).skip(i + 1),
{
}

/// Whether entry `entry` answers the query.
pub(crate) fn entry_answers(entry: &Interface, name: &Option<String>) -> (r: bool)
    ensures
        r == answers(entry@, match name {
            Some(n) => Some(n@),
            None => None,
        }),
{
    match &entry.mac {
        None => false,
        Some(b) => match name {
            Some(n) => entry.name == *n,
            None => !crate::address::all_zero(b),
        },
    }
}

/// The address of the first entry of `interfaces` that answers the query:
/// the first entry named exactly `name` that carries an address, or, without
/// a name, the first entry whose address is not all zero.
pub fn find_mac(interfaces: &Vec<Interface>, name: Option<&str>) -> (r: Option<[u8; 6]>)
    ensures
        opt_mac_view(r) == first_mac(entries(interfaces@), name_view(name)),
{
    let owned: Option<String> = match name {
        Some(n) => Some(n.to_owned()),
        None => None,
    };
    let ghost s = entries(interfaces@);
    let mut i: usize = 0;
    proof {
        assert(s.skip(0) =~= s);
    }
    while i < interfaces.len()
        invariant
            0 <= i <= interfaces@.len(),
            s == entries(interfaces@),
            owned matches Some(o) ==> name matches Some(n) && o@ == n@,
            owned is None <==> name is None,
            first_mac(s, name_view(name)) == first_mac(s.skip(i as int), name_view(name)),
        decreases interfaces@.len() - i,
    {
        proof {
            lemma_entries_skip(interfaces@, i as int);
        }
        if entry_answers(&interfaces[i], &owned) {
            return interfaces[i].mac;
        }
        i = i + 1;
    }
    None
}

/// The non-zero addresses of `interfaces`, in order, duplicates kept.
pub fn nonzero_mac_list(interfaces: &Vec<Interface>) -> (r: Vec<[u8; 6]>)
    ensures
        mac_views(r@) == nonzero_macs(entries(interfaces@)),
{
    let ghost s = entries(interfaces@);
    let mut out: Vec<[u8; 6]> = Vec::new();
    let mut i: usize = 0;
    proof {
        assert(s.skip(0) =~= s);
        assert(mac_views(out@) + nonzero_macs(s) =~= nonzero_macs(s));
    }
    while i < interfaces.len()
        invariant
            0 <= i <= interfaces@.len(),
            s == entries(interfaces@),
            mac_views(out@) + nonzero_macs(s.skip(i as int)) == nonzero_macs(s),
        decreases interfaces@.len() - i,
    {
        proof {
            lemma_entries_skip(interfaces@, i as int);
        }
        let ghost before = out@;
        match interfaces[i].mac {
            Some(b) => {
                if !crate::address::all_zero(&b) {
                    out.push(b);
                    assert(mac_views(out@) =~= mac_views(before) + seq![b@]);
                }
            },
            None => {},
        }
        proof {
            let rest = nonzero_macs(s.skip(i as int + 1));
            assert(mac_views(out@) + rest =~= mac_views(before) + nonzero_macs(s.skip(i as int)));
        }
        i = i + 1;
    }
    proof {
        assert(s.skip(i as int) =~= Seq::<EntryView>::empty());
        assert(mac_views(out@) + Seq::<Seq<u8>>::empty() =~= mac_views(out@));
    }
    out
}

/// The name of the first entry of `interfaces` whose address is exactly
/// `mac`, the all-zero address included.
pub fn find_ifname(interfaces: &Vec<Interface>, mac: &[u8; 6]) -> (r: Option<String>)
    ensures
        match r {
            Some(n) => first_name(entries(interfaces@), mac@) == Some(n@),
            None => first_name(entries(interfaces@), mac@) is None,
        },
{
    let ghost s = entries(interfaces@);
    let mut i: usize = 0;
    proof {
        assert(s.skip(0) =~= s);
    }
    while i < interfaces.len()
        invariant
            0 <= i <= interfaces@.len(),
            s == entries(interfaces@),
            first_name(s, mac@) == first_name(s.skip(i as int), mac@),
        decreases interfaces@.len() - i,
    {
        proof {
            lemma_entries_skip(interfaces@, i as int);
        }
        match &interfaces[i].mac {
            Some(b) => {
                if same_bytes(b, mac) {
                    return Some(interfaces[i].name.clone());
                }
            },
            None => {},
        }
        i = i + 1;
    }
    None
}

/// Every address that the non-zero listing holds is non-zero.
pub proof fn lemma_listed_macs_nonzero(s: Seq<EntryView>)
    ensures
        forall|i: int| 0 <= i < nonzero_macs(s).len() ==> !is_zero_mac(#[trigger] nonzero_macs(s)[i]),
    decreases s.len(),
{
    if s.len() > 0 {
        lemma_listed_macs_nonzero(s.drop_first());
        let rest = nonzero_macs(s.drop_first());
        assert forall|i: int| 0 <= i < nonzero_macs(s).len() implies !is_zero_mac(
            #[trigger] nonzero_macs(s)[i],
        ) by {
            match s[0].1 {
                Some(m) => if !is_zero_mac(m) && i > 0 {
                    assert(nonzero_macs(s)[i] == rest[i - 1]);
                },
                None => {},
            }
        }
    }
}

/// Where every entry named `n` that carries an address carries `a`, and one
/// such entry exists, the lookup by `n` yields `a`.
pub proof fn lemma_lookup_by_name(s: Seq<EntryView>, n: Seq<char>, a: Seq<u8>)
    requires
        exists|i: int| 0 <= i < s.len() && s[i] == (n, Some(a)),
        forall|j: int|
            0 <= j < s.len() && (#[trigger] s[j]).0 == n && s[j].1 is Some ==> s[j].1 == Some(a),
    ensures
        first_mac(s, Some(n)) == Some(a),
    decreases s.len(),
{
    let i = choose|i: int| 0 <= i < s.len() && s[i] == (n, Some(a));
    if s[0].0 == n && s[0].1 is Some {
        assert(s[0].1 == Some(a));
    } else {
        assert(i > 0);
        let t = s.drop_first();
        assert(t[i - 1] == s[i]);
        assert forall|j: int|
            0 <= j < t.len() && (#[trigger] t[j]).0 == n && t[j].1 is Some implies t[j].1 == Some(
                a,
            ) by {
            assert(t[j] == s[j + 1]);
        }
        lemma_lookup_by_name(t, n, a);
    }
}

/// The lookup without a name yields the first address of the non-zero
/// listing, and nothing exactly when that listing is empty.
pub proof fn lemma_default_is_first_listed(s: Seq<EntryView>)
    ensures
        first_mac(s, None) == (if nonzero_macs(s).len() == 0 {
            None
        } else {
            Some(nonzero_macs(s)[0])
        }),
    decreases s.len(),
{
    if s.len() > 0 {
        lemma_default_is_first_listed(s.drop_first());
    }
}

/// Every address of the non-zero listing leads back, by the reverse lookup,
/// to the name of an entry.
pub proof fn lemma_listed_macs_have_names(s: Seq<EntryView>, a: Seq<u8>)
    requires
        nonzero_macs(s).contains(a),
    ensures
        first_name(s, a) is Some,
    decreases s.len(),
{
    if s[0].1 != Some(a) {
        let rest = nonzero_macs(s.drop_first());
        let k = choose|k: int| 0 <= k < nonzero_macs(s).len() && nonzero_macs(s)[k] == a;
        match s[0].1 {
            Some(m) => if !is_zero_mac(m) {
                assert(k > 0);
                assert(rest[k - 1] == a);
            } else {
                assert(rest[k] == a);
            },
            None => {
                assert(rest[k] == a);
            },
        }
        lemma_listed_macs_have_names(s.drop_first(), a);
    }
}

} // verus!
