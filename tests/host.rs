use mac_address::os::open_interfaces;
use mac_address::query::{first_mac_in, first_name_in};
use mac_address::{get_ifname, get_mac, get_mac_list, MacAddressIterator};

#[test]
fn host_listing_has_no_zero_address() {
    let list = get_mac_list().unwrap();
    for m in &list {
        assert_ne!(*m, [0u8; 6]);
    }
}

#[test]
fn host_default_address_is_first_of_listing() {
    let first = get_mac(None).unwrap();
    let list = get_mac_list().unwrap();
    assert_eq!(first, list.first().copied());
}

#[test]
fn host_listed_addresses_have_names() {
    for m in get_mac_list().unwrap() {
        let name = get_ifname(&m).unwrap();
        assert!(name.is_some());
        assert_eq!(get_mac(Some(name.unwrap().as_str())).unwrap().is_some(), true);
    }
}

#[test]
fn host_unknown_name_has_no_address() {
    assert_eq!(get_mac(Some("no such interface \u{1}")).unwrap(), None);
}

#[test]
fn host_iterator_exhaustion_is_idempotent() {
    let mut it = MacAddressIterator::new().unwrap();
    let mut n: usize = 0;
    while it.next().is_some() {
        n += 1;
        assert!(n < 100_000);
    }
    assert!(it.next().is_none());
    assert!(it.next().is_none());
}

#[test]
fn host_snapshot_lookups_agree() {
    let mut it = open_interfaces().unwrap();
    let first = first_mac_in(&mut it, None);
    if let Some(m) = first {
        assert_ne!(m, [0u8; 6]);
        let mut again = open_interfaces().unwrap();
        let name = first_name_in(&mut again, &m);
        assert!(name.is_some());
    }
    let mut spent = open_interfaces().unwrap();
    while first_mac_in(&mut spent, None).is_some() {}
    assert_eq!(first_mac_in(&mut spent, None), None);
    assert_eq!(first_name_in(&mut spent, &[0u8; 6]), None);
}
