use mac_address::buffer::{
    buffer_interfaces, name_units, record_first_mac, record_mac_list, RecordCursor,
};
use mac_address::interface::{find_ifname, find_mac, nonzero_mac_list};
use mac_address::{MacAddressError, MacAddressIterator};

const ETH0: [u8; 6] = [0x00, 0x11, 0x22, 0x33, 0x44, 0x55];
const ZERO: [u8; 6] = [0, 0, 0, 0, 0, 0];

/// One record: address, two reserved bytes, the link, the name's units and a
/// zero unit.
fn record(mac: [u8; 6], next: u32, name: &[u16]) -> Vec<u8> {
    let mut r = mac.to_vec();
    r.extend_from_slice(&[0, 0]);
    r.extend_from_slice(&next.to_le_bytes());
    for u in name {
        r.extend_from_slice(&u.to_le_bytes());
    }
    r.extend_from_slice(&[0, 0]);
    r
}

fn utf16(s: &str) -> Vec<u16> {
    s.encode_utf16().collect()
}

/// Records laid out one after another, each linking to the following one.
fn chain(records: &[([u8; 6], &str)]) -> Vec<u8> {
    let mut out = Vec::new();
    for (i, (mac, name)) in records.iter().enumerate() {
        let len = record(*mac, 0, &utf16(name)).len();
        let next = if i + 1 < records.len() { (out.len() + len) as u32 } else { 0 };
        out.extend(record(*mac, next, &utf16(name)));
    }
    out
}

#[test]
fn records_round_trip_through_queries() {
    let bytes = chain(&[(ETH0, "eth0"), (ZERO, "lo")]);
    let list = buffer_interfaces(&bytes).unwrap();
    assert_eq!(list.len(), 2);
    assert_eq!(list[0].name, "eth0");
    assert_eq!(list[0].mac, Some(ETH0));
    assert_eq!(list[1].name, "lo");
    assert_eq!(list[1].mac, Some(ZERO));
    assert_eq!(nonzero_mac_list(&list), vec![ETH0]);
    assert_eq!(find_mac(&list, Some("eth0")), Some(ETH0));
    assert_eq!(find_mac(&list, Some("lo")), Some(ZERO));
    assert_eq!(find_ifname(&list, &ETH0), Some("eth0".to_string()));
    assert_eq!(find_mac(&list, None), Some(ETH0));
}

#[test]
fn iterator_over_records_yields_chain_order() {
    let a = [1, 2, 3, 4, 5, 6];
    let bytes = chain(&[(ETH0, "eth0"), (ZERO, "lo"), (a, "Wi-Fi")]);
    let mut it = MacAddressIterator::from_records(bytes);
    assert_eq!(it.next().map(|m| m.bytes()), Some(ETH0));
    assert_eq!(it.next().map(|m| m.bytes()), Some(ZERO));
    assert_eq!(it.next().map(|m| m.bytes()), Some(a));
    assert!(it.next().is_none());
}

#[test]
fn exhausted_iterator_stays_exhausted() {
    let mut it = MacAddressIterator::from_records(chain(&[(ETH0, "eth0")]));
    assert!(it.next().is_some());
    for _ in 0..5 {
        assert!(it.next().is_none());
    }
    let mut empty = MacAddressIterator::from_records(Vec::new());
    assert!(empty.next().is_none());
    assert!(empty.next().is_none());
}

#[test]
fn cursor_follows_links_not_layout() {
    // The first record links to a third record placed after a second one
    // that the chain skips.
    let first_len = record(ETH0, 0, &utf16("a")).len();
    let skipped = record([7; 6], 0, &utf16("b"));
    let target = (first_len + skipped.len()) as u32;
    let mut bytes = record(ETH0, target, &utf16("a"));
    bytes.extend(skipped);
    bytes.extend(record([9; 6], 0, &utf16("c")));
    let mut c = RecordCursor::new(bytes.clone());
    assert_eq!(c.next().map(|m| m.bytes()), Some(ETH0));
    assert_eq!(c.next().map(|m| m.bytes()), Some([9; 6]));
    assert!(c.next().is_none());
    let names: Vec<String> = buffer_interfaces(&bytes).unwrap().into_iter().map(|i| i.name).collect();
    assert_eq!(names, vec!["a".to_string(), "c".to_string()]);
}

#[test]
fn backward_or_outside_link_ends_chain() {
    let bytes = chain(&[(ETH0, "a"), ([3; 6], "b")]);
    let second = record(ETH0, 0, &utf16("a")).len();
    // The second record links back to offset 1, behind its own start.
    let mut back = bytes.clone();
    back[second + 8..second + 12].copy_from_slice(&1u32.to_le_bytes());
    assert_eq!(buffer_interfaces(&back).unwrap().len(), 2);
    let mut it = MacAddressIterator::from_records(back);
    assert!(it.next().is_some());
    assert!(it.next().is_some());
    assert!(it.next().is_none());
    // The first record links past the end of the buffer.
    let mut outside = bytes.clone();
    outside[8..12].copy_from_slice(&10_000u32.to_le_bytes());
    assert_eq!(buffer_interfaces(&outside).unwrap().len(), 1);
    let mut it = MacAddressIterator::from_records(outside);
    assert!(it.next().is_some());
    assert!(it.next().is_none());
}

#[test]
fn truncated_header_is_no_record() {
    let bytes = vec![1, 2, 3, 4, 5, 6, 0, 0, 0, 0, 0];
    assert!(buffer_interfaces(&bytes).unwrap().is_empty());
    assert!(MacAddressIterator::from_records(bytes).next().is_none());
}

#[test]
fn unterminated_name_is_internal_error() {
    let mut bytes = record(ETH0, 0, &utf16("eth0"));
    bytes.truncate(bytes.len() - 2);
    assert_eq!(buffer_interfaces(&bytes).unwrap_err(), MacAddressError::InternalError);
}

#[test]
fn invalid_utf16_name_is_internal_error() {
    let bytes = record(ETH0, 0, &[0x0065, 0xD800, 0x0066]);
    assert_eq!(buffer_interfaces(&bytes).unwrap_err(), MacAddressError::InternalError);
}

#[test]
fn names_decode_beyond_ascii() {
    let bytes = chain(&[(ETH0, "Ethernet ü 🦀"), (ZERO, "")]);
    let list = buffer_interfaces(&bytes).unwrap();
    assert_eq!(list[0].name, "Ethernet ü 🦀");
    assert_eq!(list[1].name, "");
}

#[test]
fn name_units_stop_at_zero() {
    let bytes = vec![0x41, 0x00, 0x42, 0x01, 0x00, 0x00, 0x43, 0x00];
    assert_eq!(name_units(&bytes, 0), Some(vec![0x0041, 0x0142]));
    assert_eq!(name_units(&bytes, 4), Some(vec![]));
    assert_eq!(name_units(&bytes, 6), None);
    assert_eq!(name_units(&bytes, 7), None);
    assert_eq!(name_units(&bytes, 100), None);
}

#[test]
fn record_listing_reads_no_names() {
    let a = [1, 2, 3, 4, 5, 6];
    let mut bytes = chain(&[(ZERO, "lo"), (ETH0, "eth0"), (a, "x"), (ETH0, "dup")]);
    // Break the first name's terminator: decoding names now fails, the
    // address listing does not.
    let bad = record(ZERO, 0, &[0xD800]);
    bytes[12..14].copy_from_slice(&bad[12..14]);
    assert_eq!(buffer_interfaces(&bytes).unwrap_err(), MacAddressError::InternalError);
    assert_eq!(record_mac_list(bytes.clone()), vec![ETH0, a, ETH0]);
    assert_eq!(record_first_mac(bytes), Some(ETH0));
}

#[test]
fn record_listing_of_zero_or_nothing_is_empty() {
    let bytes = chain(&[(ZERO, "lo")]);
    assert!(record_mac_list(bytes.clone()).is_empty());
    assert_eq!(record_first_mac(bytes), None);
    assert!(record_mac_list(Vec::new()).is_empty());
    assert_eq!(record_first_mac(Vec::new()), None);
}
