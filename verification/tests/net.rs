use ddns::net::{absorb, contains_ip, same_ip_set, IpAddress};

#[test]
fn same_set_ignores_order_and_repeats() {
    let a = vec![IpAddress::V4(1), IpAddress::V4(2), IpAddress::V4(1)];
    let b = vec![IpAddress::V4(2), IpAddress::V4(1)];
    assert!(same_ip_set(&a, &b));
    assert!(!same_ip_set(&a, &vec![IpAddress::V4(1)]));
    assert!(!same_ip_set(&vec![IpAddress::V4(1)], &vec![IpAddress::V6(1)]));
}

#[test]
fn absorb_adds_each_new_address_once() {
    let mut acc = vec![IpAddress::V4(1)];
    absorb(&mut acc, &vec![IpAddress::V4(2), IpAddress::V4(1), IpAddress::V4(2), IpAddress::V6(9)]);
    assert_eq!(acc, vec![IpAddress::V4(1), IpAddress::V4(2), IpAddress::V6(9)]);
    assert!(contains_ip(&acc, IpAddress::V6(9)));
    assert!(!contains_ip(&acc, IpAddress::V4(9)));
}
