use keyboard_it::addr::{addr_rank, order_for_connect, pick_ipv4_first, pick_service_addr, usable_lan_ipv4, IpAddr, SocketAddr};

fn v4(a: u8, b: u8, c: u8, d: u8) -> IpAddr {
    IpAddr::v4(a, b, c, d)
}

fn v6(s: [u16; 8]) -> IpAddr {
    IpAddr::v6(s)
}

const LOOPBACK6: [u16; 8] = [0, 0, 0, 0, 0, 0, 0, 1];
const LINK_LOCAL: [u16; 8] = [0xfe80, 0, 0, 0, 0xf9b9, 0xdd17, 0x228f, 0xcff2];

#[test]
fn one_usable_address_among_four_dead_ones() {
    let from_the_mac = [
        v6(LINK_LOCAL),
        v6(LOOPBACK6),
        v6([0, 0, 0, 0, 0x5661, 0x6f66, 0x5101, 0xe5a4]),
        v6([0, 0, 0, 0, 0x453e, 0x653, 0x18da, 0x51e1]),
        v4(192, 168, 68, 55),
    ];
    assert_eq!(pick_service_addr(&from_the_mac), Some(v4(192, 168, 68, 55)));

    let no_ipv4: Vec<IpAddr> = from_the_mac.iter().copied().filter(|a| matches!(a, IpAddr::V6(_))).collect();
    assert_eq!(pick_service_addr(&no_ipv4), Some(v6([0, 0, 0, 0, 0x453e, 0x653, 0x18da, 0x51e1])));

    let local_view = [v4(192, 168, 68, 55), v4(127, 0, 0, 1)];
    assert_eq!(pick_service_addr(&local_view), Some(v4(192, 168, 68, 55)));
}

#[test]
fn junk_addresses_lose_but_are_still_usable_alone() {
    let apipa = [v4(169, 254, 29, 166), v4(192, 168, 68, 55)];
    assert_eq!(pick_service_addr(&apipa), Some(v4(192, 168, 68, 55)));
    let six = [v6([0xfe80, 0, 0, 0, 0, 0, 0, 1]), v6([0x2001, 0xdb8, 0, 0, 0, 0, 0, 5])];
    assert_eq!(pick_service_addr(&six), Some(v6([0x2001, 0xdb8, 0, 0, 0, 0, 0, 5])));
    let mixed = [v6([0x2001, 0xdb8, 0, 0, 0, 0, 0, 5]), v4(10, 0, 0, 9)];
    assert_eq!(pick_service_addr(&mixed), Some(v4(10, 0, 0, 9)));
    let only_loopback = [v4(127, 0, 0, 1)];
    assert_eq!(pick_service_addr(&only_loopback), Some(v4(127, 0, 0, 1)));
    assert_eq!(pick_service_addr(&[]), None);
}

#[test]
fn pick_is_order_independent() {
    let a = [v4(192, 168, 68, 55), v4(127, 0, 0, 1), v4(192, 168, 68, 9)];
    let b = [v4(127, 0, 0, 1), v4(192, 168, 68, 9), v4(192, 168, 68, 55)];
    assert_eq!(pick_service_addr(&a), pick_service_addr(&b));
    assert_eq!(pick_service_addr(&a), Some(v4(192, 168, 68, 9)));
}

fn sa(ip: IpAddr) -> SocketAddr {
    SocketAddr { ip, port: 5599 }
}

#[test]
fn the_address_that_answers_is_tried_first() {
    let addrs = vec![
        sa(v6(LOOPBACK6)),
        sa(v6(LINK_LOCAL)),
        sa(v4(192, 168, 68, 55)),
        sa(v6([0x2001, 0xdb8, 0, 0, 0, 0, 0, 1])),
    ];
    let sorted = order_for_connect(&addrs);
    assert_eq!(sorted[0], sa(v4(192, 168, 68, 55)), "IPv4 must come first");
    assert_eq!(sorted[3], sa(v6(LOOPBACK6)), "loopback is the last thing worth trying");
    assert_eq!(sorted[1], sa(v6([0x2001, 0xdb8, 0, 0, 0, 0, 0, 1])));
    assert_eq!(sorted[2], sa(v6(LINK_LOCAL)));
}

#[test]
fn equal_ranks_keep_resolver_order() {
    let addrs = vec![sa(v4(10, 0, 0, 2)), sa(v4(10, 0, 0, 1))];
    assert_eq!(order_for_connect(&addrs), vec![sa(v4(10, 0, 0, 2)), sa(v4(10, 0, 0, 1))]);
}

#[test]
fn address_ranks_and_lan_addresses() {
    assert_eq!(addr_rank(&v4(192, 168, 1, 1)), 0);
    assert!(addr_rank(&v4(169, 254, 1, 1)) > addr_rank(&v4(10, 0, 0, 1)));
    assert!(addr_rank(&v6(LOOPBACK6)) > addr_rank(&v6(LINK_LOCAL)));
    assert!(addr_rank(&v4(127, 0, 0, 1)) > addr_rank(&v4(169, 254, 1, 1)));
    assert_eq!(v4(192, 168, 68, 55), IpAddr::V4(0xC0A8_4437));
    assert!(usable_lan_ipv4(0xC0A8_4437));
    assert!(!usable_lan_ipv4(0x7F00_0001));
    assert!(!usable_lan_ipv4(0xA9FE_0101));
    assert!(!usable_lan_ipv4(0));
}

#[test]
fn the_listed_address_is_the_smallest_ipv4() {
    let addrs = [
        v6(LINK_LOCAL),
        v4(192, 168, 68, 55),
        v6([0, 0, 0, 0, 0x453e, 0x653, 0x18da, 0x51e1]),
        v4(169, 254, 3, 7),
    ];
    // not the best to dial, but the smallest IPv4
    assert_eq!(pick_ipv4_first(&addrs), Some(v4(169, 254, 3, 7)));
    assert_eq!(pick_service_addr(&addrs), Some(v4(192, 168, 68, 55)));
    let no_ipv4 = [v6(LINK_LOCAL), v6(LOOPBACK6), v6([0x2001, 0xdb8, 0, 0, 0, 0, 0, 5])];
    assert_eq!(pick_ipv4_first(&no_ipv4), Some(v6(LOOPBACK6)));
    assert_eq!(pick_ipv4_first(&[]), None);
}

#[test]
fn the_listed_address_does_not_churn_on_reresolve() {
    let a = [v4(10, 0, 0, 9), v6(LOOPBACK6), v4(10, 0, 0, 2), v4(10, 0, 0, 9)];
    let b = [v4(10, 0, 0, 2), v4(10, 0, 0, 9), v6(LOOPBACK6)];
    assert_eq!(pick_ipv4_first(&a), pick_ipv4_first(&b));
    assert_eq!(pick_ipv4_first(&a), Some(v4(10, 0, 0, 2)));
}
