use rip::ipv4::Ipv4Addr;
use rip::v2::{EntriesParser, Entry};
use rip::{address_family, parser};

#[test]
fn v2_test_parse_packet_for_single_entry() {
    let parser = EntriesParser {};
    let result = parser::parse_entries(
        &parser,
        4,
        vec![
            2, 2, 0, 0, //
            0, 2, 1, 2, //
            192, 0, 2, 100, //
            255, 255, 255, 0, //
            192, 0, 2, 111, //
            4, 3, 2, 1, //
        ]
        .as_slice(),
    );

    assert_eq!(result.is_ok(), true);

    let entries = result.unwrap();
    assert_eq!(
        entries,
        vec![Entry {
            address_family_identifier: address_family::Identifier::IP,
            route_tag: 258,
            ip_address: Ipv4Addr::new(192, 0, 2, 100),
            subnet_mask: Ipv4Addr::new(255, 255, 255, 0),
            next_hop: Ipv4Addr::new(192, 0, 2, 111),
            metric: 67305985,
        }]
    );
}

#[test]
fn v2_test_parse_packet_for_multiple_entry() {
    let parser = EntriesParser {};
    let result = parser::parse_entries(
        &parser,
        4,
        vec![
            2, 2, 0, 0, //
            0, 2, 1, 2, //
            192, 0, 2, 100, //
            255, 255, 255, 0, //
            192, 0, 2, 200, //
            4, 3, 2, 1, //
            0, 2, 0, 1, //
            192, 0, 2, 101, //
            255, 255, 255, 0, //
            192, 0, 2, 201, //
            0, 0, 0, 1, //
            0, 2, 0, 2, //
            192, 0, 2, 102, //
            255, 255, 255, 0, //
            192, 0, 2, 202, //
            0, 0, 0, 2, //
        ]
        .as_slice(),
    );

    assert_eq!(result.is_ok(), true);

    let entries = result.unwrap();
    assert_eq!(
        entries,
        vec![
            Entry {
                address_family_identifier: address_family::Identifier::IP,
                route_tag: 258,
                ip_address: Ipv4Addr::new(192, 0, 2, 100),
                subnet_mask: Ipv4Addr::new(255, 255, 255, 0),
                next_hop: Ipv4Addr::new(192, 0, 2, 200),
                metric: 67305985,
            },
            Entry {
                address_family_identifier: address_family::Identifier::IP,
                route_tag: 1,
                ip_address: Ipv4Addr::new(192, 0, 2, 101),
                subnet_mask: Ipv4Addr::new(255, 255, 255, 0),
                next_hop: Ipv4Addr::new(192, 0, 2, 201),
                metric: 1,
            },
            Entry {
                address_family_identifier: address_family::Identifier::IP,
                route_tag: 2,
                ip_address: Ipv4Addr::new(192, 0, 2, 102),
                subnet_mask: Ipv4Addr::new(255, 255, 255, 0),
                next_hop: Ipv4Addr::new(192, 0, 2, 202),
                metric: 2,
            },
        ]
    );
}
