use rip::ipv4::Ipv4Addr;
use rip::parser::ParseError::NotZeroByte;
use rip::v1::{EntriesParser, Entry};
use rip::{address_family, parser};

#[test]
fn v1_test_parse_packet_for_single_entry() {
    let parser = EntriesParser {};
    let result = parser::parse_entries(
        &parser,
        4,
        vec![
            2, 1, 0, 0, //
            0, 2, 0, 0, //
            192, 0, 2, 100, //
            0, 0, 0, 0, //
            0, 0, 0, 0, //
            4, 3, 2, 1, //
        ]
        .as_slice(),
    );

    assert_eq!(result.is_ok(), true);

    let entries = result.unwrap();
    assert_eq!(
        entries,
        vec![Entry {
            address_family_identifier: address_family::Identifier::IP,
            ip_address: Ipv4Addr::new(192, 0, 2, 100),
            metric: 67305985,
        }]
    );
}

#[test]
fn v1_test_parse_packet_for_multiple_entry() {
    let parser = EntriesParser {};
    let result = parser::parse_entries(
        &parser,
        4,
        vec![
            2, 1, 0, 0, //
            0, 2, 0, 0, //
            192, 0, 2, 100, //
            0, 0, 0, 0, //
            0, 0, 0, 0, //
            4, 3, 2, 1, //
            0, 2, 0, 0, //
            192, 0, 2, 101, //
            0, 0, 0, 0, //
            0, 0, 0, 0, //
            0, 0, 0, 1, //
            0, 2, 0, 0, //
            192, 0, 2, 102, //
            0, 0, 0, 0, //
            0, 0, 0, 0, //
            0, 0, 0, 2, //
        ]
        .as_slice(),
    );

    assert_eq!(result.is_ok(), true);

    let entries = result.unwrap();
    assert_eq!(
        entries,
        vec![
            Entry {
                address_family_identifier: address_family::Identifier::IP,
                ip_address: Ipv4Addr::new(192, 0, 2, 100),
                metric: 67305985,
            },
            Entry {
                address_family_identifier: address_family::Identifier::IP,
                ip_address: Ipv4Addr::new(192, 0, 2, 101),
                metric: 1,
            },
            Entry {
                address_family_identifier: address_family::Identifier::IP,
                ip_address: Ipv4Addr::new(192, 0, 2, 102),
                metric: 2,
            },
        ]
    );
}

#[test]
fn test_parse_packet_which_has_not_zero_byte() {
    let parser = EntriesParser {};
    let result = parser::parse_entries(
        &parser,
        4,
        vec![
            2, 1, 0, 0, //
            0, 2, 1, 0, // the third byte is not zero
            192, 0, 2, 100, //
            0, 0, 0, 0, //
            0, 0, 0, 0, //
            4, 3, 2, 1, //
        ]
        .as_slice(),
    );
    assert_eq!(result.unwrap_err(), NotZeroByte(1, 7));

    let result = parser::parse_entries(
        &parser,
        4,
        vec![
            2, 1, 0, 0, //
            0, 2, 0, 1, // the fourth byte is not zero
            192, 0, 2, 100, //
            0, 0, 0, 0, //
            0, 0, 0, 0, //
            4, 3, 2, 1, //
        ]
        .as_slice(),
    );
    assert_eq!(result.unwrap_err(), NotZeroByte(1, 8));

    let result = parser::parse_entries(
        &parser,
        4,
        vec![
            2, 1, 0, 0, //
            0, 2, 0, 0, //
            192, 0, 2, 100, //
            1, 0, 0, 0, // the first byte is not zero
            0, 0, 0, 0, //
            4, 3, 2, 1, //
        ]
        .as_slice(),
    );
    assert_eq!(result.unwrap_err(), NotZeroByte(1, 13));

    let result = parser::parse_entries(
        &parser,
        4,
        vec![
            2, 1, 0, 0, //
            0, 2, 0, 0, //
            192, 0, 2, 100, //
            0, 1, 0, 0, // the second byte is not zero
            0, 0, 0, 0, //
            4, 3, 2, 1, //
        ]
        .as_slice(),
    );
    assert_eq!(result.unwrap_err(), NotZeroByte(1, 14));

    let result = parser::parse_entries(
        &parser,
        4,
        vec![
            2, 1, 0, 0, //
            0, 2, 0, 0, //
            192, 0, 2, 100, //
            0, 0, 1, 0, // the third byte is not zero
            0, 0, 0, 0, //
            4, 3, 2, 1, //
        ]
        .as_slice(),
    );
    assert_eq!(result.unwrap_err(), NotZeroByte(1, 15));

    let result = parser::parse_entries(
        &parser,
        4,
        vec![
            2, 1, 0, 0, //
            0, 2, 0, 0, //
            192, 0, 2, 100, //
            0, 0, 0, 1, // the fourth byte is not zero
            0, 0, 0, 0, //
            4, 3, 2, 1, //
        ]
        .as_slice(),
    );
    assert_eq!(result.unwrap_err(), NotZeroByte(1, 16));

    let result = parser::parse_entries(
        &parser,
        4,
        vec![
            2, 1, 0, 0, //
            0, 2, 0, 0, //
            192, 0, 2, 100, //
            0, 0, 0, 0, //
            1, 0, 0, 0, // the first byte is not zero
            4, 3, 2, 1, //
        ]
        .as_slice(),
    );
    assert_eq!(result.unwrap_err(), NotZeroByte(1, 17));

    let result = parser::parse_entries(
        &parser,
        4,
        vec![
            2, 1, 0, 0, //
            0, 2, 0, 0, //
            192, 0, 2, 100, //
            0, 0, 0, 0, //
            0, 1, 0, 0, // the second byte is not zero
            4, 3, 2, 1, //
        ]
        .as_slice(),
    );
    assert_eq!(result.unwrap_err(), NotZeroByte(1, 18));

    let result = parser::parse_entries(
        &parser,
        4,
        vec![
            2, 1, 0, 0, //
            0, 2, 0, 0, //
            192, 0, 2, 100, //
            0, 0, 0, 0, //
            0, 0, 1, 0, // the third byte is not zero
            4, 3, 2, 1, //
        ]
        .as_slice(),
    );
    assert_eq!(result.unwrap_err(), NotZeroByte(1, 19));

    let result = parser::parse_entries(
        &parser,
        4,
        vec![
            2, 1, 0, 0, //
            0, 2, 0, 0, //
            192, 0, 2, 100, //
            0, 0, 0, 0, //
            0, 0, 0, 1, // the fourth byte is not zero
            4, 3, 2, 1, //
        ]
        .as_slice(),
    );
    assert_eq!(result.unwrap_err(), NotZeroByte(1, 20));
}
