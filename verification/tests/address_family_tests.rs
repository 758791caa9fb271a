use rip::address_family::Identifier;
use rip::parser::ParseError;
use rip::serializer::{Serializable, SerializeError};

#[test]
fn address_family_test_parse() {
    let (identifier, cursor) = Identifier::parse(0, vec![0x00, 0x00].as_slice()).unwrap();
    assert_eq!(identifier, Identifier::Unspecified);
    assert_eq!(cursor, 2);
    let (identifier, cursor) = Identifier::parse(0, vec![0x00, 0x02].as_slice()).unwrap();
    assert_eq!(identifier, Identifier::IP);
    assert_eq!(cursor, 2);
    let (identifier, cursor) = Identifier::parse(0, vec![0xff, 0xff].as_slice()).unwrap();
    assert_eq!(identifier, Identifier::AuthenticationPresent);
    assert_eq!(cursor, 2);

    let result = Identifier::parse(0, vec![0x00, 0x01].as_slice());
    assert_eq!(
        result.unwrap_err(),
        ParseError::UnknownAddressFamilyIdentifier(1, 1)
    );
}

#[test]
fn to_bytes() {
    assert_eq!(
        Identifier::Unspecified.to_bytes().unwrap(),
        vec![0x00, 0x00]
    );
    assert_eq!(Identifier::IP.to_bytes().unwrap(), vec![0x00, 0x02]);
    assert_eq!(
        Identifier::AuthenticationPresent.to_bytes().unwrap(),
        vec![0xff, 0xff]
    );
    assert_eq!(
        Identifier::Unknown.to_bytes().unwrap_err(),
        SerializeError::UnknownAddressFamilyIdentifier
    );
}
