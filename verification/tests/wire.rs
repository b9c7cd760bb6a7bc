use std::time::Duration;

use credential_trust::attributes::AttributeSet;
use credential_trust::enrollment::{AddMember, CreateToken, EnrollmentError};
use credential_trust::identifier::Identifier;
use credential_trust::wire::{encode_add_member, encode_create_token};
use minicbor::Decoder;

#[test]
fn add_member_bytes() {
    let request = AddMember::new(Identifier::from_bytes(vec![7u8; 20]))
        .with_attributes(AttributeSet::new().with_attribute(b"a", b"b"));
    let mut expected = vec![0xa2, 0x01, 0x54];
    expected.extend_from_slice(&[7u8; 20]);
    expected.extend_from_slice(&[0x02, 0xa1, 0x61, b'a', 0x61, b'b']);
    assert_eq!(encode_add_member(&request), Ok(expected));
}

#[test]
fn add_member_without_attributes_has_an_empty_map() {
    let request = AddMember::new(Identifier::from_bytes(vec![1u8, 2, 3]));
    assert_eq!(encode_add_member(&request), Ok(vec![0xa2, 0x01, 0x43, 1, 2, 3, 0x02, 0xa0]));
}

#[test]
fn add_member_is_read_back_field_by_field() {
    let member = vec![9u8; 20];
    let attributes = AttributeSet::new()
        .with_attribute(b"is_superuser", b"true")
        .with_attribute(b"team", "caf\u{e9}".as_bytes());
    let request = AddMember::new(Identifier::from_bytes(member.clone())).with_attributes(attributes);
    let bytes = encode_add_member(&request).unwrap();

    let mut d = Decoder::new(&bytes);
    assert_eq!(d.map().unwrap(), Some(2));
    assert_eq!(d.u64().unwrap(), 1);
    assert_eq!(d.bytes().unwrap(), member.as_slice());
    assert_eq!(d.u64().unwrap(), 2);
    assert_eq!(d.map().unwrap(), Some(2));
    assert_eq!(d.str().unwrap(), "is_superuser");
    assert_eq!(d.str().unwrap(), "true");
    assert_eq!(d.str().unwrap(), "team");
    assert_eq!(d.str().unwrap(), "caf\u{e9}");
    assert_eq!(d.position(), bytes.len());
}

#[test]
fn create_token_bytes() {
    let request = CreateToken::new()
        .with_attributes(AttributeSet::new().with_attribute(b"is_superuser", b"true"))
        .with_duration(Some(Duration::from_secs(60)));
    let mut expected = vec![0xa2, 0x01, 0xa1, 0x6c];
    expected.extend_from_slice(b"is_superuser");
    expected.push(0x64);
    expected.extend_from_slice(b"true");
    expected.extend_from_slice(&[0x02, 0x18, 0x3c]);
    assert_eq!(encode_create_token(&request), Ok(expected));
}

#[test]
fn create_token_without_duration_has_one_field() {
    assert_eq!(encode_create_token(&CreateToken::new()), Ok(vec![0xa1, 0x01, 0xa0]));
}

#[test]
fn numbers_take_the_fewest_bytes() {
    let bytes_for = |secs: u64| encode_create_token(&CreateToken::new().with_duration_secs(Some(secs))).unwrap();
    assert_eq!(bytes_for(0), vec![0xa2, 0x01, 0xa0, 0x02, 0x00]);
    assert_eq!(bytes_for(23), vec![0xa2, 0x01, 0xa0, 0x02, 0x17]);
    assert_eq!(bytes_for(24), vec![0xa2, 0x01, 0xa0, 0x02, 0x18, 0x18]);
    assert_eq!(bytes_for(255), vec![0xa2, 0x01, 0xa0, 0x02, 0x18, 0xff]);
    assert_eq!(bytes_for(256), vec![0xa2, 0x01, 0xa0, 0x02, 0x19, 0x01, 0x00]);
    assert_eq!(bytes_for(100_000), vec![0xa2, 0x01, 0xa0, 0x02, 0x1a, 0x00, 0x01, 0x86, 0xa0]);
    assert_eq!(
        bytes_for(u64::MAX),
        vec![0xa2, 0x01, 0xa0, 0x02, 0x1b, 0xff, 0xff, 0xff, 0xff, 0xff, 0xff, 0xff, 0xff]
    );
}

#[test]
fn long_text_has_its_length_in_a_byte_of_its_own() {
    let value = [b'x'; 30];
    let request = CreateToken::new().with_attributes(AttributeSet::new().with_attribute(b"k", &value));
    let mut expected = vec![0xa1, 0x01, 0xa1, 0x61, b'k', 0x78, 30];
    expected.extend_from_slice(&value);
    assert_eq!(encode_create_token(&request), Ok(expected));
}

#[test]
fn attribute_that_is_not_text_cannot_travel() {
    let bad_value = AttributeSet::new().with_attribute(b"role", &[0xff, 0xfe]);
    let bad_name = AttributeSet::new().with_attribute(&[0xc0], b"x");
    assert_eq!(
        encode_add_member(&AddMember::new(Identifier::from_bytes(vec![7u8; 20])).with_attributes(bad_value.clone())),
        Err(EnrollmentError::InvalidArgument)
    );
    assert_eq!(
        encode_create_token(&CreateToken::new().with_attributes(bad_value)),
        Err(EnrollmentError::InvalidArgument)
    );
    assert_eq!(
        encode_create_token(&CreateToken::new().with_attributes(bad_name)),
        Err(EnrollmentError::InvalidArgument)
    );
}

#[test]
fn create_token_is_read_back_field_by_field() {
    let request = CreateToken::new()
        .with_attributes(AttributeSet::new().with_attribute(b"role", b"admin"))
        .with_duration(Some(Duration::from_secs(3600)));
    let bytes = encode_create_token(&request).unwrap();
    let mut d = Decoder::new(&bytes);
    assert_eq!(d.map().unwrap(), Some(2));
    assert_eq!(d.u64().unwrap(), 1);
    assert_eq!(d.map().unwrap(), Some(1));
    assert_eq!(d.str().unwrap(), "role");
    assert_eq!(d.str().unwrap(), "admin");
    assert_eq!(d.u64().unwrap(), 2);
    assert_eq!(d.u64().unwrap(), 3600);
    assert_eq!(d.position(), bytes.len());
}
