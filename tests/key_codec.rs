use up_client_zenoh::error::ErrorCode;
use up_client_zenoh::hex::{decode_hex, to_hex};
use up_client_zenoh::key::{
    from_zenoh_key_string, get_uauth_from_uuri, micro_from_zenoh_key, to_zenoh_key_string,
};
use up_client_zenoh::uri::{
    authority_to_micro, uri_from_micro, uri_to_micro, AuthorityNumber, UAuthority, UEntity,
    UResource, UUri,
};

fn body_access_uri() -> UUri {
    UUri {
        entity: Some(UEntity {
            name: "body.access".to_string(),
            version_major: Some(1),
            id: Some(1234),
            ..Default::default()
        }),
        resource: Some(UResource {
            name: "door".to_string(),
            instance: Some("front_left".to_string()),
            message: Some("Door".to_string()),
            id: Some(5678),
        }),
        ..Default::default()
    }
}

fn remote_uri(number: AuthorityNumber) -> UUri {
    UUri {
        authority: Some(UAuthority { name: None, number: Some(number) }),
        entity: Some(UEntity { id: Some(0x1234), version_major: Some(2), ..Default::default() }),
        resource: Some(UResource { id: Some(0x8001), ..Default::default() }),
    }
}

#[test]
fn test_to_zenoh_key_string() {
    // create uuri for test
    let uuri = body_access_uri();
    assert_eq!(
        to_zenoh_key_string(&uuri).unwrap(),
        String::from("upl/0100162e04d20100")
    );
    // create special uuri for test
    let uuri = UUri {
        authority: Some(UAuthority {
            name: Some("UAuthName".to_string()),
            number: Some(AuthorityNumber::Id(vec![1, 2, 3, 10, 11, 12])),
        }),
        ..Default::default()
    };
    assert_eq!(
        to_zenoh_key_string(&uuri).unwrap(),
        String::from("upr/060102030a0b0c/**")
    );
}

#[test]
fn remote_id_key_puts_authority_first() {
    let uuri = remote_uri(AuthorityNumber::Id(vec![0xab, 0xcd]));
    assert_eq!(to_zenoh_key_string(&uuri).unwrap(), "upr/02abcd/0103800112340200");
}

#[test]
fn remote_ipv4_key() {
    let uuri = remote_uri(AuthorityNumber::Ip(vec![192, 168, 1, 100]));
    assert_eq!(to_zenoh_key_string(&uuri).unwrap(), "upr/c0a80164/0101800112340200");
}

#[test]
fn ipv6_authority_micro_form() {
    let ip: Vec<u8> = (0u8..16).collect();
    let uuri = remote_uri(AuthorityNumber::Ip(ip.clone()));
    let m = uri_to_micro(&uuri).unwrap();
    assert_eq!(m.len(), 24);
    assert_eq!(m[1], 2);
    assert_eq!(&m[8..], &ip[..]);
}

#[test]
fn authority_only_ip_key() {
    let uuri = UUri {
        authority: Some(UAuthority { name: None, number: Some(AuthorityNumber::Ip(vec![10, 0, 0, 1])) }),
        ..Default::default()
    };
    assert_eq!(to_zenoh_key_string(&uuri).unwrap(), "upr/0a000001/**");
}

#[test]
fn authority_id_too_long_is_invalid() {
    let uuri = UUri {
        authority: Some(UAuthority { name: None, number: Some(AuthorityNumber::Id(vec![7; 256])) }),
        ..Default::default()
    };
    let err = to_zenoh_key_string(&uuri).unwrap_err();
    assert_eq!(err.code, ErrorCode::InvalidArgument);
    let ok = UAuthority { name: None, number: Some(AuthorityNumber::Id(vec![7; 255])) };
    let m = authority_to_micro(&ok).unwrap();
    assert_eq!(m.len(), 256);
    assert_eq!(m[0], 255);
}

#[test]
fn authority_without_number_is_invalid() {
    let uuri = UUri {
        authority: Some(UAuthority { name: Some("vcu".to_string()), number: None }),
        ..Default::default()
    };
    assert_eq!(to_zenoh_key_string(&uuri).unwrap_err().code, ErrorCode::InvalidArgument);
    assert_eq!(get_uauth_from_uuri(&uuri).unwrap_err().code, ErrorCode::InvalidArgument);
}

#[test]
fn empty_authority_is_invalid() {
    let uuri = body_access_uri();
    assert_eq!(get_uauth_from_uuri(&uuri).unwrap_err().code, ErrorCode::InvalidArgument);
}

#[test]
fn missing_ids_are_invalid() {
    let mut uuri = body_access_uri();
    uuri.resource.as_mut().unwrap().id = None;
    assert_eq!(to_zenoh_key_string(&uuri).unwrap_err().code, ErrorCode::InvalidArgument);
    let mut uuri = body_access_uri();
    uuri.entity.as_mut().unwrap().id = Some(0x10000);
    assert_eq!(to_zenoh_key_string(&uuri).unwrap_err().code, ErrorCode::InvalidArgument);
    let empty = UUri::default();
    assert_eq!(to_zenoh_key_string(&empty).unwrap_err().code, ErrorCode::InvalidArgument);
}

#[test]
fn missing_version_encodes_as_zero() {
    let mut uuri = body_access_uri();
    uuri.entity.as_mut().unwrap().version_major = None;
    assert_eq!(to_zenoh_key_string(&uuri).unwrap(), "upl/0100162e04d20000");
}

#[test]
fn local_key_decodes_to_same_address() {
    let uuri = body_access_uri();
    let key = to_zenoh_key_string(&uuri).unwrap();
    let back = from_zenoh_key_string(&key).unwrap();
    assert_eq!(back.authority, None);
    let e = back.entity.unwrap();
    assert_eq!(e.id, Some(1234));
    assert_eq!(e.version_major, Some(1));
    assert_eq!(e.name, "");
    let r = back.resource.unwrap();
    assert_eq!(r.id, Some(5678));
    assert_eq!(r.name, "");
}

#[test]
fn remote_keys_round_trip() {
    for number in [
        AuthorityNumber::Id(vec![0xab, 0xcd]),
        AuthorityNumber::Ip(vec![192, 168, 1, 100]),
        AuthorityNumber::Ip((0u8..16).collect()),
    ] {
        let uuri = remote_uri(number);
        let key = to_zenoh_key_string(&uuri).unwrap();
        let back = from_zenoh_key_string(&key).unwrap();
        assert_eq!(back, uuri);
    }
}

#[test]
fn wildcard_and_malformed_keys_do_not_decode() {
    assert!(from_zenoh_key_string("upr/060102030a0b0c/**").is_none());
    assert!(from_zenoh_key_string("upl/0100162e04d2010").is_none());
    assert!(from_zenoh_key_string("upl/0100162E04D20100").is_none());
    assert!(from_zenoh_key_string("upx/0100162e04d20100").is_none());
    assert!(from_zenoh_key_string("upl/0200162e04d20100").is_none());
    assert!(from_zenoh_key_string("").is_none());
    assert!(from_zenoh_key_string("upl/0100162e04d2010\u{e9}").is_none());
}

#[test]
fn key_yields_its_micro_form() {
    let m = micro_from_zenoh_key("upr/02abcd/0103800112340200").unwrap();
    assert_eq!(m, vec![1, 3, 0x80, 1, 0x12, 0x34, 2, 0, 2, 0xab, 0xcd]);
    let uuri = uri_from_micro(&m).unwrap();
    assert_eq!(uuri, remote_uri(AuthorityNumber::Id(vec![0xab, 0xcd])));
}

#[test]
fn micro_form_with_wrong_id_length_is_rejected() {
    assert!(uri_from_micro(&[1, 3, 0, 1, 0, 2, 0, 0, 3, 0xab, 0xcd]).is_none());
    assert!(uri_from_micro(&[1, 0, 0, 1, 0, 2, 0, 0]).is_some());
    assert!(uri_from_micro(&[1, 0, 0, 1, 0, 2, 0, 5]).is_none());
}

#[test]
fn hex_round_trip() {
    assert_eq!(to_hex(&[0x00, 0x0f, 0xa5, 0xff]), "000fa5ff");
    assert_eq!(to_hex(&[]), "");
    let text = b"000fa5ff";
    assert_eq!(decode_hex(text, 0, text.len()).unwrap(), vec![0x00, 0x0f, 0xa5, 0xff]);
    assert!(decode_hex(b"0g", 0, 2).is_none());
    assert!(decode_hex(b"abc", 0, 3).is_none());
}
