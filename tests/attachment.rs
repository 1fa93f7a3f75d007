use up_client_zenoh::attributes::{
    attachment_from_attribute_bytes, attachment_to_uattributes, attribute_bytes_of_attachment,
    uattributes_to_attachment, Attachment,
};
use up_client_zenoh::client::invoke_reply_attributes;
use up_client_zenoh::error::ErrorCode;
use up_rust::{UAttributes, UMessageType, UPriority};

fn sample_attributes() -> UAttributes {
    UAttributes {
        type_: UMessageType::UMESSAGE_TYPE_REQUEST.into(),
        priority: UPriority::UPRIORITY_CS4.into(),
        ttl: Some(1000),
        ..Default::default()
    }
}

#[test]
fn attributes_round_trip_through_attachment() {
    let attributes = sample_attributes();
    let attachment = uattributes_to_attachment(&attributes).unwrap();
    assert_eq!(attachment.entries.len(), 2);
    assert_eq!(attachment.entries[0], vec![1u8]);
    assert!(!attachment.entries[1].is_empty());
    let back = attachment_to_uattributes(&attachment).unwrap();
    assert_eq!(back, attributes);
    let reply = invoke_reply_attributes(Some(&attachment)).unwrap();
    assert_eq!(reply, attributes);
}

#[test]
fn attachment_layout() {
    let a = attachment_from_attribute_bytes(vec![8, 2]);
    assert_eq!(a.entries, vec![vec![1u8], vec![8u8, 2]]);
    assert_eq!(attribute_bytes_of_attachment(&a).unwrap(), &vec![8u8, 2]);
}

#[test]
fn missing_version_entry_is_internal() {
    let a = Attachment { entries: vec![] };
    assert_eq!(attachment_to_uattributes(&a).unwrap_err().code, ErrorCode::Internal);
}

#[test]
fn empty_version_entry_is_internal() {
    let a = Attachment { entries: vec![vec![], vec![]] };
    assert_eq!(attachment_to_uattributes(&a).unwrap_err().code, ErrorCode::Internal);
}

#[test]
fn wrong_version_is_internal() {
    let a = Attachment { entries: vec![vec![2], vec![]] };
    assert_eq!(attachment_to_uattributes(&a).unwrap_err().code, ErrorCode::Internal);
    assert_eq!(invoke_reply_attributes(Some(&a)).unwrap_err().code, ErrorCode::Internal);
}

#[test]
fn missing_attributes_entry_is_internal() {
    let a = Attachment { entries: vec![vec![1]] };
    assert_eq!(attachment_to_uattributes(&a).unwrap_err().code, ErrorCode::Internal);
}

#[test]
fn unreadable_attributes_are_internal() {
    let a = Attachment { entries: vec![vec![1], vec![0xff, 0xff, 0xff]] };
    let err = attachment_to_uattributes(&a).unwrap_err();
    assert_eq!(err.code, ErrorCode::Internal);
    assert!(!err.message.is_empty());
}
