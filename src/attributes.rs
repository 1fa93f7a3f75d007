use vstd::prelude::*;
use crate::error::{ErrorCode, TransportError};
use up_rust::UAttributes;

verus! {

#[verifier::external_type_specification]
#[verifier::external_body]
pub struct ExUAttributes(UAttributes);

/// The version that opens every attachment.
pub const UATTRIBUTE_VERSION: u8 = 1;

/// The entries that a substrate message carries beside its payload, in order.
#[derive(Debug)]
pub struct Attachment {
    pub entries: Vec<Vec<u8>>,
}

/// What protobuf writes for the attributes: their bytes, or the text of the
/// error that stopped it.
pub uninterp spec fn serialized_attributes(a: UAttributes) -> Result<Seq<u8>, Seq<char>>;

/// What protobuf reads from the bytes: the attributes, or the text of the
/// error that stopped it.
pub uninterp spec fn parsed_attributes(b: Seq<u8>) -> Result<UAttributes, Seq<char>>;

/// Whether an attachment carries a version entry whose first byte is the
/// supported version, followed by an attributes entry.
pub open spec fn attachment_valid(e: Seq<Vec<u8>>) -> bool {
    &&& e.len() >= 2
    &&& e[0]@.len() > 0
    &&& e[0]@[0] == UATTRIBUTE_VERSION
}

/// Relies on `protobuf::Message::write_to_bytes` of up-rust's `UAttributes`,
/// whose bytes, or error, depend on the attributes alone; the error is handed
/// back as its text.
#[verifier::external_body]
fn attributes_to_bytes(uattributes: &UAttributes) -> (r: Result<Vec<u8>, String>)
    ensures
        match r {
            Ok(b) => serialized_attributes(*uattributes) == Ok::<Seq<u8>, Seq<char>>(b@),
            Err(m) => serialized_attributes(*uattributes) == Err::<Seq<u8>, Seq<char>>(m@),
        },
{
    match protobuf::Message::write_to_bytes(uattributes) {
        Ok(b) => Ok(b),
        Err(e) => Err(e.to_string()),
    }
}

/// Relies on `protobuf::Message::parse_from_bytes` of up-rust's `UAttributes`,
/// whose outcome depends on the bytes alone; the error is handed back as its
/// text.
#[verifier::external_body]
fn attributes_from_bytes(b: &[u8]) -> (r: Result<UAttributes, String>)
    ensures
        match r {
            Ok(a) => parsed_attributes(b@) == Ok::<UAttributes, Seq<char>>(a),
            Err(m) => parsed_attributes(b@) == Err::<UAttributes, Seq<char>>(m@),
        },
{
    match <UAttributes as protobuf::Message>::parse_from_bytes(b) {
        Ok(a) => Ok(a),
        Err(e) => Err(e.to_string()),
    }
}

/// An attachment of the version entry and the given serialized attributes.
pub fn attachment_from_attribute_bytes(bytes: Vec<u8>) -> (r: Attachment)
    ensures
        r.entries@.len() == 2,
        r.entries@[0]@ == seq![UATTRIBUTE_VERSION],
        r.entries@[1]@ == bytes@,
        attachment_valid(r.entries@),
{
    let mut version: Vec<u8> = Vec::new();
    version.push(UATTRIBUTE_VERSION);
    let mut entries: Vec<Vec<u8>> = Vec::new();
    entries.push(version);
    entries.push(bytes);
    Attachment { entries }
}

/// The attachment that carries the attributes: the version entry, then the
/// attributes as protobuf writes them. Fails, `Internal` with protobuf's error
/// text, exactly when protobuf cannot write them.
pub fn uattributes_to_attachment(uattributes: &UAttributes) -> (r: Result<
    Attachment,
    TransportError,
>)
    ensures
        match r {
            Ok(a) => {
                &&& serialized_attributes(*uattributes) matches Ok(b)
                &&& a.entries@.len() == 2
                &&& a.entries@[0]@ == seq![UATTRIBUTE_VERSION]
                &&& a.entries@[1]@ == b
            },
            Err(e) => {
                &&& serialized_attributes(*uattributes) == Err::<Seq<u8>, Seq<char>>(e.message@)
                &&& e.code == ErrorCode::Internal
            },
        },
{
    match attributes_to_bytes(uattributes) {
        Ok(bytes) => Ok(attachment_from_attribute_bytes(bytes)),
        Err(message) => Err(TransportError { code: ErrorCode::Internal, message }),
    }
}

/// The serialized attributes that an attachment carries, after the checks on
/// its version entry.
pub fn attribute_bytes_of_attachment(attachment: &Attachment) -> (r: Result<
    &Vec<u8>,
    TransportError,
>)
    ensures
        r is Ok <==> attachment_valid(attachment.entries@),
        match r {
            Ok(b) => *b == attachment.entries@[1],
            Err(e) => e.code == ErrorCode::Internal,
        },
{
    if attachment.entries.len() == 0 {
        return Err(
            TransportError::fail_with_code(
                ErrorCode::Internal,
                "Unable to get the uAttributes version",
            ),
        );
    }
    let version = &attachment.entries[0];
    if version.len() == 0 {
        return Err(
            TransportError::fail_with_code(ErrorCode::Internal, "uAttributes version is empty"),
        );
    }
    if version[0] != UATTRIBUTE_VERSION {
        return Err(
            TransportError::fail_with_code(ErrorCode::Internal, "uAttributes version should be 1"),
        );
    }
    if attachment.entries.len() < 2 {
        return Err(
            TransportError::fail_with_code(ErrorCode::Internal, "Unable to get the uAttributes"),
        );
    }
    Ok(&attachment.entries[1])
}

/// The attributes that protobuf reads from a valid attachment's second entry,
/// and the `Internal` failure for each way it can fail.
pub open spec fn decoded_attributes(
    e: Seq<Vec<u8>>,
    r: Result<UAttributes, TransportError>,
) -> bool {
    if attachment_valid(e) {
        match r {
            Ok(a) => parsed_attributes(e[1]@) == Ok::<UAttributes, Seq<char>>(a),
            Err(x) => x.code == ErrorCode::Internal && parsed_attributes(e[1]@) == Err::<
                UAttributes,
                Seq<char>,
            >(x.message@),
        }
    } else {
        r matches Err(x) && x.code == ErrorCode::Internal
    }
}

/// The attributes that an attachment carries. Every failure is `Internal`:
/// a missing or empty version entry, a version other than 1, a missing
/// attributes entry, or bytes that protobuf does not read as attributes, in
/// which case the error carries protobuf's text.
pub fn attachment_to_uattributes(attachment: &Attachment) -> (r: Result<
    UAttributes,
    TransportError,
>)
    ensures
        decoded_attributes(attachment.entries@, r),
{
    let bytes = match attribute_bytes_of_attachment(attachment) {
        Ok(b) => b,
        Err(e) => { return Err(e); },
    };
    match attributes_from_bytes(bytes.as_slice()) {
        Ok(a) => Ok(a),
        Err(message) => Err(TransportError { code: ErrorCode::Internal, message }),
    }
}

} // verus!
