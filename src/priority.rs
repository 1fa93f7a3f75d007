use vstd::prelude::*;

verus! {

/// Priority of a message, from the unspecified level through CS0 to CS6.
#[derive(Clone, Copy, Debug, PartialEq, Eq, Structural)]
pub enum UPriority {
    Unspecified,
    Cs0,
    Cs1,
    Cs2,
    Cs3,
    Cs4,
    Cs5,
    Cs6,
}

/// Priority of a substrate message, from the most urgent to the least.
#[derive(Clone, Copy, Debug, PartialEq, Eq, Structural)]
pub enum Priority {
    RealTime,
    InteractiveHigh,
    InteractiveLow,
    DataHigh,
    Data,
    DataLow,
    Background,
}

/// The format of a message payload, in the order of its wire values 0 to 8.
#[derive(Clone, Copy, Debug, PartialEq, Eq, Structural)]
pub enum UPayloadFormat {
    Unspecified,
    ProtobufWrappedInAny,
    Protobuf,
    Json,
    Someip,
    SomeipTlv,
    Raw,
    Text,
    Shm,
}

/// The substrate level of each message priority; an unspecified priority
/// travels as CS1 does.
pub open spec fn priority_spec(p: UPriority) -> Priority {
    match p {
        UPriority::Cs0 => Priority::Background,
        UPriority::Cs1 => Priority::DataLow,
        UPriority::Cs2 => Priority::Data,
        UPriority::Cs3 => Priority::DataHigh,
        UPriority::Cs4 => Priority::InteractiveLow,
        UPriority::Cs5 => Priority::InteractiveHigh,
        UPriority::Cs6 => Priority::RealTime,
        UPriority::Unspecified => Priority::DataLow,
    }
}

/// Rank of a message priority: 0 for unspecified, then 1 for CS0 up to 7 for CS6.
pub open spec fn priority_rank(p: UPriority) -> int {
    match p {
        UPriority::Unspecified => 0,
        UPriority::Cs0 => 1,
        UPriority::Cs1 => 2,
        UPriority::Cs2 => 3,
        UPriority::Cs3 => 4,
        UPriority::Cs4 => 5,
        UPriority::Cs5 => 6,
        UPriority::Cs6 => 7,
    }
}

/// Urgency of a substrate level: 0 for background up to 6 for real time.
pub open spec fn urgency(p: Priority) -> int {
    match p {
        Priority::Background => 0,
        Priority::DataLow => 1,
        Priority::Data => 2,
        Priority::DataHigh => 3,
        Priority::InteractiveLow => 4,
        Priority::InteractiveHigh => 5,
        Priority::RealTime => 6,
    }
}

/// The substrate priority that a message priority travels with.
pub fn map_zenoh_priority(upriority: UPriority) -> (r: Priority)
    ensures
        r == priority_spec(upriority),
{
    match upriority {
        UPriority::Cs0 => Priority::Background,
        UPriority::Cs1 => Priority::DataLow,
        UPriority::Cs2 => Priority::Data,
        UPriority::Cs3 => Priority::DataHigh,
        UPriority::Cs4 => Priority::InteractiveLow,
        UPriority::Cs5 => Priority::InteractiveHigh,
        UPriority::Cs6 => Priority::RealTime,
        UPriority::Unspecified => Priority::DataLow,
    }
}

/// The explicit levels map one to one and in order onto the substrate levels,
/// and the unspecified level maps to the level of CS1.
pub proof fn lemma_priority_order(a: UPriority, b: UPriority)
    ensures
        a != UPriority::Unspecified && b != UPriority::Unspecified ==> (priority_rank(a)
            < priority_rank(b) <==> urgency(priority_spec(a)) < urgency(priority_spec(b))),
        priority_spec(UPriority::Unspecified) == priority_spec(UPriority::Cs1),
{
}

/// The format with the given wire value, if there is one.
pub open spec fn payload_format_of(v: int) -> Option<UPayloadFormat> {
    if v == 0 { Some(UPayloadFormat::Unspecified) }
    else if v == 1 { Some(UPayloadFormat::ProtobufWrappedInAny) }
    else if v == 2 { Some(UPayloadFormat::Protobuf) }
    else if v == 3 { Some(UPayloadFormat::Json) }
    else if v == 4 { Some(UPayloadFormat::Someip) }
    else if v == 5 { Some(UPayloadFormat::SomeipTlv) }
    else if v == 6 { Some(UPayloadFormat::Raw) }
    else if v == 7 { Some(UPayloadFormat::Text) }
    else if v == 8 { Some(UPayloadFormat::Shm) }
    else { None }
}

/// The value of the decimal digits, most significant first.
pub open spec fn digits_value(d: Seq<char>) -> int
    decreases d.len(),
{
    if d.len() == 0 {
        0
    } else {
        digits_value(d.drop_last()) * 10 + (d.last() as int - '0' as int)
    }
}

/// The number that text writes in decimal: an optional `+` or `-`, then one
/// or more ASCII digits, with a value in the range of `i32`.
pub open spec fn decimal_i32(s: Seq<char>) -> Option<i32> {
    let neg = s.len() > 0 && s[0] == '-';
    let d = if s.len() > 0 && (s[0] == '-' || s[0] == '+') {
        s.drop_first()
    } else {
        s
    };
    let v = if neg {
        -digits_value(d)
    } else {
        digits_value(d)
    };
    if d.len() > 0 && (forall|i: int| 0 <= i < d.len() ==> '0' <= #[trigger] d[i] <= '9') && i32::MIN
        <= v <= i32::MAX {
        Some(v as i32)
    } else {
        None
    }
}

/// Relies on `<i32 as FromStr>::from_str`: an optional sign followed by
/// decimal digits, accepted when the value fits in an `i32`.
#[verifier::external_body]
fn parse_i32(s: &str) -> (r: Option<i32>)
    ensures
        r == decimal_i32(s@),
{
    s.parse::<i32>().ok()
}

/// Relies on `protobuf::Enum::from_i32` and `protobuf::Enum::value` of
/// up-rust's `UPayloadFormat`, whose variants carry the values 0 to 8.
#[verifier::external_body]
fn known_payload_format(v: i32) -> (r: Option<i32>)
    ensures
        r == (if 0 <= v <= 8 { Some(v) } else { None::<i32> }),
{
    match <up_rust::UPayloadFormat as protobuf::Enum>::from_i32(v) {
        Some(f) => Some(protobuf::Enum::value(&f)),
        None => None,
    }
}

/// The payload format named by the numeric suffix of a substrate encoding;
/// `None` when the suffix is no number or no format has that value.
pub fn to_upayload_format(suffix: &str) -> (r: Option<UPayloadFormat>)
    ensures
        r == (match decimal_i32(suffix@) {
            Some(v) => payload_format_of(v as int),
            None => None,
        }),
{
    let value = match parse_i32(suffix) {
        Some(v) => v,
        None => { return None; },
    };
    match known_payload_format(value) {
        Some(0) => Some(UPayloadFormat::Unspecified),
        Some(1) => Some(UPayloadFormat::ProtobufWrappedInAny),
        Some(2) => Some(UPayloadFormat::Protobuf),
        Some(3) => Some(UPayloadFormat::Json),
        Some(4) => Some(UPayloadFormat::Someip),
        Some(5) => Some(UPayloadFormat::SomeipTlv),
        Some(6) => Some(UPayloadFormat::Raw),
        Some(7) => Some(UPayloadFormat::Text),
        Some(8) => Some(UPayloadFormat::Shm),
        _ => None,
    }
}

} // verus!
