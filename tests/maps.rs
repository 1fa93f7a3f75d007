use up_client_zenoh::client::{
    config_endpoints, invoke_reply_attributes, route_of_message, SendRoute, UMessageType,
    UPClientZenohConfig, ZenohMode,
};
use up_client_zenoh::error::ErrorCode;
use up_client_zenoh::priority::{map_zenoh_priority, to_upayload_format, Priority, UPayloadFormat, UPriority};

#[test]
fn priorities_map_in_order() {
    assert_eq!(map_zenoh_priority(UPriority::Cs0), Priority::Background);
    assert_eq!(map_zenoh_priority(UPriority::Cs1), Priority::DataLow);
    assert_eq!(map_zenoh_priority(UPriority::Cs2), Priority::Data);
    assert_eq!(map_zenoh_priority(UPriority::Cs3), Priority::DataHigh);
    assert_eq!(map_zenoh_priority(UPriority::Cs4), Priority::InteractiveLow);
    assert_eq!(map_zenoh_priority(UPriority::Cs5), Priority::InteractiveHigh);
    assert_eq!(map_zenoh_priority(UPriority::Cs6), Priority::RealTime);
}

#[test]
fn unspecified_priority_is_data_low() {
    assert_eq!(map_zenoh_priority(UPriority::Unspecified), Priority::DataLow);
}

#[test]
fn payload_format_from_suffix() {
    assert_eq!(to_upayload_format("7"), Some(UPayloadFormat::Text));
    assert_eq!(to_upayload_format("0"), Some(UPayloadFormat::Unspecified));
    assert_eq!(to_upayload_format("+3"), Some(UPayloadFormat::Json));
    assert_eq!(to_upayload_format("8"), Some(UPayloadFormat::Shm));
    assert_eq!(to_upayload_format("9"), None);
    assert_eq!(to_upayload_format("-1"), None);
    assert_eq!(to_upayload_format("text"), None);
    assert_eq!(to_upayload_format(""), None);
    assert_eq!(to_upayload_format(" 7"), None);
    assert_eq!(to_upayload_format("99999999999"), None);
}

#[test]
fn message_routes() {
    assert_eq!(route_of_message(UMessageType::Publish).unwrap(), SendRoute::Publish);
    assert_eq!(route_of_message(UMessageType::Request).unwrap(), SendRoute::Query);
    assert_eq!(route_of_message(UMessageType::Response).unwrap(), SendRoute::Reply);
    assert_eq!(route_of_message(UMessageType::Notification).unwrap(), SendRoute::Publish);
    assert_eq!(
        route_of_message(UMessageType::Unspecified).unwrap_err().code,
        ErrorCode::InvalidArgument
    );
}

#[test]
fn unanswered_call_is_deadline_exceeded() {
    let err = invoke_reply_attributes(None).unwrap_err();
    assert_eq!(err.code, ErrorCode::DeadlineExceeded);
}

#[test]
fn configuration_endpoints_are_parsed() {
    let config = UPClientZenohConfig {
        mode: ZenohMode::Peer,
        listen: Some(vec![String::from("tcp/localhost:7447")]),
        connect: None,
    };
    let endpoints = config_endpoints(&config).unwrap();
    assert!(endpoints.connect.is_none());
    assert_eq!(endpoints.listen.unwrap().len(), 1);
}

#[test]
fn malformed_endpoint_is_invalid_argument() {
    let config = UPClientZenohConfig {
        mode: ZenohMode::Client,
        listen: Some(vec![String::from("localhost")]),
        connect: Some(vec![String::from("tcp/127.0.0.1:7447"), String::from("tcp/")]),
    };
    let err = config_endpoints(&config).unwrap_err();
    assert_eq!(err.code, ErrorCode::InvalidArgument);
    assert_eq!(err.message, "Connect address are wrong format");
}
