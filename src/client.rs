use vstd::prelude::*;
use crate::attributes::{attachment_to_uattributes, decoded_attributes, Attachment};
use crate::error::{ErrorCode, TransportError};
use up_rust::UAttributes;
use zenoh::config::EndPoint;

verus! {

/// The role the substrate session takes in its network.
#[derive(Clone, Copy, Debug, PartialEq, Eq, Structural)]
pub enum ZenohMode {
    Peer,
    Client,
    Router,
}

/// Configuration of a transport client.
#[derive(Debug)]
pub struct UPClientZenohConfig {
    /// The session's mode (router, peer or client).
    pub mode: ZenohMode,
    /// Endpoints to listen on, such as `tcp/localhost:7447`.
    pub listen: Option<Vec<String>>,
    /// Endpoints to connect to, such as `tcp/localhost:7447`.
    pub connect: Option<Vec<String>>,
}

#[verifier::external_type_specification]
#[verifier::external_body]
pub struct ExEndPoint(EndPoint);

/// The endpoint that zenoh reads from the text, if it reads one.
pub uninterp spec fn parsed_endpoint(s: Seq<char>) -> Option<EndPoint>;

/// Whether every address reads as an endpoint.
pub open spec fn all_endpoints(addresses: Seq<String>) -> bool {
    forall|i: int| 0 <= i < addresses.len() ==> (#[trigger] parsed_endpoint(addresses[i]@)) is Some
}

/// Whether each endpoint is the one that the address at its position names.
pub open spec fn endpoints_of(addresses: Seq<String>, v: Seq<EndPoint>) -> bool {
    &&& v.len() == addresses.len()
    &&& forall|i: int| 0 <= i < v.len() ==> parsed_endpoint(addresses[i]@) == Some(#[trigger] v[i])
}

/// Relies on `<EndPoint as FromStr>::from_str` of zenoh, whose outcome depends
/// on the text alone.
#[verifier::external_body]
fn parse_endpoint(s: &str) -> (r: Option<EndPoint>)
    ensures
        r == parsed_endpoint(s@),
{
    s.parse::<EndPoint>().ok()
}

/// The endpoints that the addresses name, in order; `InvalidArgument` with the
/// given message when one of them is no endpoint.
pub fn parse_endpoints(addresses: &Vec<String>, message: &str) -> (r: Result<
    Vec<EndPoint>,
    TransportError,
>)
    ensures
        r is Ok <==> all_endpoints(addresses@),
        match r {
            Ok(v) => endpoints_of(addresses@, v@),
            Err(e) => e.code == ErrorCode::InvalidArgument && e.message@ == message@,
        },
{
    let mut out: Vec<EndPoint> = Vec::new();
    let mut i: usize = 0;
    while i < addresses.len()
        invariant
            i <= addresses@.len(),
            out@.len() == i,
            forall|j: int| 0 <= j < i ==> parsed_endpoint(addresses@[j]@) == Some(#[trigger] out@[j]),
        decreases addresses@.len() - i,
    {
        match parse_endpoint(addresses[i].as_str()) {
            Some(e) => out.push(e),
            None => {
                return Err(TransportError::fail_with_code(ErrorCode::InvalidArgument, message));
            },
        }
        i = i + 1;
    }
    proof {
        assert forall|j: int| 0 <= j < addresses@.len() implies (#[trigger] parsed_endpoint(
            addresses@[j]@,
        )) is Some by {
            assert(parsed_endpoint(addresses@[j]@) == Some(out@[j]));
        }
    }
    Ok(out)
}

/// The endpoints a session connects to and listens on, each list only where
/// the configuration gives one.
#[derive(Debug)]
pub struct SessionEndpoints {
    pub connect: Option<Vec<EndPoint>>,
    pub listen: Option<Vec<EndPoint>>,
}

/// Whether the optional address list is absent or reads as endpoints.
pub open spec fn endpoints_ok(addresses: Option<Vec<String>>) -> bool {
    match addresses {
        Some(a) => all_endpoints(a@),
        None => true,
    }
}

/// The message of a connect address that is no endpoint.
pub open spec fn connect_message() -> Seq<char> {
    "Connect address are wrong format"@
}

/// The message of a listen address that is no endpoint.
pub open spec fn listen_message() -> Seq<char> {
    "Listen address are wrong format"@
}

/// The endpoints of a configuration: `InvalidArgument` when a connect or a
/// listen address is no endpoint, connect addresses read first.
pub fn config_endpoints(config: &UPClientZenohConfig) -> (r: Result<
    SessionEndpoints,
    TransportError,
>)
    ensures
        r is Ok <==> endpoints_ok(config.connect) && endpoints_ok(config.listen),
        match r {
            Ok(e) => {
                &&& (e.connect is Some <==> config.connect is Some)
                &&& (e.listen is Some <==> config.listen is Some)
                &&& (e.connect matches Some(v) ==> endpoints_of(config.connect->0@, v@))
                &&& (e.listen matches Some(v) ==> endpoints_of(config.listen->0@, v@))
            },
            Err(e) => {
                &&& e.code == ErrorCode::InvalidArgument
                &&& e.message@ == (if endpoints_ok(config.connect) {
                    listen_message()
                } else {
                    connect_message()
                })
            },
        },
{
    let connect = match &config.connect {
        Some(c) => match parse_endpoints(c, "Connect address are wrong format") {
            Ok(v) => Some(v),
            Err(e) => { return Err(e); },
        },
        None => None,
    };
    let listen = match &config.listen {
        Some(l) => match parse_endpoints(l, "Listen address are wrong format") {
            Ok(v) => Some(v),
            Err(e) => { return Err(e); },
        },
        None => None,
    };
    Ok(SessionEndpoints { connect, listen })
}

/// A listener handle with nothing in it.
#[derive(Debug)]
pub struct ZenohListener {}

/// The kind of a message, as its attributes give it.
#[derive(Clone, Copy, Debug, PartialEq, Eq, Structural)]
pub enum UMessageType {
    Unspecified,
    Publish,
    Request,
    Response,
    Notification,
}

/// How an outgoing message travels over the substrate.
#[derive(Clone, Copy, Debug, PartialEq, Eq, Structural)]
pub enum SendRoute {
    /// Published on the key of the message's source.
    Publish,
    /// Sent as a query on the sink's key, its response delivered later.
    Query,
    /// The answer to the pending query of the same correlation id.
    Reply,
}

/// The route of each kind of message.
pub open spec fn route_spec(t: UMessageType) -> Option<SendRoute> {
    match t {
        UMessageType::Publish => Some(SendRoute::Publish),
        UMessageType::Request => Some(SendRoute::Query),
        UMessageType::Response => Some(SendRoute::Reply),
        UMessageType::Notification => Some(SendRoute::Publish),
        UMessageType::Unspecified => None,
    }
}

/// The route of an outgoing message; a message of no kind is refused as
/// `InvalidArgument`.
pub fn route_of_message(t: UMessageType) -> (r: Result<SendRoute, TransportError>)
    ensures
        match r {
            Ok(route) => route_spec(t) == Some(route),
            Err(e) => route_spec(t) is None && e.code == ErrorCode::InvalidArgument,
        },
{
    match t {
        UMessageType::Publish => Ok(SendRoute::Publish),
        UMessageType::Request => Ok(SendRoute::Query),
        UMessageType::Response => Ok(SendRoute::Reply),
        UMessageType::Notification => Ok(SendRoute::Publish),
        UMessageType::Unspecified => Err(
            TransportError::fail_with_code(ErrorCode::InvalidArgument, "Wrong Message type"),
        ),
    }
}

/// The attributes of the response to a method call: `DeadlineExceeded` when
/// no reply came within the time to live, else those that the reply's
/// attachment carries.
pub fn invoke_reply_attributes(reply: Option<&Attachment>) -> (r: Result<UAttributes, TransportError>)
    ensures
        reply is None ==> (r matches Err(e) && e.code == ErrorCode::DeadlineExceeded),
        reply matches Some(a) ==> decoded_attributes(a.entries@, r),
{
    match reply {
        None => Err(
            TransportError::fail_with_code(
                ErrorCode::DeadlineExceeded,
                "No reply within the time to live",
            ),
        ),
        Some(a) => attachment_to_uattributes(a),
    }
}

} // verus!
