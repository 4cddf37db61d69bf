//! Socket endpoints of the inspect bridge: `unix:///absolute/path.sock`, or
//! `tcp://host:port` as a fallback where Unix sockets are not available.
use vstd::prelude::*;

use crate::text::{
    cat, contains_char, copy_str, is_blank, is_blank_str, lemma_trim_idempotent, starts_with_str,
    strip_prefix_str, trim, trim_str,
};

verus! {

pub const UNIX_PREFIX: &'static str = "unix://";

pub const TCP_PREFIX: &'static str = "tcp://";

pub const EMPTY_ENDPOINT_MESSAGE: &'static str = "socket endpoint must not be empty";

pub const UNIX_PATH_MISSING_MESSAGE: &'static str = "unix socket endpoint must include a path";

pub const UNIX_PATH_RELATIVE_MESSAGE: &'static str =
    "unix socket endpoint must use unix:///absolute/path.sock form";

pub const UNKNOWN_SCHEME_MESSAGE: &'static str =
    "socket endpoint must use unix:///path.sock form, or tcp://host:port on non-Unix platforms";

pub const TCP_ADDRESS_MISSING_MESSAGE: &'static str = "tcp socket endpoint must include host:port";

pub const TCP_PORT_MISSING_MESSAGE: &'static str = "tcp socket endpoint must include a port";

/// Where an inspect socket listens: a Unix socket path, or a TCP `host:port`.
#[derive(Clone, Debug, PartialEq, Eq)]
pub enum SocketEndpoint {
    Unix(String),
    Tcp(String),
}

/// Why a socket endpoint was refused.
#[derive(Clone, Debug, PartialEq, Eq)]
pub struct SocketEndpointParseError {
    message: String,
}

/// A socket endpoint, as plain text.
pub enum EndpointView {
    Unix(Seq<char>),
    Tcp(Seq<char>),
}

impl SocketEndpoint {
    pub open spec fn view(self) -> EndpointView {
        match self {
            SocketEndpoint::Unix(p) => EndpointView::Unix(p@),
            SocketEndpoint::Tcp(a) => EndpointView::Tcp(a@),
        }
    }
}

impl SocketEndpointParseError {
    pub closed spec fn message_view(self) -> Seq<char> {
        self.message@
    }
}

/// The refusal of a `tcp://` address, if any.
pub open spec fn tcp_address_error(address: Seq<char>) -> Option<Seq<char>> {
    if is_blank(address) {
        Some(TCP_ADDRESS_MISSING_MESSAGE@)
    } else if !address.contains(':') {
        Some(TCP_PORT_MISSING_MESSAGE@)
    } else {
        None
    }
}

/// What an endpoint text parses to, after trimming: the endpoint, or the
/// message that refuses it.
pub open spec fn parse_endpoint(text: Seq<char>) -> Result<EndpointView, Seq<char>> {
    let value = trim(text);
    if value.len() == 0 {
        Err(EMPTY_ENDPOINT_MESSAGE@)
    } else if UNIX_PREFIX@.is_prefix_of(value) {
        let path = value.skip(UNIX_PREFIX@.len() as int);
        if path.len() == 0 {
            Err(UNIX_PATH_MISSING_MESSAGE@)
        } else if path[0] != '/' {
            Err(UNIX_PATH_RELATIVE_MESSAGE@)
        } else {
            Ok(EndpointView::Unix(path))
        }
    } else if TCP_PREFIX@.is_prefix_of(value) {
        let address = value.skip(TCP_PREFIX@.len() as int);
        match tcp_address_error(address) {
            Some(message) => Err(message),
            None => Ok(EndpointView::Tcp(address)),
        }
    } else {
        Err(UNKNOWN_SCHEME_MESSAGE@)
    }
}

/// The text form of an endpoint: `unix://<path>` or `tcp://<address>`.
pub open spec fn endpoint_text(e: EndpointView) -> Seq<char> {
    match e {
        EndpointView::Unix(p) => UNIX_PREFIX@ + p,
        EndpointView::Tcp(a) => TCP_PREFIX@ + a,
    }
}

impl SocketEndpoint {
    /// Parses `unix:///absolute/path.sock` or `tcp://host:port`, after
    /// trimming surrounding white space.
    pub fn parse(value: &str) -> (res: Result<Self, SocketEndpointParseError>)
        ensures
            match res {
                Ok(e) => parse_endpoint(value@) == Ok::<EndpointView, Seq<char>>(e.view()),
                Err(err) => parse_endpoint(value@) == Err::<EndpointView, Seq<char>>(
                    err.message_view(),
                ),
            },
    {
        let value = trim_str(value);
        if value.as_str().is_empty() {
            return Err(SocketEndpointParseError::new(EMPTY_ENDPOINT_MESSAGE));
        }
        let unix = strip_prefix_str(value.as_str(), UNIX_PREFIX);
        if let Some(path) = unix {
            if path.as_str().is_empty() {
                return Err(SocketEndpointParseError::new(UNIX_PATH_MISSING_MESSAGE));
            }
            if !starts_with_str(path.as_str(), "/") {
                proof {
                    reveal_strlit("/");
                    if path@[0] == '/' {
                        assert("/"@ =~= path@.subrange(0, 1));
                    }
                }
                return Err(SocketEndpointParseError::new(UNIX_PATH_RELATIVE_MESSAGE));
            }
            proof {
                reveal_strlit("/");
                assert(path@.subrange(0, 1)[0] == path@[0]);
            }
            return Ok(SocketEndpoint::Unix(path));
        }
        let tcp = strip_prefix_str(value.as_str(), TCP_PREFIX);
        if let Some(address) = tcp {
            match validate_tcp_address(address.as_str()) {
                Ok(()) => {
                    return Ok(SocketEndpoint::Tcp(address));
                },
                Err(err) => {
                    return Err(err);
                },
            }
        }
        Err(SocketEndpointParseError::new(UNKNOWN_SCHEME_MESSAGE))
    }

    /// The text form of this endpoint: `unix://<path>` or `tcp://<address>`.
    pub fn as_endpoint(&self) -> (s: String)
        ensures
            s@ == endpoint_text(self.view()),
    {
        match self {
            SocketEndpoint::Unix(path) => cat(UNIX_PREFIX, path.as_str()),
            SocketEndpoint::Tcp(address) => cat(TCP_PREFIX, address.as_str()),
        }
    }
}

impl SocketEndpointParseError {
    fn new(message: &str) -> (e: Self)
        ensures
            e.message_view() == message@,
    {
        SocketEndpointParseError { message: copy_str(message) }
    }

    /// The message that explains the refusal.
    pub fn to_string(&self) -> (s: String)
        ensures
            s@ == self.message_view(),
    {
        copy_str(self.message.as_str())
    }
}

/// Checks the `host:port` part of a `tcp://` endpoint.
pub fn validate_tcp_address(address: &str) -> (res: Result<(), SocketEndpointParseError>)
    ensures
        match res {
            Ok(()) => tcp_address_error(address@) is None,
            Err(err) => tcp_address_error(address@) == Some(err.message_view()),
        },
{
    if is_blank_str(address) {
        return Err(SocketEndpointParseError::new(TCP_ADDRESS_MISSING_MESSAGE));
    }
    if !contains_char(address, ':') {
        return Err(SocketEndpointParseError::new(TCP_PORT_MISSING_MESSAGE));
    }
    Ok(())
}

/// Endpoint round trip: an endpoint that parsing accepted prints as text that
/// parses back to that same endpoint.
pub proof fn lemma_endpoint_round_trip(text: Seq<char>)
    requires
        parse_endpoint(text) is Ok,
    ensures
        endpoint_text(parse_endpoint(text)->Ok_0) == trim(text),
        parse_endpoint(endpoint_text(parse_endpoint(text)->Ok_0)) == parse_endpoint(text),
{
    let value = trim(text);
    lemma_trim_idempotent(text);
    if UNIX_PREFIX@.is_prefix_of(value) {
        assert(UNIX_PREFIX@ + value.skip(UNIX_PREFIX@.len() as int) =~= value);
    } else {
        assert(TCP_PREFIX@ + value.skip(TCP_PREFIX@.len() as int) =~= value);
    }
}

} // verus!
