//! How updates reach the bot: pushed to a local endpoint by the chat
//! platform, or pulled from it by long polling. The webhook address in the
//! configuration decides, and nothing else does.

use vstd::prelude::*;
use vstd::string::*;

verus! {

/// The two ways to receive updates. There is no third.
#[derive(Clone, Copy, Debug, PartialEq, Eq, Structural)]
pub enum TransportMode {
    /// The chat platform delivers updates to an endpoint of ours.
    Push,
    /// We ask the chat platform for updates, again and again.
    Pull,
}

/// The port of the local endpoint in push mode.
pub const WEBHOOK_PORT: u16 = 8443;

/// The local address of the endpoint in push mode: every interface.
pub const WEBHOOK_HOST: [u8; 4] = [0, 0, 0, 0];

/// A transport that is ready to be started.
#[derive(Clone, Debug, PartialEq, Eq)]
pub enum Transport {
    /// Listen on `host` and `port` for updates that the chat platform
    /// sends to `url`, the webhook address in its normal form.
    Push { url: String, host: [u8; 4], port: u16 },
    /// Poll for updates.
    Pull,
}

/// What a `Transport` holds, as plain mathematical values.
pub enum TransportView {
    Push { url: Seq<char>, host: Seq<u8>, port: int },
    Pull,
}

impl View for Transport {
    type V = TransportView;

    open spec fn view(&self) -> TransportView {
        match self {
            Transport::Push { url, host, port } => TransportView::Push {
                url: url@,
                host: host@,
                port: *port as int,
            },
            Transport::Pull => TransportView::Pull,
        }
    }
}

impl TransportView {
    /// The mode that this transport runs in.
    pub open spec fn mode(self) -> TransportMode {
        match self {
            TransportView::Push { .. } => TransportMode::Push,
            TransportView::Pull => TransportMode::Pull,
        }
    }
}

/// Why the transport could not be set up.
#[derive(Clone, Copy, Debug, PartialEq, Eq, Structural)]
pub enum StartupError {
    /// The configured webhook address is no well-formed URL.
    InvalidWebhookUrl,
}

/// The mode that the configuration asks for: push where a webhook address
/// is set, pull where none is.
pub open spec fn mode_for(webhook_url: Option<Seq<char>>) -> TransportMode {
    if webhook_url is Some {
        TransportMode::Push
    } else {
        TransportMode::Pull
    }
}

/// What `Url::parse` of the `url` crate makes of `input`: the normal form
/// of the URL, or `None` where `input` is no absolute URL.
pub uninterp spec fn parsed_url(input: Seq<char>) -> Option<Seq<char>>;

/// The transport for a configuration whose webhook address, where it has
/// one, parses as `parsed` says.
pub open spec fn transport_for(parsed: Option<Option<Seq<char>>>) -> Result<
    TransportView,
    StartupError,
> {
    match parsed {
        None => Ok(TransportView::Pull),
        Some(Some(url)) => Ok(
            TransportView::Push { url, host: WEBHOOK_HOST@, port: WEBHOOK_PORT as int },
        ),
        Some(None) => Err(StartupError::InvalidWebhookUrl),
    }
}

/// The outcome of parsing a URL, as the `url` crate reports it.
#[verifier::external_type_specification]
#[verifier::external_body]
pub struct ExParseError(url::ParseError);

/// `url::Url::parse`, with the URL that comes out handed on in its
/// serialized form. The call succeeds on exactly the inputs that the crate
/// takes for an absolute URL, and what it gives depends on the input alone.
#[verifier::external_body]
fn parse_url(input: &str) -> (parsed: Result<String, url::ParseError>)
    ensures
        match parsed {
            Ok(url) => parsed_url(input@) == Some(url@),
            Err(_) => parsed_url(input@) is None,
        },
{
    url::Url::parse(input).map(String::from)
}

/// The mode that the configuration asks for.
pub fn transport_mode(webhook_url: Option<&str>) -> (mode: TransportMode)
    ensures
        mode == mode_for(
            match webhook_url {
                Some(input) => Some(input@),
                None => None,
            },
        ),
{
    match webhook_url {
        Some(_) => TransportMode::Push,
        None => TransportMode::Pull,
    }
}

/// Sets the transport up once the webhook address, where there is one,
/// has been parsed: `None` for no address, `Some(None)` for an address that
/// did not parse, `Some(Some(url))` for one that did.
pub fn transport_from(parsed: Option<Option<String>>) -> (transport: Result<
    Transport,
    StartupError,
>)
    ensures
        match transport {
            Ok(transport) => Ok(transport@),
            Err(error) => Err(error),
        } == transport_for(
            match parsed {
                Some(Some(url)) => Some(Some(url@)),
                Some(None) => Some(None),
                None => None,
            },
        ),
{
    match parsed {
        None => Ok(Transport::Pull),
        Some(Some(url)) => Ok(Transport::Push { url, host: WEBHOOK_HOST, port: WEBHOOK_PORT }),
        Some(None) => Err(StartupError::InvalidWebhookUrl),
    }
}

/// Chooses and sets up the transport for the configured webhook address.
///
/// Without an address the transport is pull. With one it is push, on the
/// fixed local endpoint, for the address in its normal form; an address
/// that is no well-formed URL is a startup failure.
pub fn select_transport(webhook_url: Option<&str>) -> (transport: Result<Transport, StartupError>)
    ensures
        match transport {
            Ok(transport) => Ok(transport@),
            Err(error) => Err(error),
        } == transport_for(
            match webhook_url {
                Some(input) => Some(parsed_url(input@)),
                None => None,
            },
        ),
{
    match webhook_url {
        Some(input) => match parse_url(input) {
            Ok(url) => transport_from(Some(Some(url))),
            Err(_) => transport_from(Some(None)),
        },
        None => transport_from(None),
    }
}

/// The transport's mode is a function of the configuration alone: where
/// setting up succeeds, the transport runs in push mode if a webhook address
/// is configured and in pull mode if none is.
pub proof fn law_mode_follows_configuration(webhook_url: Option<Seq<char>>)
    ensures
        match webhook_url {
            Some(input) => match transport_for(Some(parsed_url(input))) {
                Ok(transport) => transport.mode() == TransportMode::Push,
                Err(error) => parsed_url(input) is None,
            },
            None => transport_for(None) matches Ok(transport) && transport.mode()
                == TransportMode::Pull,
        },
        mode_for(webhook_url) == TransportMode::Push || mode_for(webhook_url)
            == TransportMode::Pull,
{
}

} // verus!
