//! The settings of a connection: how a profile becomes settings, and how
//! settings become an open connection.

use crate::engine::{
    opened_with, queue_capacity, session_options, share, start, with_credentials, with_keep_alive,
    EngineSettings,
};
use crate::model::{text_of, ConnectionProfile, ProfileView};
use crate::state::MqttClientState;
use crate::url::{fault_text, parse_mqtt_url, resolve, UrlError, UrlFault};
use crate::uuid::{hyphenated, is_random_form, lemma_hyphenated_shape, Uuid};
use rumqttc::{AsyncClient, EventLoop};
use vstd::prelude::*;

verus! {

/// The keep-alive interval, in seconds, of a profile that names none.
pub const DEFAULT_KEEP_ALIVE_SECS: u64 = 60;

/// How many requests the queue between a connection's handle and its event
/// stream holds.
pub const REQUEST_CAPACITY: usize = 10;

/// Why a connect failed.
#[derive(Debug, Clone, PartialEq, Eq)]
pub enum ConnectError {
    /// The profile's address is no broker address.
    InvalidUrl(UrlError),
    /// The profile names no client identifier, and none could be made.
    NoClientId,
    /// The profile asks to keep the session and gives an empty client
    /// identifier; the broker could not find the session again.
    EmptyClientId,
    /// The connection could not be opened; holds the reason.
    OpenFailed(String),
    /// A subscription could not be asked for; holds its filter and the reason.
    SubscribeFailed { filter: String, reason: String },
}

/// The mathematical value of a [`ConnectError`].
pub enum ConnectFault {
    InvalidUrl(UrlFault),
    NoClientId,
    EmptyClientId,
    OpenFailed(Seq<char>),
    SubscribeFailed { filter: Seq<char>, reason: Seq<char> },
}

impl View for ConnectError {
    type V = ConnectFault;

    open spec fn view(&self) -> ConnectFault {
        match self {
            ConnectError::InvalidUrl(error) => ConnectFault::InvalidUrl(error@),
            ConnectError::NoClientId => ConnectFault::NoClientId,
            ConnectError::EmptyClientId => ConnectFault::EmptyClientId,
            ConnectError::OpenFailed(reason) => ConnectFault::OpenFailed(reason@),
            ConnectError::SubscribeFailed { filter, reason } => ConnectFault::SubscribeFailed {
                filter: filter@,
                reason: reason@,
            },
        }
    }
}

/// The text that reports `fault` to a caller.
pub open spec fn connect_fault_text(fault: ConnectFault) -> Seq<char> {
    match fault {
        ConnectFault::InvalidUrl(fault) => "Failed to parse URL: "@ + fault_text(fault),
        ConnectFault::NoClientId => "No client identifier could be generated"@,
        ConnectFault::EmptyClientId => "A persistent session needs a client identifier"@,
        ConnectFault::OpenFailed(reason) => "Connection failed: "@ + reason,
        ConnectFault::SubscribeFailed { filter, reason } => "Subscription failed for "@ + filter
            + ": "@ + reason,
    }
}

impl ConnectError {
    /// The text that reports this error to a caller.
    pub fn message(&self) -> (text: String)
        ensures
            text@ == connect_fault_text(self@),
    {
        match self {
            ConnectError::InvalidUrl(error) => {
                let mut text = "Failed to parse URL: ".to_owned();
                text.append(error.message().as_str());
                text
            },
            ConnectError::NoClientId => "No client identifier could be generated".to_owned(),
            ConnectError::EmptyClientId => "A persistent session needs a client identifier".to_owned(),
            ConnectError::OpenFailed(reason) => {
                let mut text = "Connection failed: ".to_owned();
                text.append(reason.as_str());
                text
            },
            ConnectError::SubscribeFailed { filter, reason } => {
                let mut text = "Subscription failed for ".to_owned();
                text.append(filter.as_str());
                text.append(": ");
                text.append(reason.as_str());
                text
            },
        }
    }
}

/// The settings of one connection.
#[derive(Debug, Clone, PartialEq, Eq)]
pub struct ConnectionConfig {
    pub host: String,
    pub port: u16,
    /// Whether the address asked for a secure transport. The connection is
    /// plain either way; see [`ConnectionConfig::transport_warning`].
    pub secure: bool,
    pub client_id: String,
    pub keep_alive_secs: u64,
    pub clean_session: bool,
    /// User name and password.
    pub credentials: Option<(String, String)>,
}

/// The mathematical value of a [`ConnectionConfig`].
pub struct ConfigView {
    pub host: Seq<char>,
    pub port: u16,
    pub secure: bool,
    pub client_id: Seq<char>,
    pub keep_alive_secs: u64,
    pub clean_session: bool,
    pub credentials: Option<(Seq<char>, Seq<char>)>,
}

impl View for ConnectionConfig {
    type V = ConfigView;

    open spec fn view(&self) -> ConfigView {
        ConfigView {
            host: self.host@,
            port: self.port,
            secure: self.secure,
            client_id: self.client_id@,
            keep_alive_secs: self.keep_alive_secs,
            clean_session: self.clean_session,
            credentials: match self.credentials {
                Some((username, password)) => Some((username@, password@)),
                None => None,
            },
        }
    }
}

impl ConfigView {
    /// Whether the protocol engine takes these settings: a session that is
    /// to be kept needs a client identifier.
    pub open spec fn accepted(self) -> bool {
        self.client_id.len() > 0 || self.clean_session
    }

    /// What the engine is told of a connection with these settings. The
    /// transport is plain whether or not a secure one was asked for.
    pub open spec fn for_engine(self) -> EngineSettings {
        EngineSettings {
            client_id: self.client_id,
            host: self.host,
            port: self.port,
            keep_alive_secs: self.keep_alive_secs,
            clean_session: self.clean_session,
            credentials: self.credentials,
            plain_transport: true,
        }
    }
}

/// The mathematical value of settings or the error in their place.
pub open spec fn configured(outcome: Result<ConnectionConfig, ConnectError>) -> Result<
    ConfigView,
    ConnectFault,
> {
    match outcome {
        Ok(config) => Ok(config@),
        Err(error) => Err(error@),
    }
}

/// The client identifier made from the bytes of a fresh identifier: a
/// fixed prefix and the first eight digits of the identifier's text.
pub open spec fn synthesized_id(bytes: Seq<u8>) -> Seq<char> {
    "mqttui_"@ + hyphenated(bytes).take(8)
}

/// The user name and password of a profile: those of a profile with a user
/// name, where an absent password is the empty one. A password without a
/// user name counts for nothing.
pub open spec fn credentials_of(profile: ProfileView) -> Option<(Seq<char>, Seq<char>)> {
    match profile.username {
        Some(username) => Some(
            (
                username,
                match profile.password {
                    Some(password) => password,
                    None => Seq::empty(),
                },
            ),
        ),
        None => None,
    }
}

/// The settings that a profile asks for at the address `endpoint` (host,
/// port, and whether a secure transport was asked for), where `spare_id` is
/// the client identifier at hand for a profile that names none.
///
/// The client identifier is the profile's own, else the spare one; the
/// keep-alive interval and the clean-session flag are the profile's, else
/// 60 seconds and true.
pub open spec fn settle(
    profile: ProfileView,
    endpoint: (Seq<char>, u16, bool),
    spare_id: Option<Seq<char>>,
) -> Result<ConfigView, ConnectFault> {
    let client_id = match profile.client_id {
        Some(id) => Some(id),
        None => spare_id,
    };
    let clean_session = match profile.clean_start {
        Some(clean) => clean,
        None => true,
    };
    match client_id {
        None => Err(ConnectFault::NoClientId),
        Some(client_id) => if client_id.len() == 0 && !clean_session {
            Err(ConnectFault::EmptyClientId)
        } else {
            Ok(
                ConfigView {
                    host: endpoint.0,
                    port: endpoint.1,
                    secure: endpoint.2,
                    client_id,
                    keep_alive_secs: match profile.keepalive {
                        Some(seconds) => seconds,
                        None => DEFAULT_KEEP_ALIVE_SECS,
                    },
                    clean_session,
                    credentials: credentials_of(profile),
                },
            )
        },
    }
}

/// The settings that a profile asks for, where `spare_id` is the client
/// identifier at hand for a profile that names none.
///
/// The address is resolved first, and its error is the connect's error.
/// The rest is settled at the address that was found.
pub open spec fn configure(profile: ProfileView, spare_id: Option<Seq<char>>) -> Result<
    ConfigView,
    ConnectFault,
> {
    match resolve(profile.url) {
        Err(fault) => Err(ConnectFault::InvalidUrl(fault)),
        Ok(endpoint) => settle(profile, endpoint, spare_id),
    }
}

/// The client identifier that a draw of a fresh identifier gives: the one
/// made from the identifier, and none where the draw gave none.
pub open spec fn fresh_id(fresh: Option<Uuid>) -> Option<Seq<char>> {
    match fresh {
        Some(uuid) => Some(synthesized_id(uuid@)),
        None => None,
    }
}

/// A client identifier made from an identifier has fifteen characters, so
/// it is never the empty one that a kept session cannot have.
pub proof fn lemma_synthesized_id_len(bytes: Seq<u8>)
    requires
        bytes.len() == 16,
    ensures
        synthesized_id(bytes).len() == 15,
{
    reveal_strlit("mqttui_");
    lemma_hyphenated_shape(bytes);
}

/// Settings that were made from a profile are settings that the engine takes.
pub proof fn lemma_configured_is_accepted(profile: ProfileView, spare_id: Option<Seq<char>>)
    ensures
        configure(profile, spare_id) matches Ok(config) ==> config.accepted(),
{
}

/// Makes a client identifier from a fresh identifier.
pub fn client_id_from(uuid: &Uuid) -> (id: String)
    ensures
        id@ == synthesized_id(uuid@),
{
    let text = uuid.to_string();
    proof {
        uuid.lemma_sixteen_bytes();
        lemma_hyphenated_shape(uuid@);
    }
    let mut id = "mqttui_".to_owned();
    id.append(text.as_str().substring_char(0, 8));
    id
}

/// Makes the spare client identifier that a draw of a fresh identifier gives.
pub fn spare_id_from(fresh: Option<Uuid>) -> (spare_id: Option<String>)
    ensures
        text_of(spare_id) == fresh_id(fresh),
{
    match fresh {
        Some(uuid) => Some(client_id_from(&uuid)),
        None => None,
    }
}

impl ConnectionConfig {
    /// The settings that `profile` asks for at an address that has been
    /// resolved, with `spare_id` at hand as the client identifier of a
    /// profile that names none.
    pub fn at_endpoint(
        profile: ConnectionProfile,
        endpoint: (String, u16, bool),
        spare_id: Option<String>,
    ) -> (outcome: Result<ConnectionConfig, ConnectError>)
        ensures
            configured(outcome) == settle(
                profile@,
                (endpoint.0@, endpoint.1, endpoint.2),
                text_of(spare_id),
            ),
    {
        let (host, port, secure) = endpoint;
        let client_id = match profile.client_id {
            Some(id) => id,
            None => match spare_id {
                Some(id) => id,
                None => {
                    return Err(ConnectError::NoClientId);
                },
            },
        };
        let clean_session = match profile.clean_start {
            Some(clean) => clean,
            None => true,
        };
        if client_id.as_str().unicode_len() == 0 && !clean_session {
            return Err(ConnectError::EmptyClientId);
        }
        let keep_alive_secs = match profile.keepalive {
            Some(seconds) => seconds,
            None => DEFAULT_KEEP_ALIVE_SECS,
        };
        let credentials = match profile.username {
            Some(username) => Some(
                (
                    username,
                    match profile.password {
                        Some(password) => password,
                        None => String::new(),
                    },
                ),
            ),
            None => None,
        };
        Ok(
            ConnectionConfig {
                host,
                port,
                secure,
                client_id,
                keep_alive_secs,
                clean_session,
                credentials,
            },
        )
    }

    /// The settings that `profile` asks for, with `spare_id` at hand as the
    /// client identifier of a profile that names none.
    pub fn with_spare_id(profile: ConnectionProfile, spare_id: Option<String>) -> (outcome: Result<
        ConnectionConfig,
        ConnectError,
    >)
        ensures
            configured(outcome) == configure(profile@, text_of(spare_id)),
    {
        match parse_mqtt_url(profile.url.as_str()) {
            Ok(endpoint) => ConnectionConfig::at_endpoint(profile, endpoint, spare_id),
            Err(error) => Err(ConnectError::InvalidUrl(error)),
        }
    }

    /// The settings that `profile` asks for, where `fresh` is what a draw of
    /// a fresh identifier gave: a profile that names no client identifier
    /// gets the one made from it.
    pub fn with_fresh_id(profile: ConnectionProfile, fresh: Option<Uuid>) -> (outcome: Result<
        ConnectionConfig,
        ConnectError,
    >)
        ensures
            configured(outcome) == configure(profile@, fresh_id(fresh)),
    {
        ConnectionConfig::with_spare_id(profile, spare_id_from(fresh))
    }

    /// The settings that `profile` asks for. The address is resolved first.
    /// Then a profile that names no client identifier gets one made from a
    /// fresh random identifier, which is drawn for such a profile only.
    pub fn from_profile(profile: ConnectionProfile) -> (outcome: Result<
        ConnectionConfig,
        ConnectError,
    >)
        ensures
            profile@.client_id is Some ==> configured(outcome) == configure(profile@, None),
            profile@.client_id is None ==> exists|fresh: Option<Uuid>|
                {
                    &&& fresh matches Some(uuid) ==> is_random_form(uuid@)
                    &&& configured(outcome) == #[trigger] configure(profile@, fresh_id(fresh))
                },
    {
        match parse_mqtt_url(profile.url.as_str()) {
            Ok(endpoint) => {
                let fresh = if profile.client_id.is_some() {
                    None
                } else {
                    Uuid::new_v4()
                };
                let outcome = ConnectionConfig::at_endpoint(profile, endpoint, spare_id_from(fresh));
                proof {
                    assert(configured(outcome) == configure(profile@, fresh_id(fresh)));
                }
                outcome
            },
            Err(error) => {
                let outcome = Err(ConnectError::InvalidUrl(error));
                proof {
                    assert(configured(outcome) == configure(profile@, fresh_id(None)));
                }
                outcome
            },
        }
    }

    /// The warning that these settings call for: an address that asks for a
    /// secure transport gets a plain one, and that is to be said aloud.
    pub fn transport_warning(&self) -> (warning: Option<&'static str>)
        ensures
            warning is Some <==> self@.secure,
            warning matches Some(text) ==> text@
                == "TLS support not yet implemented, connecting without TLS"@,
    {
        if self.secure {
            Some("TLS support not yet implemented, connecting without TLS")
        } else {
            None
        }
    }

    /// Opens a connection with these settings: makes its handle and its
    /// event stream. The stream is made with these settings, over a plain
    /// transport, and its queue holds [`REQUEST_CAPACITY`] requests. Nothing
    /// is sent yet. Settings that the engine does not take are refused.
    pub fn open(&self) -> (opened: Result<(AsyncClient, EventLoop), ConnectError>)
        ensures
            opened is Ok <==> self@.accepted(),
            opened matches Err(error) ==> error@ == ConnectFault::EmptyClientId,
            opened matches Ok(connection) ==> opened_with(connection.1) == self@.for_engine()
                && queue_capacity(connection.1) == REQUEST_CAPACITY,
    {
        if self.client_id.as_str().unicode_len() == 0 && !self.clean_session {
            return Err(ConnectError::EmptyClientId);
        }
        let options = session_options(
            self.client_id.as_str(),
            self.host.as_str(),
            self.port,
            self.clean_session,
        );
        let options = with_keep_alive(options, self.keep_alive_secs);
        let options = match &self.credentials {
            Some((username, password)) => with_credentials(
                options,
                username.as_str(),
                password.as_str(),
            ),
            None => options,
        };
        Ok(start(options, REQUEST_CAPACITY))
    }
}

/// What opening a connection gave.
pub struct Opened {
    /// The handle of the new connection, to send its requests on.
    pub client: AsyncClient,
    /// The event stream of the new connection, for its bridge.
    pub stream: EventLoop,
    /// The handle that the slot held before, to be closed.
    pub displaced: Option<AsyncClient>,
}

impl ConnectionConfig {
    /// Opens a connection with these settings and puts its handle into the
    /// slot, which hands out the handle it held before. Where the settings
    /// are refused the slot is left as it was.
    pub fn open_into(&self, state: &mut MqttClientState<AsyncClient>) -> (opened: Result<
        Opened,
        ConnectError,
    >)
        ensures
            opened is Ok <==> self@.accepted(),
            match opened {
                Ok(opened) => {
                    &&& final(state)@ == Some(opened.client)
                    &&& opened.displaced == old(state)@
                    &&& opened_with(opened.stream) == self@.for_engine()
                    &&& queue_capacity(opened.stream) == REQUEST_CAPACITY
                },
                Err(error) => final(state)@ == old(state)@ && error@ == ConnectFault::EmptyClientId,
            },
    {
        match self.open() {
            Ok((client, stream)) => {
                let displaced = state.replace(share(&client));
                Ok(Opened { client, stream, displaced })
            },
            Err(error) => Err(error),
        }
    }
}

} // verus!
