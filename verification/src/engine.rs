//! The protocol engine, `rumqttc`, as far as the library calls it.
//!
//! Everything in this file is taken on trust: the types are opaque, what
//! they hold is named and not defined, and the contracts of the functions are
//! read off the engine's source, not proved.

use rumqttc::{AsyncClient, EventLoop, MqttOptions};
use std::time::Duration;
use vstd::prelude::*;

verus! {

/// `rumqttc::MqttOptions`, the engine's settings of one connection.
#[verifier::external_type_specification]
#[verifier::external_body]
pub struct ExMqttOptions(MqttOptions);

/// `rumqttc::AsyncClient`, the handle of a connection: it sends requests to
/// the connection's event loop.
#[verifier::external_type_specification]
#[verifier::external_body]
pub struct ExAsyncClient(AsyncClient);

/// `rumqttc::EventLoop`, the event stream of a connection.
#[verifier::external_type_specification]
#[verifier::external_body]
pub struct ExEventLoop(EventLoop);

/// What the engine's settings say of a connection, as far as the library
/// sets them.
pub struct EngineSettings {
    pub client_id: Seq<char>,
    pub host: Seq<char>,
    pub port: u16,
    /// The keep-alive interval, in whole seconds.
    pub keep_alive_secs: u64,
    pub clean_session: bool,
    /// User name and password.
    pub credentials: Option<(Seq<char>, Seq<char>)>,
    /// Whether the transport is plain TCP.
    pub plain_transport: bool,
}

/// What the settings `options` hold: what `MqttOptions::client_id`,
/// `broker_address`, `keep_alive`, `clean_session`, `credentials` and
/// `transport` read out of them.
pub uninterp spec fn options_held(options: MqttOptions) -> EngineSettings;

/// The settings that the event stream `stream` was made with and keeps in
/// its field `mqtt_options`.
pub uninterp spec fn opened_with(stream: EventLoop) -> EngineSettings;

/// How many requests the queue of the event stream `stream` was made to hold.
pub uninterp spec fn queue_capacity(stream: EventLoop) -> usize;

/// Makes the engine's settings for a session with `MqttOptions::new`, from
/// the client identifier, host and port, and says with `set_clean_session`
/// whether the broker is to drop the earlier session.
///
/// `MqttOptions::new` takes every text, keeps the three as they are, and
/// sets a keep-alive interval of 60 seconds, no credentials and a plain TCP
/// transport. `set_clean_session` panics where the session is to be kept and
/// the client identifier, which it reads out of the settings, is empty; the
/// contract leaves that case out. Else it sets the flag and nothing besides.
#[verifier::external_body]
pub(crate) fn session_options(client_id: &str, host: &str, port: u16, clean_session: bool) -> (options:
    MqttOptions)
    requires
        client_id@.len() > 0 || clean_session,
    ensures
        options_held(options) == (EngineSettings {
            client_id: client_id@,
            host: host@,
            port,
            keep_alive_secs: 60,
            clean_session,
            credentials: None,
            plain_transport: true,
        }),
{
    let mut options = MqttOptions::new(client_id, host, port);
    options.set_clean_session(clean_session);
    options
}

/// Sets the keep-alive interval of the engine's settings with
/// `MqttOptions::set_keep_alive`, which sets that interval and nothing
/// besides. It panics on a span between zero and one second, which a whole
/// number of seconds never is.
#[verifier::external_body]
pub(crate) fn with_keep_alive(options: MqttOptions, seconds: u64) -> (extended: MqttOptions)
    ensures
        options_held(extended) == (EngineSettings {
            keep_alive_secs: seconds,
            ..options_held(options)
        }),
{
    let mut extended = options;
    extended.set_keep_alive(Duration::from_secs(seconds));
    extended
}

/// Adds a user name and a password to the engine's settings with
/// `MqttOptions::set_credentials`, which accepts every pair, keeps both texts
/// as they are and sets nothing besides.
#[verifier::external_body]
pub(crate) fn with_credentials(options: MqttOptions, username: &str, password: &str) -> (extended:
    MqttOptions)
    ensures
        options_held(extended) == (EngineSettings {
            credentials: Some((username@, password@)),
            ..options_held(options)
        }),
{
    let mut extended = options;
    extended.set_credentials(username, password);
    extended
}

/// Makes a connection's handle and event stream with `AsyncClient::new`,
/// which builds both around a request queue of the given capacity and
/// touches no network. The event stream keeps the settings it is given.
/// Nothing is claimed of the handle.
#[verifier::external_body]
pub(crate) fn start(options: MqttOptions, capacity: usize) -> (connection: (AsyncClient, EventLoop))
    ensures
        opened_with(connection.1) == options_held(options),
        queue_capacity(connection.1) == capacity,
{
    AsyncClient::new(options, capacity)
}

/// Makes a second handle of a connection with `AsyncClient::clone`. A
/// handle is the sending end of the connection's request queue and nothing
/// else, and the clone is a sending end of the same queue: the two are told
/// apart by nothing.
#[verifier::external_body]
pub(crate) fn share(client: &AsyncClient) -> (shared: AsyncClient)
    ensures
        shared == *client,
{
    client.clone()
}

} // verus!
