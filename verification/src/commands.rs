//! What the settings page does with the server.
//!
//! The settings are written on the same transition that starts or stops the
//! server, or the switch and the socket would disagree until the next launch.

use vstd::prelude::*;
use vstd::string::*;

use crate::config::{
    a_token_is_anything_but_white_space, addr_text, configured, is_usable_token, resolved, usable_token, ConfigError, ServerConfig,
    ServerConfigView,
};
use crate::handle::{after_start, after_stop, BindOutcome, ServerHandle, ServerHandleView};
use crate::host::{AppSettings, ServerHost};
use crate::text::{is_blank, is_white_space, string_seen};

verus! {

/// What the settings page shows of the server.
#[derive(Debug)]
pub struct ServerStatus {
    pub enabled: bool,
    pub running: bool,
    /// The address actually bound, while the server runs. Not derived from the
    /// settings: with a port collision the setting and the socket differ, and
    /// the page should show what is true.
    pub address: Option<String>,
    pub port: u16,
    pub has_token: bool,
    pub allow_lan: bool,
}

/// What a [`ServerStatus`] says.
pub ghost struct ServerStatusView {
    pub enabled: bool,
    pub running: bool,
    pub address: Option<Seq<char>>,
    pub port: u16,
    pub has_token: bool,
    pub allow_lan: bool,
}

impl View for ServerStatus {
    type V = ServerStatusView;

    open spec fn view(&self) -> ServerStatusView {
        ServerStatusView {
            enabled: self.enabled,
            running: self.running,
            address: string_seen(self.address),
            port: self.port,
            has_token: self.has_token,
            allow_lan: self.allow_lan,
        }
    }
}

/// The status of the server under some settings.
pub open spec fn status_of<S>(
    settings: AppSettings,
    handle: ServerHandleView<S>,
) -> ServerStatusView {
    ServerStatusView {
        enabled: settings.server_enabled,
        running: handle.running,
        address: match handle.addr {
            Some(addr) => Some(addr_text(addr)),
            None => None,
        },
        port: settings.server_port,
        has_token: usable_token(string_seen(settings.server_token)) is Some,
        allow_lan: settings.server_allow_lan,
    }
}

fn has_token(token: &Option<String>) -> (r: bool)
    ensures
        r == (usable_token(string_seen(*token)) is Some),
{
    match token {
        Some(t) => is_usable_token(t.as_str()),
        None => false,
    }
}

/// The status of the server under given settings.
pub fn server_status<S>(settings: &AppSettings, handle: &ServerHandle<S>) -> (r: ServerStatus)
    ensures
        r@ == status_of(*settings, handle@),
{
    let address = match handle.bound_addr() {
        Some(addr) => Some(addr.text()),
        None => None,
    };
    ServerStatus {
        enabled: settings.server_enabled,
        running: handle.is_running(),
        address,
        port: settings.server_port,
        has_token: has_token(&settings.server_token),
        allow_lan: settings.server_allow_lan,
    }
}

/// The status of the server under the settings as they are now.
pub fn get_server_status<H: ServerHost, S>(host: &H, handle: &ServerHandle<S>) -> (r: ServerStatus)
    ensures
        exists|settings: AppSettings| #[trigger]
            call_ensures(H::settings, (host,), settings) && r@ == status_of(settings, handle@),
{
    let settings = host.settings();
    assert(call_ensures(H::settings, (host,), settings));
    server_status(&settings, handle)
}

/// The token field as it is stored: a blank one is not.
pub open spec fn stored_token(token: Option<String>) -> Option<String> {
    match token {
        Some(t) => if is_blank(t@) {
            None
        } else {
            Some(t)
        },
        None => None,
    }
}

/// The settings with the server's part replaced.
pub open spec fn with_server(
    settings: AppSettings,
    enabled: bool,
    port: u16,
    token: Option<String>,
    allow_lan: bool,
) -> AppSettings {
    AppSettings {
        server_enabled: enabled,
        server_port: port,
        server_token: stored_token(token),
        server_allow_lan: allow_lan,
        selected_model: settings.selected_model,
        selected_language: settings.selected_language,
    }
}

/// What new server settings lead to.
pub struct ServerUpdate<S> {
    /// The settings to write.
    pub settings: AppSettings,
    /// The signal that shuts down the server that ran before.
    pub shutdown: Option<S>,
    /// The configuration to bind next, none if the server is to stay down, or
    /// why the settings cannot be served.
    pub next: Result<Option<ServerConfig>, ConfigError>,
}

/// What to bind under some settings: nothing if the server is disabled.
pub open spec fn next_of(settings: AppSettings) -> Result<Option<ServerConfigView>, ConfigError> {
    if !settings.server_enabled {
        Ok(None)
    } else {
        match configured(settings, None) {
            Ok(config) => Ok(Some(config)),
            Err(e) => Err(e),
        }
    }
}

/// What to bind next, seen through its view.
pub open spec fn next_seen(next: Result<Option<ServerConfig>, ConfigError>) -> Result<
    Option<ServerConfigView>,
    ConfigError,
> {
    match next {
        Ok(Some(config)) => Ok(Some(config@)),
        Ok(None) => Ok(None),
        Err(e) => Err(e),
    }
}

/// Takes new server settings and brings the server into line with them.
///
/// Whatever ran before is stopped: for good if the server is disabled, to make
/// room for its successor if it is enabled, and also if the new settings are
/// refused, so that an error leaves the settings written but the server down.
pub fn set_server_settings<S>(
    handle: &mut ServerHandle<S>,
    settings: AppSettings,
    enabled: bool,
    port: u16,
    token: Option<String>,
    allow_lan: bool,
) -> (r: ServerUpdate<S>)
    ensures
        r.settings == with_server(settings, enabled, port, token, allow_lan),
        (final(handle)@, r.shutdown) == after_stop(old(handle)@),
        next_seen(r.next) == next_of(r.settings),
{
    let kept = match token {
        Some(t) => if is_usable_token(t.as_str()) {
            Some(t)
        } else {
            None
        },
        None => None,
    };
    let settings = AppSettings {
        server_enabled: enabled,
        server_port: port,
        server_token: kept,
        server_allow_lan: allow_lan,
        selected_model: settings.selected_model,
        selected_language: settings.selected_language,
    };
    let shutdown = handle.stop();
    let next = launch_config(&settings);
    ServerUpdate { settings, shutdown, next }
}

/// The configuration to bind when the application starts under given
/// settings: none unless the server is enabled.
pub fn launch_config(settings: &AppSettings) -> (r: Result<Option<ServerConfig>, ConfigError>)
    ensures
        next_seen(r) == next_of(*settings),
{
    if !settings.server_enabled {
        return Ok(None);
    }
    match ServerConfig::from_app_settings(settings, None) {
        Ok(config) => Ok(Some(config)),
        Err(e) => Err(e),
    }
}

/// The configuration to bind when the application starts, under the settings
/// as they are now.
pub fn start_if_enabled<H: ServerHost>(host: &H) -> (r: Result<Option<ServerConfig>, ConfigError>)
    ensures
        exists|settings: AppSettings| #[trigger]
            call_ensures(H::settings, (host,), settings) && next_seen(r) == next_of(settings),
{
    let settings = host.settings();
    assert(call_ensures(H::settings, (host,), settings));
    launch_config(&settings)
}

/// Once new settings are taken, the status reports what came of them: an
/// address that is bound, or settings that are written and a server that is
/// down, whether it is disabled, the settings were refused or the bind failed.
pub proof fn an_update_is_reported<S>(
    before: ServerHandleView<S>,
    settings: AppSettings,
    enabled: bool,
    port: u16,
    token: Option<String>,
    allow_lan: bool,
    outcome: BindOutcome,
    shutdown: S,
)
    ensures
        ({
            let written = with_server(settings, enabled, port, token, allow_lan);
            let (handle, _) = after_stop(before);
            let down = ServerStatusView {
                enabled,
                running: false,
                address: None,
                port,
                has_token: usable_token(string_seen(token)) is Some,
                allow_lan,
            };
            &&& status_of(written, handle) == down
            &&& status_of(
                written,
                after_start(after_stop(handle).0, handle.generation, outcome, shutdown),
            ) == (match outcome {
                BindOutcome::Bound(addr) => ServerStatusView {
                    running: true,
                    address: Some(addr_text(addr)),
                    ..down
                },
                _ => down,
            })
        }),
{
}

/// The status shows the settings as they are written and the server as it is:
/// there is a token if something in its field is not white space, and the
/// address is that of the socket.
pub proof fn a_status_shows_settings_and_server_as_they_are<S>(
    settings: AppSettings,
    handle: ServerHandleView<S>,
)
    ensures
        ({
            let status = status_of(settings, handle);
            &&& status.enabled == settings.server_enabled
            &&& status.port == settings.server_port
            &&& status.allow_lan == settings.server_allow_lan
            &&& status.running == handle.running
            &&& handle.addr is None ==> status.address is None
            &&& handle.addr matches Some(addr) ==> status.address == Some(addr_text(addr))
            &&& status.has_token <==> (string_seen(settings.server_token) matches Some(t)
                && exists|i: int| 0 <= i < t.len() && !is_white_space(#[trigger] t[i]))
        }),
{
    if let Some(t) = string_seen(settings.server_token) {
        a_token_is_anything_but_white_space(t);
    }
}

/// New settings are written as they were given, the token to the letter unless
/// it is all white space, and nothing else in them changes. A server that is
/// not enabled is not served; one that is, is served under just these settings.
pub proof fn settings_are_written_as_they_were_given(
    settings: AppSettings,
    enabled: bool,
    port: u16,
    token: Option<String>,
    allow_lan: bool,
)
    ensures
        ({
            let written = with_server(settings, enabled, port, token, allow_lan);
            let blank = token matches Some(t) && forall|i: int|
                0 <= i < t@.len() ==> is_white_space(#[trigger] t@[i]);
            &&& written.server_enabled == enabled && written.server_port == port
            &&& written.server_allow_lan == allow_lan
            &&& blank ==> written.server_token is None
            &&& !blank ==> written.server_token == token
            &&& written.selected_model == settings.selected_model
            &&& written.selected_language == settings.selected_language
            &&& !enabled ==> next_of(written) == Ok::<Option<ServerConfigView>, ConfigError>(None)
            &&& enabled ==> match resolved(port, string_seen(token), allow_lan) {
                Ok(config) => next_of(written) == Ok::<Option<ServerConfigView>, ConfigError>(
                    Some(config),
                ),
                Err(e) => next_of(written) == Err::<Option<ServerConfigView>, ConfigError>(e),
            }
        }),
{
}

/// Storing a token changes nothing about what it resolves to.
pub proof fn a_stored_token_is_the_token(
    settings: AppSettings,
    enabled: bool,
    port: u16,
    token: Option<String>,
    allow_lan: bool,
)
    ensures
        configured(with_server(settings, enabled, port, token, allow_lan), None)
            == resolved(port, string_seen(token), allow_lan),
{
}

} // verus!
