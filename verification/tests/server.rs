use std::sync::Arc;

use handy_server::commands::{
    get_server_status, launch_config, server_status, set_server_settings, start_if_enabled,
};
use handy_server::config::{ConfigError, Ipv4Addr, ServerConfig, SocketAddr};
use handy_server::handle::{start, BindOutcome, ServerHandle};
use handy_server::host::{AppSettings, ModelInfo, Models, ServerHost, StreamTextEvent};

struct NoModels;

impl Models for NoModels {
    fn available(&self) -> Vec<ModelInfo> {
        Vec::new()
    }
    fn info(&self, _model_id: &str) -> Option<ModelInfo> {
        None
    }
}

struct Host {
    enabled: bool,
    port: u16,
    token: Option<String>,
    allow_lan: bool,
}

impl ServerHost for Host {
    type Catalogue = NoModels;
    fn settings(&self) -> AppSettings {
        AppSettings {
            server_enabled: self.enabled,
            server_port: self.port,
            server_token: self.token.clone(),
            server_allow_lan: self.allow_lan,
            selected_model: "base".to_string(),
            selected_language: "en".to_string(),
        }
    }
    fn models(&self) -> Arc<NoModels> {
        Arc::new(NoModels)
    }
    fn show_transcribing_overlay(&self) {}
    fn show_streaming_overlay(&self) {}
    fn hide_recording_overlay(&self) {}
    fn listen_stream_text<F: Fn(StreamTextEvent) + Send + Sync + 'static>(&self, _on: F) -> u32 {
        0
    }
    fn unlisten(&self, _id: u32) {}
}

fn host(enabled: bool, token: Option<&str>, allow_lan: bool) -> Host {
    Host { enabled, port: 8915, token: token.map(str::to_string), allow_lan }
}

fn local(port: u16) -> SocketAddr {
    SocketAddr { ip: Ipv4Addr::localhost(), port }
}

fn config(port: u16) -> ServerConfig {
    ServerConfig::resolve(port, None, false).unwrap()
}

/// Starts a server in place of any that ran.
fn launch(
    handle: &mut ServerHandle<char>,
    config: &ServerConfig,
    outcome: BindOutcome,
    shutdown: char,
) -> Result<(SocketAddr, u64), String> {
    let (_, vacancy) = handle.vacate();
    start(handle, vacancy, config, outcome, shutdown)
}

#[test]
fn a_new_handle_is_on_no_server() {
    for handle in [ServerHandle::<u8>::new(), ServerHandle::default()] {
        assert!(!handle.is_running());
        assert_eq!(handle.bound_addr(), None);
    }
}

#[test]
fn success_is_a_port_that_accepts_connections() {
    let mut handle = ServerHandle::new();
    let (addr, _) =
        launch(&mut handle, &config(8915), BindOutcome::Bound(local(8915)), 'a').unwrap();
    assert_eq!(addr, local(8915));
    assert!(handle.is_running());
    assert_eq!(handle.bound_addr(), Some(local(8915)));
}

#[test]
fn a_failed_bind_is_an_error_and_no_server() {
    let mut handle = ServerHandle::new();
    let why = "Address already in use (os error 98)".to_string();
    assert_eq!(
        launch(&mut handle, &config(8915), BindOutcome::Refused(why), 'a').unwrap_err(),
        "could not bind 127.0.0.1:8915: Address already in use (os error 98) (is another Handy or service already on that port?)"
    );
    assert!(!handle.is_running());
    assert_eq!(handle.bound_addr(), None);
    assert_eq!(
        launch(&mut handle, &config(8915), BindOutcome::Unnamed("gone".to_string()), 'b').unwrap_err(),
        "gone"
    );
    assert!(!handle.is_running());
    assert_eq!(handle.stop(), None);
}

#[test]
fn stopping_gives_the_signal_once() {
    let mut handle = ServerHandle::new();
    assert_eq!(handle.stop(), None);
    launch(&mut handle, &config(1), BindOutcome::Bound(local(1)), 'a').unwrap();
    assert_eq!(handle.stop(), Some('a'));
    assert!(!handle.is_running());
    assert_eq!(handle.bound_addr(), None);
    assert_eq!(handle.stop(), None);
}

#[test]
fn a_server_that_ends_by_itself_is_noted() {
    let mut handle = ServerHandle::new();
    let (_, generation) =
        launch(&mut handle, &config(1), BindOutcome::Bound(local(1)), 'a').unwrap();
    handle.served(generation);
    assert!(!handle.is_running());
    assert_eq!(handle.bound_addr(), None);
}

#[test]
fn the_end_of_a_replaced_server_changes_nothing() {
    let mut handle = ServerHandle::new();
    let (_, first) = launch(&mut handle, &config(1), BindOutcome::Bound(local(1)), 'a').unwrap();
    assert_eq!(handle.stop(), Some('a'));
    let (_, second) = launch(&mut handle, &config(2), BindOutcome::Bound(local(2)), 'b').unwrap();
    assert!(second > first);
    handle.served(first);
    assert!(handle.is_running());
    assert_eq!(handle.bound_addr(), Some(local(2)));
    let (_, third) = launch(&mut handle, &config(3), BindOutcome::Bound(local(3)), 'c').unwrap();
    handle.served(second);
    handle.served(first);
    assert!(handle.is_running());
    assert_eq!(handle.bound_addr(), Some(local(3)));
    handle.served(third);
    assert!(!handle.is_running());
    assert_eq!(handle.bound_addr(), None);
}

#[test]
fn a_running_server_is_stopped_before_its_successor_is_bound() {
    let mut handle = ServerHandle::new();
    launch(&mut handle, &config(1), BindOutcome::Bound(local(1)), 'a').unwrap();
    let (signal, vacancy) = handle.vacate();
    assert_eq!(signal, Some('a'));
    assert!(!handle.is_running());
    let refused = BindOutcome::Refused("in use".to_string());
    assert!(start(&mut handle, vacancy, &config(2), refused, 'b').is_err());
    assert!(!handle.is_running());
    assert_eq!(handle.bound_addr(), None);
    // A start that fails leaves a server alone that was started meanwhile.
    let (_, vacancy) = handle.vacate();
    launch(&mut handle, &config(3), BindOutcome::Bound(local(3)), 'c').unwrap();
    let unnamed = BindOutcome::Unnamed("gone".to_string());
    assert!(start(&mut handle, vacancy, &config(2), unnamed, 'd').is_err());
    assert_eq!(handle.bound_addr(), Some(local(3)));
    assert_eq!(handle.stop(), Some('c'));
}

#[test]
fn a_configuration_can_be_cloned() {
    let config = ServerConfig::resolve(8915, Some("token"), true).unwrap();
    let copy = config.clone();
    assert_eq!(copy.addr, config.addr);
    assert_eq!(copy.token, config.token);
}

#[test]
fn the_status_shows_what_is_true() {
    let mut handle = ServerHandle::new();
    // The setting and the socket differ.
    launch(&mut handle, &config(8915), BindOutcome::Bound(local(9000)), 'a').unwrap();
    let status = get_server_status(&host(true, Some(" x "), false), &handle);
    assert!(status.enabled);
    assert!(status.running);
    assert_eq!(status.address.as_deref(), Some("127.0.0.1:9000"));
    assert_eq!(status.port, 8915);
    assert!(status.has_token);
    assert!(!status.allow_lan);

    let status = server_status(&host(false, Some(" \t"), true).settings(), &ServerHandle::<u8>::new());
    assert!(!status.enabled);
    assert!(!status.running);
    assert_eq!(status.address, None);
    assert!(!status.has_token);
    assert!(status.allow_lan);
    assert!(!server_status(&host(true, None, false).settings(), &handle).has_token);
}

#[test]
fn enabling_writes_the_settings_and_replaces_the_server() {
    let mut handle = ServerHandle::new();
    launch(&mut handle, &config(8915), BindOutcome::Bound(local(8915)), 'a').unwrap();
    let update = set_server_settings(
        &mut handle,
        host(false, None, false).settings(),
        true,
        9000,
        Some(" tok ".to_string()),
        true,
    );
    assert_eq!(update.shutdown, Some('a'));
    assert!(!handle.is_running());
    assert!(update.settings.server_enabled);
    assert_eq!(update.settings.server_port, 9000);
    assert_eq!(update.settings.server_token.as_deref(), Some(" tok "));
    assert!(update.settings.server_allow_lan);
    assert_eq!(update.settings.selected_model, "base");
    assert_eq!(update.settings.selected_language, "en");
    let next = update.next.unwrap().unwrap();
    assert_eq!(next.addr.text(), "0.0.0.0:9000");
    assert_eq!(next.token.as_deref(), Some("tok"));
    launch(&mut handle, &next, BindOutcome::Bound(next.addr), 'b').unwrap();
    let status = server_status(&update.settings, &handle);
    assert!(status.running);
    assert_eq!(status.address.as_deref(), Some("0.0.0.0:9000"));
}

#[test]
fn disabling_stops_the_server() {
    let mut handle = ServerHandle::new();
    launch(&mut handle, &config(8915), BindOutcome::Bound(local(8915)), 'a').unwrap();
    let update =
        set_server_settings(&mut handle, host(true, None, false).settings(), false, 0, None, true);
    assert_eq!(update.shutdown, Some('a'));
    assert!(update.next.unwrap().is_none());
    assert!(!handle.is_running());
    assert!(!update.settings.server_enabled);
}

#[test]
fn an_error_leaves_the_settings_written_but_the_server_down() {
    let mut handle = ServerHandle::new();
    launch(&mut handle, &config(8915), BindOutcome::Bound(local(8915)), 'a').unwrap();
    let update = set_server_settings(
        &mut handle,
        host(true, None, false).settings(),
        true,
        8915,
        Some("  ".to_string()),
        true,
    );
    assert_eq!(update.next.unwrap_err(), ConfigError::LanWithoutToken);
    assert_eq!(update.settings.server_token, None);
    assert!(update.settings.server_allow_lan);
    assert_eq!(update.shutdown, Some('a'));
    let status = server_status(&update.settings, &handle);
    assert!(status.enabled);
    assert!(!status.running);
    assert_eq!(status.address, None);
}

#[test]
fn a_launch_serves_only_if_enabled() {
    assert!(start_if_enabled(&host(false, None, true)).unwrap().is_none());
    let launched = start_if_enabled(&host(true, None, false)).unwrap().unwrap();
    assert_eq!(launched.addr, local(8915));
    assert_eq!(
        start_if_enabled(&host(true, None, true)).unwrap_err(),
        ConfigError::LanWithoutToken
    );
    let broken = Host { enabled: true, port: 0, token: None, allow_lan: false };
    assert_eq!(launch_config(&broken.settings()).unwrap_err(), ConfigError::PortZero);
}
