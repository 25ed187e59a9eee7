use std::sync::Arc;

use handy_server::config::{ConfigError, Ipv4Addr, ServerConfig, SocketAddr};
use handy_server::host::{AppSettings, ModelInfo, Models, ServerHost, StreamTextEvent};

#[test]
fn loopback_without_a_token_is_allowed() {
    let c = ServerConfig::resolve(8915, None, false).unwrap();
    assert_eq!(c.addr.ip, Ipv4Addr::localhost());
    assert!(c.token.is_none());
}

#[test]
fn lan_without_a_token_is_refused() {
    let err = ServerConfig::resolve(8915, None, true).unwrap_err().message();
    assert!(err.contains("without a token"), "got: {err}");
}

#[test]
fn a_blank_token_does_not_count_as_a_token() {
    // A settings field holding only whitespace must not be mistaken for a
    // credential: that would silently open 0.0.0.0 with no auth.
    assert!(ServerConfig::resolve(8915, Some("   "), true).is_err());
    let c = ServerConfig::resolve(8915, Some("  \t "), false).unwrap();
    assert!(c.token.is_none());
}

#[test]
fn lan_with_a_token_binds_all_interfaces() {
    let c = ServerConfig::resolve(8915, Some("swordfish"), true).unwrap();
    assert_eq!(c.addr.ip, Ipv4Addr::unspecified());
    assert_eq!(c.token.as_deref(), Some("swordfish"));
}

#[test]
fn a_token_is_trimmed_before_use() {
    let c = ServerConfig::resolve(8915, Some(" swordfish "), false).unwrap();
    assert_eq!(c.token.as_deref(), Some("swordfish"));
}

#[test]
fn port_zero_is_refused() {
    assert!(ServerConfig::resolve(0, None, false).is_err());
}

#[test]
fn refusals_say_what_to_do() {
    assert_eq!(
        ServerConfig::resolve(0, None, true).unwrap_err(),
        ConfigError::PortZero
    );
    assert_eq!(
        ConfigError::PortZero.message(),
        "server port is 0; pick a port between 1 and 65535"
    );
    assert_eq!(
        ConfigError::LanWithoutToken.message(),
        "refusing to bind 0.0.0.0 without a token: set one, or turn off LAN access"
    );
}

#[test]
fn every_kind_of_white_space_is_trimmed() {
    // Every character that std counts as white space is trimmed, and no other.
    for code in 0..0x11_0000u32 {
        if let Some(c) = char::from_u32(code) {
            let field = format!("{c}x{c}");
            let token = ServerConfig::resolve(1, Some(&field), false).unwrap().token.unwrap();
            let white = matches!(
                code,
                0x9..=0xd
                    | 0x20
                    | 0x85
                    | 0xa0
                    | 0x1680
                    | 0x2000..=0x200a
                    | 0x2028
                    | 0x2029
                    | 0x202f
                    | 0x205f
                    | 0x3000
            );
            if white {
                assert_eq!(token, "x");
            } else {
                assert_eq!(token, field);
            }
        }
    }
}

#[test]
fn an_address_is_written_in_full() {
    let addr = SocketAddr { ip: Ipv4Addr { a: 192, b: 168, c: 0, d: 10 }, port: 65535 };
    assert_eq!(addr.text(), "192.168.0.10:65535");
    let c = ServerConfig::resolve(80, None, false).unwrap();
    assert_eq!(c.addr.text(), "127.0.0.1:80");
}

struct NoModels;

impl Models for NoModels {
    fn available(&self) -> Vec<ModelInfo> {
        Vec::new()
    }
    fn info(&self, _model_id: &str) -> Option<ModelInfo> {
        None
    }
}

struct Host;

impl ServerHost for Host {
    type Catalogue = NoModels;
    fn settings(&self) -> AppSettings {
        AppSettings {
            server_enabled: true,
            server_port: 8915,
            server_token: Some(" token ".to_string()),
            server_allow_lan: true,
            selected_model: String::new(),
            selected_language: String::new(),
        }
    }
    fn models(&self) -> Arc<NoModels> {
        Arc::new(NoModels)
    }
    fn show_transcribing_overlay(&self) {}
    fn show_streaming_overlay(&self) {}
    fn hide_recording_overlay(&self) {}
    fn listen_stream_text<F: Fn(StreamTextEvent) + Send + Sync + 'static>(&self, _on: F) -> u32 {
        0
    }
    fn unlisten(&self, _id: u32) {}
}

#[test]
fn the_settings_are_resolved_on_their_port_or_another() {
    let c = ServerConfig::from_settings(&Host, None).unwrap();
    assert_eq!(c.addr.text(), "0.0.0.0:8915");
    assert_eq!(c.token.as_deref(), Some("token"));
    let c = ServerConfig::from_settings(&Host, Some(9000)).unwrap();
    assert_eq!(c.addr.text(), "0.0.0.0:9000");
    assert_eq!(
        ServerConfig::from_settings(&Host, Some(0)).unwrap_err(),
        ConfigError::PortZero
    );
}
