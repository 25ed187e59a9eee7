//! The binding rules.

use vstd::prelude::*;
use vstd::string::*;

use crate::auth::is_authorized;
use crate::host::{AppSettings, ServerHost};
use crate::text::{
    decimal, decimal_notation_is_digits, digits_value, is_blank, is_white_space,
    lemma_decimal_value, push_decimal, str_seen, string_seen, trim, trimmed, trimming,
};

verus! {

/// An IPv4 address.
#[derive(Clone, Copy, Debug, PartialEq, Eq, Structural)]
pub struct Ipv4Addr {
    pub a: u8,
    pub b: u8,
    pub c: u8,
    pub d: u8,
}

/// `127.0.0.1`, which only processes on this machine can reach.
pub open spec fn localhost() -> Ipv4Addr {
    Ipv4Addr { a: 127, b: 0, c: 0, d: 1 }
}

/// `0.0.0.0`, every interface of this machine.
pub open spec fn unspecified() -> Ipv4Addr {
    Ipv4Addr { a: 0, b: 0, c: 0, d: 0 }
}

impl Ipv4Addr {
    /// `127.0.0.1`, which only processes on this machine can reach.
    pub fn localhost() -> (ip: Self)
        ensures
            ip == localhost(),
    {
        Ipv4Addr { a: 127, b: 0, c: 0, d: 1 }
    }

    /// `0.0.0.0`, every interface of this machine.
    pub fn unspecified() -> (ip: Self)
        ensures
            ip == unspecified(),
    {
        Ipv4Addr { a: 0, b: 0, c: 0, d: 0 }
    }
}

/// An address and a port.
#[derive(Clone, Copy, Debug, PartialEq, Eq, Structural)]
pub struct SocketAddr {
    pub ip: Ipv4Addr,
    pub port: u16,
}

/// An address as people write it.
pub open spec fn addr_text(addr: SocketAddr) -> Seq<char> {
    decimal(addr.ip.a as nat) + "."@ + decimal(addr.ip.b as nat) + "."@ + decimal(addr.ip.c as nat)
        + "."@ + decimal(addr.ip.d as nat) + ":"@ + decimal(addr.port as nat)
}

impl SocketAddr {
    /// The address as people write it.
    pub fn text(&self) -> (t: String)
        ensures
            t@ == addr_text(*self),
    {
        let mut t = String::new();
        push_decimal(&mut t, self.ip.a as u128);
        t.append(".");
        push_decimal(&mut t, self.ip.b as u128);
        t.append(".");
        push_decimal(&mut t, self.ip.c as u128);
        t.append(".");
        push_decimal(&mut t, self.ip.d as u128);
        t.append(":");
        push_decimal(&mut t, self.port as u128);
        t
    }
}

/// Why a configuration was refused.
#[derive(Clone, Copy, Debug, PartialEq, Eq, Structural)]
pub enum ConfigError {
    /// Port 0 names no port.
    PortZero,
    /// The network may not be let in without a token.
    LanWithoutToken,
}

/// What a refused configuration is told.
pub open spec fn config_message(e: ConfigError) -> Seq<char> {
    match e {
        ConfigError::PortZero => "server port is 0; pick a port between 1 and 65535"@,
        ConfigError::LanWithoutToken =>
            "refusing to bind 0.0.0.0 without a token: set one, or turn off LAN access"@,
    }
}

impl ConfigError {
    /// What the refusal says to the user.
    pub fn message(&self) -> (m: String)
        ensures
            m@ == config_message(*self),
    {
        match self {
            ConfigError::PortZero => "server port is 0; pick a port between 1 and 65535".to_owned(),
            ConfigError::LanWithoutToken =>
                "refusing to bind 0.0.0.0 without a token: set one, or turn off LAN access".to_owned(),
        }
    }
}

/// Resolved, validated server configuration.
#[derive(Clone, Debug)]
pub struct ServerConfig {
    pub addr: SocketAddr,
    pub token: Option<String>,
}

/// What a [`ServerConfig`] holds.
pub ghost struct ServerConfigView {
    pub addr: SocketAddr,
    pub token: Option<Seq<char>>,
}

impl View for ServerConfig {
    type V = ServerConfigView;

    open spec fn view(&self) -> ServerConfigView {
        ServerConfigView { addr: self.addr, token: string_seen(self.token) }
    }
}

/// The token that a settings field stands for: the field without white space
/// around it. A blank field is no token.
pub open spec fn usable_token(token: Option<Seq<char>>) -> Option<Seq<char>> {
    match token {
        Some(t) => if is_blank(t) {
            None
        } else {
            Some(trim(t))
        },
        None => None,
    }
}

/// The configuration that settings resolve to.
pub open spec fn resolved(port: u16, token: Option<Seq<char>>, allow_lan: bool) -> Result<
    ServerConfigView,
    ConfigError,
> {
    if port == 0 {
        Err(ConfigError::PortZero)
    } else if allow_lan && usable_token(token) is None {
        Err(ConfigError::LanWithoutToken)
    } else {
        Ok(
            ServerConfigView {
                addr: SocketAddr {
                    ip: if allow_lan {
                        unspecified()
                    } else {
                        localhost()
                    },
                    port,
                },
                token: usable_token(token),
            },
        )
    }
}

/// The configuration that the application's settings resolve to.
pub open spec fn configured(settings: AppSettings, port_override: Option<u16>) -> Result<
    ServerConfigView,
    ConfigError,
> {
    resolved(
        match port_override {
            Some(port) => port,
            None => settings.server_port,
        },
        string_seen(settings.server_token),
        settings.server_allow_lan,
    )
}

/// A configuration seen through its view.
pub open spec fn config_seen(r: Result<ServerConfig, ConfigError>) -> Result<
    ServerConfigView,
    ConfigError,
> {
    match r {
        Ok(c) => Ok(c@),
        Err(e) => Err(e),
    }
}

/// Whether a settings field holds a token.
pub fn is_usable_token(token: &str) -> (r: bool)
    ensures
        r == !is_blank(token@),
{
    proof {
        trimming(token@);
    }
    !trimmed(token).is_empty()
}

impl ServerConfig {
    /// The configuration that the application's settings resolve to as they
    /// are now, on another port if one is given.
    pub fn from_settings<H: ServerHost>(host: &H, port_override: Option<u16>) -> (r: Result<
        Self,
        ConfigError,
    >)
        ensures
            exists|settings: AppSettings| #[trigger]
                call_ensures(H::settings, (host,), settings) && config_seen(r) == configured(
                    settings,
                    port_override,
                ),
    {
        let settings = host.settings();
        assert(call_ensures(H::settings, (host,), settings));
        ServerConfig::from_app_settings(&settings, port_override)
    }

    /// The configuration that given settings resolve to, on another port if
    /// one is given.
    pub fn from_app_settings(settings: &AppSettings, port_override: Option<u16>) -> (r: Result<
        Self,
        ConfigError,
    >)
        ensures
            config_seen(r) == configured(*settings, port_override),
    {
        let port: u16 = match port_override {
            Some(port) => port,
            None => settings.server_port,
        };
        let token = match &settings.server_token {
            Some(token) => Some(token.as_str()),
            None => None,
        };
        ServerConfig::resolve(port, token, settings.server_allow_lan)
    }

    /// The binding rules.
    ///
    /// The one rule worth stating plainly: an unauthenticated listener is
    /// confined to loopback. Whoever can reach the server can spend this
    /// machine's accelerator and read back text, so opening it to the network
    /// without a token is refused rather than warned about.
    pub fn resolve(port: u16, token: Option<&str>, allow_lan: bool) -> (r: Result<
        Self,
        ConfigError,
    >)
        ensures
            config_seen(r) == resolved(port, str_seen(token), allow_lan),
    {
        if port == 0 {
            return Err(ConfigError::PortZero);
        }
        let token = match token {
            Some(t) => if is_usable_token(t) {
                Some(trimmed(t).to_owned())
            } else {
                None
            },
            None => None,
        };
        let ip = if allow_lan {
            if token.is_none() {
                return Err(ConfigError::LanWithoutToken);
            }
            Ipv4Addr::unspecified()
        } else {
            Ipv4Addr::localhost()
        };
        Ok(ServerConfig { addr: SocketAddr { ip, port }, token })
    }
}

/// A field of the settings holds a token exactly if something in it is not
/// white space, however short it is; the token is the field without white space
/// around it.
pub proof fn a_token_is_anything_but_white_space(field: Seq<char>)
    ensures
        usable_token(None) is None,
        usable_token(Some(field)) is Some <==> exists|i: int|
            0 <= i < field.len() && !is_white_space(#[trigger] field[i]),
        usable_token(Some(field)) matches Some(token) ==> token == trim(field) && token.len() > 0,
{
    trimming(field);
}

/// What settings resolve to: port 0 is refused whatever else they say, and the
/// network without a token; all else is served, on the very port, at 0.0.0.0 if
/// the network may reach it and at 127.0.0.1 if not, with the token if the
/// settings hold one.
pub proof fn settings_are_served_unless_they_may_not_be(
    port: u16,
    token: Option<Seq<char>>,
    allow_lan: bool,
)
    ensures
        ({
            let has_token = token matches Some(t) && exists|i: int|
                0 <= i < t.len() && !is_white_space(#[trigger] t[i]);
            match resolved(port, token, allow_lan) {
                Err(ConfigError::PortZero) => port == 0,
                Err(ConfigError::LanWithoutToken) => port != 0 && allow_lan && !has_token,
                Ok(config) => {
                    &&& port != 0 && (allow_lan ==> has_token)
                    &&& config.addr.port == port
                    &&& allow_lan ==> config.addr.ip == (Ipv4Addr { a: 0, b: 0, c: 0, d: 0 })
                    &&& !allow_lan ==> config.addr.ip == (Ipv4Addr { a: 127, b: 0, c: 0, d: 1 })
                    &&& has_token ==> config.token == Some(trim(token->Some_0))
                    &&& !has_token ==> config.token is None
                },
            }
        }),
{
    if let Some(t) = token {
        a_token_is_anything_but_white_space(t);
    }
}

/// The settings are resolved as they stand; another port takes the place of
/// theirs and of nothing else.
pub proof fn another_port_replaces_the_port_alone(settings: AppSettings, port: u16)
    ensures
        configured(settings, None) == resolved(
            settings.server_port,
            string_seen(settings.server_token),
            settings.server_allow_lan,
        ),
        configured(settings, Some(port)) == configured(
            AppSettings { server_port: port, ..settings },
            None,
        ),
{
}

/// An address is written with all its parts: four numbers with points between
/// them, a colon, and the port.
pub proof fn an_address_is_written_with_all_its_parts(addr: SocketAddr)
    ensures
        exists|a: Seq<char>, b: Seq<char>, c: Seq<char>, d: Seq<char>, port: Seq<char>|
            addr_text(addr) == #[trigger] (a + seq!['.'] + b + seq!['.'] + c + seq!['.'] + d + seq![
                ':',
            ] + port) && reads_as(a, addr.ip.a as nat) && reads_as(b, addr.ip.b as nat) && reads_as(
                c,
                addr.ip.c as nat,
            ) && reads_as(d, addr.ip.d as nat) && reads_as(port, addr.port as nat),
{
    reveal_strlit(".");
    reveal_strlit(":");
    assert("."@ =~= seq!['.']);
    assert(":"@ =~= seq![':']);
    lemma_reads_as(addr.ip.a as nat);
    lemma_reads_as(addr.ip.b as nat);
    lemma_reads_as(addr.ip.c as nat);
    lemma_reads_as(addr.ip.d as nat);
    lemma_reads_as(addr.port as nat);
    assert(addr_text(addr) == decimal(addr.ip.a as nat) + seq!['.'] + decimal(addr.ip.b as nat)
        + seq!['.'] + decimal(addr.ip.c as nat) + seq!['.'] + decimal(addr.ip.d as nat) + seq![':']
        + decimal(addr.port as nat));
}

/// Whether some characters are decimal digits that make a number.
pub open spec fn reads_as(text: Seq<char>, n: nat) -> bool {
    &&& text.len() > 0
    &&& forall|i: int| 0 <= i < text.len() ==> '0' <= #[trigger] text[i] <= '9'
    &&& digits_value(text) == n
}

proof fn lemma_reads_as(n: nat)
    ensures
        reads_as(decimal(n), n),
{
    decimal_notation_is_digits(n);
    lemma_decimal_value(n);
}

/// A listener that anything but this machine can reach has a token, which is
/// neither empty nor surrounded by white space, and lets nobody through who
/// does not present it.
pub proof fn a_network_listener_demands_a_token(
    port: u16,
    token: Option<Seq<char>>,
    allow_lan: bool,
    header: Option<Seq<char>>,
    query: Option<Seq<char>>,
)
    requires
        resolved(port, token, allow_lan) is Ok,
        resolved(port, token, allow_lan)->Ok_0.addr.ip != localhost(),
    ensures
        ({
            let config = resolved(port, token, allow_lan)->Ok_0;
            &&& config.addr.ip == unspecified()
            &&& config.token matches Some(t) && t.len() > 0 && trim(t) == t
            &&& is_authorized(config.token, header, query) ==> header == config.token || query
                == config.token
            &&& !is_authorized(config.token, None, None)
        }),
{
    if let Some(t) = token {
        trimming(t);
    }
}

/// On loopback a token is optional, and any port but 0 will do.
pub proof fn loopback_needs_no_token(port: u16, token: Option<Seq<char>>)
    requires
        port != 0,
    ensures
        resolved(port, token, false) matches Ok(config) && config.addr == (SocketAddr {
            ip: localhost(),
            port,
        }),
{
}

} // verus!
