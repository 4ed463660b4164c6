use vstd::prelude::*;

verus! {

/// The ports the proxy listens on.
#[derive(Debug, Clone, Copy, PartialEq, Eq, Structural)]
pub struct Config {
    pub web_server_port: u16,
    pub enet_server_port: u16,
}

/// The port of the web endpoint when none is configured.
pub const DEFAULT_WEB_SERVER_PORT: u16 = 443;

/// The port of the local listener when none is configured.
pub const DEFAULT_ENET_SERVER_PORT: u16 = 17111;

impl Default for Config {
    fn default() -> (r: Config)
        ensures
            r.web_server_port == DEFAULT_WEB_SERVER_PORT,
            r.enet_server_port == DEFAULT_ENET_SERVER_PORT,
    {
        Config { web_server_port: DEFAULT_WEB_SERVER_PORT, enet_server_port: DEFAULT_ENET_SERVER_PORT }
    }
}

/// The port of the web endpoint.
pub fn get_web_server_port(config: &Config) -> (r: u16)
    ensures
        r == config.web_server_port,
{
    config.web_server_port
}

/// The port of the local listener.
pub fn get_enet_server_port(config: &Config) -> (r: u16)
    ensures
        r == config.enet_server_port,
{
    config.enet_server_port
}

/// Sets the port of the web endpoint.
pub fn set_web_server_port(config: &mut Config, port: u16)
    ensures
        *final(config) == (Config { web_server_port: port, ..*old(config) }),
{
    config.web_server_port = port;
}

/// Sets the port of the local listener.
pub fn set_enet_server_port(config: &mut Config, port: u16)
    ensures
        *final(config) == (Config { enet_server_port: port, ..*old(config) }),
{
    config.enet_server_port = port;
}

} // verus!
