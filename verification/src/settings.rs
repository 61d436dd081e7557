use vstd::prelude::*;

verus! {

/// The proxies of a configuration file.
pub struct Config {
    pub proxies: Vec<Proxy>,
}

/// A proxy of a configuration file.
pub struct Proxy {
    pub name: String,
    /// Written `type` in the file.
    pub proxy_type: String,
    pub server: String,
    pub port: u16,
    pub cipher: String,
    pub password: String,
    pub plugin: String,
    /// The plugin's options, each key once; written `plugin-opts` in the file.
    pub plugin_opts: Vec<(String, String)>,
}

/// The configuration of the transparent proxy server: the address it listens on.
pub struct RedirServerConfig {
    pub bind: String,
}

} // verus!
