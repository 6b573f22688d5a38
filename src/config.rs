use vstd::prelude::*;
use crate::types::{network_named, Network};

verus! {

/// The configuration of a node.
#[derive(Debug, Clone)]
pub struct Config {
    /// The path where the node persists its data.
    pub storage_dir_path: String,
    /// The URL of the utilized Esplora server.
    pub esplora_server_url: String,
    /// The used Bitcoin network.
    pub network: Network,
    /// The IP address and TCP port the node will listen on; none disables listening.
    pub listening_address: Option<String>,
    /// The default CLTV expiry delta to be used for payments.
    pub default_cltv_expiry_delta: u32,
}

/// The default CLTV expiry delta.
pub const DEFAULT_CLTV_EXPIRY_DELTA: u32 = 144;

impl Default for Config {
    /// The configuration a node has unless told otherwise: data under `/tmp/ldk_node/`, an
    /// Esplora server at `http://localhost:3002`, regtest, listening on `0.0.0.0:9735`, and a
    /// CLTV expiry delta of 144.
    fn default() -> (r: Config)
        ensures
            r.storage_dir_path@ == "/tmp/ldk_node/"@,
            r.esplora_server_url@ == "http://localhost:3002"@,
            r.network == Network::Regtest,
            r.listening_address is Some,
            r.listening_address->Some_0@ == "0.0.0.0:9735"@,
            r.default_cltv_expiry_delta == 144,
    {
        Config {
            storage_dir_path: String::from_str("/tmp/ldk_node/"),
            esplora_server_url: String::from_str("http://localhost:3002"),
            network: Network::default_network(),
            listening_address: Some(String::from_str("0.0.0.0:9735")),
            default_cltv_expiry_delta: DEFAULT_CLTV_EXPIRY_DELTA,
        }
    }
}

/// A builder for a node, which sets its configuration before it is built.
#[derive(Debug, Clone)]
pub struct Builder {
    config: Config,
}

impl Builder {
    /// The configuration that the builder holds.
    pub closed spec fn spec_config(&self) -> Config {
        self.config
    }

    /// Creates a new builder instance with the default configuration.
    pub fn new() -> (r: Builder)
        ensures
            r.spec_config().storage_dir_path@ == "/tmp/ldk_node/"@,
            r.spec_config().esplora_server_url@ == "http://localhost:3002"@,
            r.spec_config().network == Network::Regtest,
            r.spec_config().listening_address is Some,
            r.spec_config().listening_address->Some_0@ == "0.0.0.0:9735"@,
            r.spec_config().default_cltv_expiry_delta == 144,
    {
        let config = Config::default();
        Builder { config }
    }

    /// Creates a new builder instance from a configuration.
    pub fn from_config(config: Config) -> (r: Builder)
        ensures
            r.spec_config() == config,
    {
        Builder { config }
    }

    /// The configuration that the builder holds.
    pub fn config(&self) -> (r: &Config)
        ensures
            *r == self.spec_config(),
    {
        &self.config
    }

    /// Sets the used storage directory path.
    pub fn set_storage_dir_path(&mut self, storage_dir_path: String) -> (r: &mut Builder)
        ensures
            r.spec_config() == (Config {
                storage_dir_path,
                ..old(self).spec_config()
            }),
            *final(self) == *final(r),
    {
        self.config.storage_dir_path = storage_dir_path;
        self
    }

    /// Sets the Esplora server URL.
    pub fn set_esplora_server_url(&mut self, esplora_server_url: String) -> (r: &mut Builder)
        ensures
            r.spec_config() == (Config {
                esplora_server_url,
                ..old(self).spec_config()
            }),
            *final(self) == *final(r),
    {
        self.config.esplora_server_url = esplora_server_url;
        self
    }

    /// Sets the Bitcoin network used, by name: `mainnet` or `bitcoin`, `testnet`, `regtest`,
    /// `signet`. Any other name selects the default network, regtest.
    pub fn set_network(&mut self, network: &str) -> (r: &mut Builder)
        ensures
            r.spec_config() == (Config {
                network: match network_named(network@) {
                    Some(n) => n,
                    None => Network::Regtest,
                },
                ..old(self).spec_config()
            }),
            *final(self) == *final(r),
    {
        let n = match Network::from_name(network) {
            Ok(n) => n,
            Err(_) => Network::default_network(),
        };
        self.config.network = n;
        self
    }

    /// Sets the IP address and TCP port on which the node will listen for incoming network
    /// connections, written `ADDR:PORT`.
    pub fn set_listening_address(&mut self, listening_address: String) -> (r: &mut Builder)
        ensures
            r.spec_config() == (Config {
                listening_address: Some(listening_address),
                ..old(self).spec_config()
            }),
            *final(self) == *final(r),
    {
        self.config.listening_address = Some(listening_address);
        self
    }
}

} // verus!
