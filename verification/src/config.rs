//! Connection configuration for the gateway client.

use vstd::prelude::*;
use vstd::string::StringExecFns;

verus! {

/// Configuration for connecting to the gateway.
#[derive(Debug, Clone)]
pub struct FutuConfig {
    /// Gateway host (default: "127.0.0.1").
    pub host: String,
    /// Gateway port (default: 11111).
    pub port: u16,
    /// Client id advertised in the handshake.
    pub client_id: String,
    /// Client version advertised in the handshake.
    pub client_ver: i32,
    /// Path to an RSA private key file (reserved; unused by the ECB mode).
    pub rsa_key_path: Option<String>,
    /// Ask the gateway for AES encryption in the handshake.
    pub enable_encryption: bool,
    /// Reconnect on disconnect.
    pub reconnect: bool,
    /// Reconnect interval in seconds.
    pub reconnect_interval_secs: u64,
}

impl Default for FutuConfig {
    fn default() -> (r: FutuConfig)
        ensures
            r.host@ == "127.0.0.1"@,
            r.port == 11111,
            r.client_id@ == "nautilus_futu"@,
            r.client_ver == 100,
            r.rsa_key_path is None,
            !r.enable_encryption,
            r.reconnect,
            r.reconnect_interval_secs == 5,
    {
        FutuConfig {
            host: String::from_str("127.0.0.1"),
            port: 11111,
            client_id: String::from_str("nautilus_futu"),
            client_ver: 100,
            rsa_key_path: None,
            enable_encryption: false,
            reconnect: true,
            reconnect_interval_secs: 5,
        }
    }
}

} // verus!
