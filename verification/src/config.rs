//! Configuration of the proxy.
use vstd::prelude::*;

use crate::proxy::prefixed;
use crate::text::unsigned_text;

verus! {

/// Proxy server configuration.
///
/// Defines where the proxy server listens for incoming OpenAI API requests.
#[derive(Debug)]
pub struct ServerConfig {
    /// Server bind address (e.g., "0.0.0.0", "127.0.0.1")
    pub host: String,
    /// Server bind port (e.g., 8080)
    pub port: u16,
}

/// ComfyUI backend connection configuration.
///
/// Defines how to connect to the ComfyUI server and which workflows to use.
#[derive(Debug)]
pub struct ComfyUiProxyConfig {
    /// ComfyUI backend host address
    pub host: String,
    /// ComfyUI backend port
    pub port: u16,
    /// Unique client identifier for WebSocket connections to ComfyUI
    pub client_id: String,
    /// Path to directory containing workflow JSON files
    pub workflows_folder: String,
    /// Whether to use or not WebSockets
    pub use_ws: bool,
}

/// Request routing and timeout configuration.
///
/// Controls request handling behavior and limits.
#[derive(Debug)]
pub struct RoutingConfig {
    /// Timeout in seconds for requests to ComfyUI backend
    pub timeout_seconds: u16,
    /// Maximum request body size in megabytes
    pub max_payload_size_mb: u16,
}

/// Root configuration struct.
#[derive(Debug)]
pub struct Config {
    /// Logging level: debug, info, warn, error
    pub log_level: String,
    /// Proxy server configuration
    pub server: ServerConfig,
    /// ComfyUI backend configuration
    pub comfyui_backend: ComfyUiProxyConfig,
    /// Request routing configuration
    pub routing: RoutingConfig,
}

/// The path of the configuration file: the one that the environment gives, or else the default.
pub open spec fn path_or_default(from_environment: Option<String>) -> Seq<char> {
    match from_environment {
        Some(path) => path@,
        None => "./config/config.yaml"@,
    }
}

impl Config {
    /// The path of the configuration file, given the CONFIG_PATH environment variable.
    pub fn path(from_environment: Option<String>) -> (path: String)
        ensures
            path@ == path_or_default(from_environment),
    {
        match from_environment {
            Some(path) => path,
            None => "./config/config.yaml".to_owned(),
        }
    }

    /// The text of a configuration file as it was read, or a message that says which file could
    /// not be read and why.
    pub fn file_text(path: &str, content: Result<String, String>) -> (result: Result<String, String>)
        ensures
            match content {
                Ok(text) => result matches Ok(same) && same@ == text@,
                Err(reason) => result matches Err(message) && message@ == "Failed to read config file '"@
                    + path@ + "': "@ + reason@,
            },
    {
        match content {
            Ok(text) => Ok(text),
            Err(reason) => {
                let mut message = prefixed("Failed to read config file '", path);
                message.append("': ");
                message.append(reason.as_str());
                Err(message)
            },
        }
    }

    /// The address on which the proxy server listens.
    pub fn server_address(&self) -> (address: String)
        ensures
            address@ == crate::proxy::address(
                self.server.host@,
                crate::text::decimal(self.server.port as int),
            ),
    {
        let mut address = prefixed(self.server.host.as_str(), ":");
        address.append(unsigned_text(self.server.port as u64).as_str());
        address
    }
}

/// The environment decides which file is read; without it the file is the default one.
pub proof fn environment_decides_on_file(from_environment: Option<String>)
    ensures
        match from_environment {
            Some(path) => path_or_default(from_environment) == path@,
            None => path_or_default(from_environment) == "./config/config.yaml"@,
        },
{
}

} // verus!
