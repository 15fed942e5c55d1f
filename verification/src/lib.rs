pub mod client;
pub mod command;
pub mod envelope;
pub mod error;
pub mod http;
pub mod json;
pub mod session;
pub mod text;
pub mod urls;

pub use client::HttpGatewayClient;
pub use command::{run_with_client, CliArgs, CliCommand, GatewayClient};
pub use error::CliError;
pub use urls::{normalize_base_url, normalize_optional_secret, normalize_path, websocket_url};
