pub mod client;
pub mod errors;
pub mod json;
pub mod profile;
pub mod router;
pub mod storefile;
pub mod text;

pub use client::ApiClient;
pub use errors::CliError;
pub use profile::{CliConfig, Profile};
pub use router::{AppsCommands, Cli, Commands, ConfigCommands, Method, Plan, SecretsCommands};
