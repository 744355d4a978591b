pub mod endpoint;
pub mod errors;
pub mod types;

pub use endpoint::ClashEndpoint;
pub use errors::ClashError;
pub use types::{ConnectionsResponse, DelayHistory, ProxiesResponse, Proxy, VersionInfo};
