//! The verified core of an endpoint agent: exact-data-match scanning over a
//! fingerprint store, and the settings and telemetry records of the agent.

pub mod chunking;
pub mod config;
pub mod digest;
pub mod dlp;
pub mod prefilter;
pub mod scan;
pub mod severity;
pub mod store;
pub mod telemetry;

pub use config::AgentConfig;
pub use dlp::{DlpEngine, DlpMatch};
pub use severity::Severity;
pub use store::FingerprintStore;
pub use telemetry::{Event, EventType};
