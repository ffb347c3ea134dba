//! Verified core of the DeepSeek Harness desktop shell: port discovery from
//! sidecar output, dsh path resolution, profile manifest upgrades, stale
//! lock detection, civil dates for log files, platform commands and the
//! sidecar status state machines.

pub mod capabilities;
pub mod date;
pub mod desktop;
pub mod json;
pub mod locks;
pub mod market;
pub mod paths;
pub mod platform;
pub mod port;
pub mod profile;
pub mod sidecar;
pub mod status;
pub mod text;

pub use date::{is_leap, today_date_string};
pub use paths::resolve_dsh_path;
pub use platform::open_cmd;
pub use port::extract_port;
