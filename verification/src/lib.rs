//! User-activity correlation: decoded shell-history entries and device connections
//! normalized into one [`UserActivity`] event, merged into one epoch-ordered
//! timeline, and audited for cross-source findings that no single source shows.
//!
//! Every finding is an **observation** ("consistent with …"); the examiner draws
//! the conclusions.
pub mod activity;
pub mod audit;
pub mod bus;
pub mod joins;
pub mod render;
pub mod report;
pub mod sources;
pub mod tamper;
pub mod text;
pub mod timeline;

pub use activity::{Action, SourceKind, Subject, UserActivity};
pub use audit::{audit, audit_with, REMOVABLE_MEDIA_WINDOW_SECS};
pub use bus::{is_mass_storage_id, BusKind};
pub use joins::{device_file_volume_joins, file_volume_serial};
pub use report::{source, Category, Evidence, Finding, Severity, Source};
pub use sources::{
    from_device_connections, from_shell_history, ActivitySource, DeviceRecord, DeviceSource,
    ShellEntry, ShellHistorySource,
};
pub use tamper::is_history_tamper;
pub use timeline::build_timeline;
