//! Running as a background service: the daemon's PID file, and the
//! launchd and systemd files and answers.

pub mod daemon;
pub mod launchd;
pub mod systemd;

pub use crate::service::daemon::{Daemon, DaemonStatus};
pub use crate::service::launchd::{Launchd, LaunchdStatus};
pub use crate::service::systemd::{Systemd, SystemdStatus};
