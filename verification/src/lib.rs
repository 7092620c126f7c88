//! A snapshot engine for unattended backups: it names each snapshot after
//! the local time it was taken at, plans the copies that fill it, and
//! decides which snapshots have outlived their retention.

pub mod backup;
pub mod calendar;
pub mod cleanup;
pub mod config;
pub mod local_time;
pub mod snapshot;
pub mod step;
pub mod time_mark;

pub use backup::do_backup;
pub use cleanup::cleanup_old_backups;
pub use time_mark::get_time_mark_format;
