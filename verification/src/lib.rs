//! Job dispatch for network-booted machines: the table of jobs and the
//! rules by which machines claim, download, boot, report and finish them.

pub mod avahi;
pub mod clock;
pub mod jobs;
pub mod laws;
pub mod net;
pub mod service;
pub mod status;
pub mod term;
pub mod units;
