//! A watchdog for broadcast radio: it takes the audio of streams that
//! should carry the same program, grouped into channels, keeps a rolling
//! fingerprint of each, and tells when streams of one channel drift apart,
//! when streams of two channels carry the same, when a stream falls
//! silent and when a source stalls or dies. What it finds goes through an
//! alert manager that waits out short failures, reminds of long ones and
//! sends one message for many.
//!
//! The library decides and computes; running processes, sockets and
//! timers is left to the caller, who reports what happened and does what
//! the library answers.
pub mod alertmanager;
pub mod audiorouter;
pub mod audiostream;
pub mod channels;
pub mod clock;
pub mod commander;
pub mod commandprocessor;
pub mod comparator;
pub mod config;
pub mod event;
pub mod names;
pub mod nrsc;
pub mod sdr;
pub mod slack;
pub mod slacklistener;
pub mod text;
pub mod units;
pub mod volumedetect;
pub mod webserver;
