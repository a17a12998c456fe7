//! Verified core of a desktop status bar: samplers that turn probe text into
//! snapshots, the event channel, the window-manager event listener, the
//! reducer that applies events to visible state, and the debounced timer.

pub mod apps;
pub mod audio;
pub mod battery;
pub mod channel;
pub mod clock;
pub mod config;
pub mod framing;
pub mod ipc;
pub mod mpris;
pub mod network;
pub mod number;
pub mod osd;
pub mod power;
pub mod slicing;
pub mod sys_info;
pub mod system;
pub mod text;
pub mod timer;
pub mod worker;
pub mod workspaces;
