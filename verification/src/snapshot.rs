//! Snapshots of tmux objects, decoded from listings.

pub mod client_info;
pub mod hydrator;
pub mod pane_info;
pub mod projection;
pub mod record;
pub mod selection;
pub mod session_info;
pub mod value;
pub mod window_info;
