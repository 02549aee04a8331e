//! The daemon side of a status bar: contexts that turn system state into
//! topic events, the broker that fans them out to subscribers, the registry
//! that routes requests, and the framing of the two local sockets.

pub mod text;
pub mod hyprland_listener;
pub mod event_handler;
pub mod context;
pub mod decimal;
pub mod battery_context;
pub mod brightness_context;
pub mod hyprland_context;
pub mod rsbar_context;
pub mod time_context;
pub mod volume_context;
pub mod client;
pub mod codec;
pub mod request;
pub mod server_context;
