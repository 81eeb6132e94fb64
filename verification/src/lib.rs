//! A tiling window manager core: workspaces (tags) of clients, a master/stack
//! tiling layout, key-binding dispatch, and the event-driven state machine
//! that keeps them consistent.
//!
//! The library is pure: every event handler returns the display-server
//! commands it wants issued as plain values, and an unverified shell performs
//! the actual protocol calls.
mod action;
mod client;
mod config;
mod data;
mod display;
mod event_handler;
mod key_handler;
mod layout;
mod tag;
mod window_manager;

pub use client::Client;
pub use config::Config;
pub use data::Position;
pub use data::Size;
pub use data::Vector2D;
pub use display::CommandView;
pub use display::DisplayCommand;
pub use display::WmEvent;
pub use event_handler::EventHandler;
pub use key_handler::Action;
pub use key_handler::ActionView;
pub use key_handler::BuiltinCommand;
pub use key_handler::Key;
pub use key_handler::KeyBinding;
pub use key_handler::KeyCombination;
pub use key_handler::Modifier;
pub use layout::Layout;
pub use layout::StackLayout;
pub use tag::Tag;
pub use window_manager::WindowManager;
pub use window_manager::MAX_WORKSPACES;
