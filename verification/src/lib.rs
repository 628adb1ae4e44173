//! Control plane for arranging and focus-cycling the windows of several
//! simultaneously running instances of one application, across four
//! desktop-environment backends (one direct wire-protocol client and three
//! compositor command-line interfaces).
//!
//! Everything that decides or computes lives here and is verified: the
//! identifier codec, the title filter, the parsers for each backend's
//! textual output, the monitor-topology resolver, the layout engine and
//! the cycle state machine.  The surrounding process — spawning compositor
//! tools, speaking the wire protocol, reading configuration files — hands
//! this library plain values and applies what it returns.

pub mod codec;
pub mod cycle;
pub mod filter;
pub mod hyprland;
pub mod kwin;
pub mod layout;
pub mod model;
pub mod sway;
pub mod text;
pub mod topology;
pub mod x11;
pub mod xrandr;
