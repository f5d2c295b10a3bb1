//! Coordination core of a desktop tray utility: the echo server's per-connection
//! session, the screen-capture plan, the tray poll discipline and the icon check.

pub mod capture;
pub mod echo;
pub mod pixels;
pub mod tray;
