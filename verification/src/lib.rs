//! Verified core of the Codex quota taskbar widget: quota snapshots and the
//! rules that decide when a fresh reading is trusted, taskbar layout
//! arithmetic, proxy and release parsing, and the update flow.

pub mod layout;
pub mod text;
pub mod quota;
pub mod radar;
pub mod proxy;
pub mod refresh;
pub mod release;
pub mod settings;
pub mod visual;
