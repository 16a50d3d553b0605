//! Verified core of a desktop system-monitor overlay: text formatting of
//! machine readings, sysfs parsing, the dock/float layout state machine of
//! the overlay's widgets, and the snow animation's window state.

pub mod text;
pub mod double;
pub mod gpu;
pub mod readings;
pub mod monitor;
pub mod dispatch;
pub mod widget;
pub mod registry;
pub mod snow;
pub mod tick;
pub mod layout;
