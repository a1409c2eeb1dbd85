//! What the application decides between the window, the tray, the modules and the
//! configuration.

pub mod feedback;
pub mod lifecycle;
pub mod listing;
pub mod settings;
pub mod topmost;
pub mod update;
