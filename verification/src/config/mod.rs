//! What the user has set, and what starting with the system asks for.

pub mod autostart;
pub mod settings;

pub use autostart::AutoStartError;
pub use settings::AppTheme;
pub use settings::Settings;
