//! Account bookkeeping for a Steam account switcher: reading and editing
//! Steam's KeyValues files, choosing the active account, ordering the menu.

pub mod accounts;
pub mod avatar;
pub mod credentials;
pub mod i18n;
pub mod kv;
pub mod path;
pub mod registry;
pub mod settings;
pub mod scan;
pub mod switch;
pub mod text;
pub mod tray;
pub mod vdf;
