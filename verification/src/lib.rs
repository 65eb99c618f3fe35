//! Wallpaper engine settings, colour handling and monitor layout, with their contracts.

pub mod numbers;
pub mod text;
pub mod paths;
pub mod ini_doc;
pub mod settings;
pub mod layout;
pub mod process;
pub mod colors;
pub mod script;
pub mod session;
