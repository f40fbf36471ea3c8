//! Verified core of the Colorify display-profile utility: the text rules
//! that name exported profiles, quote PowerShell arguments, read the
//! startup shortcut back, and build wallpaper data URLs.

pub mod text;
pub mod file_name;
pub mod powershell;
pub mod startup;
pub mod wallpaper;
pub mod profiles;
pub mod messages;
pub mod shell;

pub use file_name::safe_file_name;
