pub mod types;
pub mod sysex;
pub mod properties;
pub mod value_text;
pub mod listing;
