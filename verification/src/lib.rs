//! Control library for the MOTU UltraLite mk5: the device's property protocol,
//! its MIDI SysEx framing, the saved device state and the text processing that
//! the daemon and the command-line tool rely on.

pub mod text;
pub mod json;
pub mod protocol;
pub mod device;
pub mod updater;
pub mod diagnostics;
pub mod audio;
pub mod supervisor;
