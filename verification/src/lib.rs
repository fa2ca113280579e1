//! The verified core of the PhoneMike PC client: stream framing, WAV and
//! shared-memory layouts, the playback backlog, the noise gate, connection
//! policy and the small text and device-selection rules around them.

pub mod bytes;
pub mod wav;
pub mod stream;
pub mod ring;
pub mod wide;
pub mod playback;
pub mod gate;
pub mod state;
pub mod connect;
pub mod devices;
pub mod update;
pub mod tray;
pub mod session;
