//! The control model of a video-capture device: what a device reports about
//! its controls, the tree that is shown for them, the writes that change
//! them, and the profile that is stored for a device.
//!
//! The model never touches a device. Its caller reads what the system and
//! the device report, hands that over as plain values, and carries out what
//! the model asks for.

/// What a device reports, as plain values.
pub mod hardware;

/// The descriptors of a device's controls, the control tree, the list of
/// devices, writes and the projection of a profile.
pub mod device;

/// What holds of every control tree.
pub mod tree;

/// What holds of every list of devices.
pub mod listing;

/// What holds of every profile.
pub mod profile;

/// The profile record, the name of its file and the text of the file.
pub mod storage;

/// The page that shows one device.
pub mod content;

/// The state of the application around the page.
pub mod app;

/// The settings page.
pub mod settings;

/// Decimal numbers and file-name fragments.
pub mod text;
