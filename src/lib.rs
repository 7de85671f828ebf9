//! Editor core for Cave Story `Profile.dat` save files: a byte-level codec,
//! the slot and derived-count rules of the editable model, and the mailbox
//! that hands background I/O results back to a redraw loop.
pub mod layout;
pub mod profile;
pub mod slots;
pub mod equipment;
pub mod storage;
pub mod editor;

pub use editor::MainApp;
