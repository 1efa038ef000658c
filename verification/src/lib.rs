//! Line-oriented exchange over a serial link.
//!
//! Outgoing text is framed as its bytes followed by CR LF. Incoming bytes
//! are assembled into lines of printable ASCII, each closed by a single CR.
//! Nothing here touches a device: callers perform the reads and writes and
//! hand the bytes over.

pub mod assembler;
pub mod error;
pub mod frame;
pub mod lines;
pub mod settings;
pub mod text;
pub mod wire;

pub use assembler::{LineAssembler, ReadAction};
pub use error::StruartError;
pub use frame::{send_ops, DeviceOp};
pub use settings::DeviceSettings;
