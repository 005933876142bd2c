//! Client-side core of an RGB-lighting-control protocol: the color model,
//! the request/response wire framing, the controller-descriptor decoder,
//! the LED color-update command encoder, and the session directory with
//! its selection and retry logic. All network I/O lives outside this
//! library; the functions here turn plain bytes and values into plain
//! bytes and values.

pub mod color;
pub mod command;
pub mod error;
pub mod controller;
pub mod session;
pub mod wire;

pub use color::RGBColor;
pub use command::ControllerLedSetCommand;
pub use controller::{ControllerData, ControllerMetaData, LedData};
pub use error::ProtocolError;
pub use session::{Session, VERSION};
