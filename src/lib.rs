//! An in-memory key-value server core: a parser for a small subset of the
//! RESP request format, a command dispatcher and the store it runs against.

pub mod codec;
pub mod command;
pub mod dispatch;
pub mod error;
pub mod laws;
pub mod store;
pub mod tokens;
pub mod wire;

pub use codec::{UtilityStruct, DELIMITER};
pub use command::SetCommand;
pub use dispatch::{process_message, respond};
pub use error::{get_error_message, RequestError};
pub use store::Store;
