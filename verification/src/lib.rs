//! An in-memory key/value store that speaks the RESP wire format: frames and
//! their codec, the command set, and the shared store with expiring keys and
//! publish/subscribe channels.
//!
//! * `frame`, `decode`, `decimal`, `text`: frames, how they are written as
//!   bytes and read back; `round_trip` and `partial` state what holds of the
//!   two together.
//! * `parse`, `cmd`: the cursor over a command's arguments, and the commands.
//! * `db`: the store, its mathematical model and what holds of it, and the
//!   handle that connections share.
//! * `connection`, `server`: what a connection and the listener decide; the
//!   sockets themselves are the caller's.
//! * `blob`, `pubsub`, `clock`, `wake`: what is taken on trust of `bytes` and
//!   `tokio`.

pub mod blob;
pub mod clock;
pub mod cmd;
pub mod connection;
pub mod db;
pub mod decimal;
pub mod decode;
pub mod frame;
pub mod parse;
pub mod partial;
pub mod pubsub;
pub mod round_trip;
pub mod server;
pub mod text;
pub mod wake;

pub use cmd::Command;
pub use connection::ReadBuffer;
pub use db::{Db, State};
pub use decode::FrameError;
pub use frame::Frame;
pub use parse::{Parse, ParseError};
pub use server::DEFAULT_PORT;
