//! The verified core of a multi-room terminal chat client.
//!
//! Nothing in this library performs I/O. The parts that talk to the store,
//! the terminal and the clock hand plain values in and carry out what the
//! library decides:
//!
//! - `text`, `clock`, `screen`: strings, times of day and the lines that
//!   the screen shows;
//! - `nick`, `rooms`, `input`, `util`, `config`: the rules for names, the
//!   command parser, message normalisation and the configuration;
//! - `rate`: the client's token bucket;
//! - `data`: the store's records, how its errors are read, and the identity
//!   resolver;
//! - `realtime`: the change notifier and its queue;
//! - `ui`, `session`: the session coordinator's rules and the session that
//!   follows them;
//! - `invite`, `life`: the invite prompt and its animated background.

pub mod clock;
pub mod config;
pub mod data;
pub mod input;
pub mod invite;
pub mod life;
pub mod nick;
pub mod rate;
pub mod realtime;
pub mod rooms;
pub mod screen;
pub mod session;
pub mod text;
pub mod ui;
pub mod util;
