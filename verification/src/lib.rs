//! Client side of the Android Debug Bridge host protocol, without the socket.
//!
//! The crate holds the wire format and the sequencing rules of a session with
//! an ADB server: how a host request is framed, how the server's status is
//! read, and how the file-sync exchanges (LIST, SEND, RECV, STAT) proceed.
//! It never touches a socket or a file. A caller performs the reads and
//! writes that an [`exchange::Exchange`] asks for and hands back what came of
//! them; the same rules can be run over bytes held in memory.
//!
//! - [`error`], [`tag`], [`command`], [`entry`]: the vocabulary.
//! - [`wire`], [`hex`], [`frame`]: numbers, lengths and the two framings.
//! - [`scan`], [`host`], [`sync`], [`list`], [`send`], [`recv`], [`stat`]:
//!   what is written and how a reply is read, exchange by exchange.
//! - [`exchange`], [`session`]: the order in which things happen.
//! - [`replay`]: an exchange run to its end against bytes held in memory.

pub mod command;
pub mod entry;
pub mod error;
pub mod exchange;
pub mod frame;
pub mod hex;
pub mod host;
pub mod list;
pub mod recv;
pub mod replay;
pub mod scan;
pub mod send;
pub mod session;
pub mod stat;
pub mod sync;
pub mod tag;
pub mod wire;
