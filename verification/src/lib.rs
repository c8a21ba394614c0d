//! The core of a journal client for a space game.
//!
//! The client reads the journal that the game writes, line by line, hands the
//! events on a bus to whoever subscribed, replays old journal files for the
//! ledger, and keeps its lists of carriers and stations in step with the
//! ledger.
//!
//! What touches the disk, the network or the screen is left to the caller. The
//! modules here decide what is to be done next and say, in their contracts,
//! what they do:
//!
//! * [`broadcast_bus`]: the bus between one sender and its subscribers;
//! * [`journal`]: decoding of journal lines;
//! * [`log_reader`]: the journal files of a directory, oldest first;
//! * [`uploader`]: the replay of journal files on the bus;
//! * [`progress`]: how far a replay has come;
//! * [`timestamp`], [`records`]: what the ledger reports of carriers and
//!   stations;
//! * [`evm_updater`]: the refresh of those records;
//! * [`call_policy`]: the limits for calls to the ledger;
//! * [`system`]: a star system and its bodies;
//! * [`ordering`], [`sequences`]: sorting and facts about rows of things.

pub mod broadcast_bus;
pub mod call_policy;
pub mod evm_updater;
pub mod journal;
pub mod log_reader;
pub mod ordering;
pub mod progress;
pub mod records;
pub mod sequences;
pub mod system;
pub mod timestamp;
pub mod uploader;
