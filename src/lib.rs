//! Shared-memory channel between one daemon and any number of shells.
//!
//! A channel region holds a fixed-layout header, a SeqLock frame that the
//! daemon publishes to every shell, and a bounded queue of command slots
//! that shells fill and the daemon drains. The region is handled as a value:
//! every operation takes it explicitly, and each call is one complete step
//! of the channel protocol, so its contract states exactly how the region
//! changes.
//!
//! - [`layout`]: sizes, offsets and constants of the region.
//! - [`seqlock`]: the single-writer frame and its readers.
//! - [`mpsc_queue`]: the many-producer, single-consumer command queue.
//! - [`channel`]: the header, its byte image and the attach handshake, and
//!   the daemon and shell sides.
//! - [`shm`]: names of the shared objects that hold regions.
//! - [`models`] and [`templates`]: results of the layout analyzer and plans
//!   of generated client projects.

pub mod error;
pub mod layout;
pub mod seqlock;
pub mod mpsc_queue;
pub mod shm;
pub mod channel;
pub mod models;
pub mod templates;

pub use channel::{ChannelConfig, DaemonChannel, ShellChannel};
pub use error::VenomError;
