//! Verified core of a wallpaper rotator.
//!
//! The library holds the logic of the rotator: recognising image files by
//! their extension, parsing the display tool's status output, the
//! avoid-repeat random selection policy, building the display tool's
//! command arguments, and the decisions of one rotation cycle.  The
//! surrounding process (directory walking, process spawning, the event
//! loop) stays outside and hands the library plain values.
//!
//! Paths are carried as byte vectors, so that the library makes no
//! assumption about the platform's path encoding.

pub mod bytes;
pub mod catalog;
pub mod probe;
pub mod scheduler;
pub mod select;
pub mod setter;
