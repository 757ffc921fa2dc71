//! Hand-off of a markdown file path from the launch of a desktop editor to its
//! frontend.
//!
//! A path reaches the running program over one of two channels: as an argument
//! of its own start, or in the argument list of a second launch that the
//! operating system redirected to it. The first is kept in a single slot until
//! the frontend asks for it; the second is pushed to the frontend at once.
//! Every path is checked for a markdown extension on its way in.
//!
//! The modules, leaves first:
//! - [`store`]: the slot that holds at most one pending path.
//! - [`validator`]: the check for a markdown extension.
//! - [`logline`]: severities and the framing of one line of the diagnostic log.
//! - [`timestamp`]: the coarse calendar stamp that opens each such line.
//! - [`arbiter`]: the decision where an incoming path goes.
//! - [`commands`]: replies computed for the frontend.

pub mod store;
pub mod timestamp;
pub mod validator;
pub mod logline;
pub mod arbiter;
pub mod commands;
