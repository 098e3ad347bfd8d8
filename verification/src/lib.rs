//! Selects an installed release of Proton by its version and prepares the
//! launch of a Windows program under it.
//!
//! - [`version`]: releases, their names and their order.
//! - [`index`]: which directory holds which release.
//! - [`resolve`]: what to do about a release that the index does not know.
//! - [`options`]: the runtime options and their environment variables.
//! - [`launch`]: the argument vector and the environment of the child, and
//!   the reading of how it ended.
//! - [`request`]: a request, and the two ways from it to a launch.
//! - [`cli`]: the command line. [`jargon`] holds what is taken on trust of
//!   the argument parser.
//! - [`config`]: the configuration file.
//! - [`error`]: failures and their exit codes.
//! - [`text`]: digits, numbers, and texts cut at a separator.
//!
//! The library reads no file and starts no process. It is handed what was
//! read and says what is to be done.

pub mod cli;
pub mod config;
pub mod error;
pub mod index;
pub mod jargon;
pub mod launch;
pub mod options;
pub mod request;
pub mod resolve;
pub mod text;
pub mod version;
