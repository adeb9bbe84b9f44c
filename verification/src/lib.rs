//! System Tool Manager: a configuration names package managers and the tools
//! that each of them owns; the commands `install` and `update` hand the
//! packages of the requested managers to the managers' own command lines.
//!
//! The library holds the configuration model and every decision of a command:
//! which tools belong to a manager, what tells whether a tool is installed,
//! which packages a command line gets, and what follows when a command line
//! has ended. It touches neither files nor processes. The program around it
//! reads the configuration, looks on the system for what a probe names, and
//! executes the command lines.
//!
//! - [`config`]: managers, tools, the configuration and its queries.
//! - [`command`]: command templates and their resolution.
//! - [`dispatch`]: the commands, step by step.
//! - [`error`]: how a command line ends, and the failures of an invocation.
//! - [`text`]: comparison, joining and substitution of text.

pub mod command;
pub mod config;
pub mod dispatch;
pub mod error;
pub mod text;
