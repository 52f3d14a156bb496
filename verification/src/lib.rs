//! Decision logic of a command-line launcher for an OpenVPN client.
//!
//! Everything here is a function from plain values to plain values: the
//! caller reads the disk, the process table and the terminal, hands what it
//! found to these functions, and carries out what they return.
//!
//! - [`utils`] names the protocols, finds the server config for a city and
//!   lists the cities of a manifest; [`utils::sanity`] decides what has to
//!   be set up before the launcher can act.
//! - [`archive`] reads the bundle of server configs and plans its
//!   extraction.
//! - [`controller`] decides what to do about the VPN client process.
//! - [`cli`] settles what the command line means.
//! - [`paths`], [`text`] and [`pattern`] hold what the others share, and
//!   [`error`] the failures they report.

pub mod archive;
pub mod cli;
pub mod controller;
pub mod error;
pub mod paths;
pub mod pattern;
pub mod text;
pub mod utils;
