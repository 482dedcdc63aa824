//! Verified core of a small HTTP front end over the Android Debug Bridge
//! (ADB) command-line tool.
//!
//! The library holds everything that computes: parsing of the tabular
//! `adb devices` output, of `getprop` property dumps and of `ifconfig`
//! interface listings, the USB/IP correlation that builds a bidirectional
//! alias table, and the decision logic of the connect, deep-link and
//! executable checks. Process spawning, timeouts and the HTTP layer are
//! collaborators that hand the library plain values (captured stdout, exit
//! status, probe results) and take plain values back.

pub mod configuration;
pub mod connect;
pub mod device;
pub mod executable;
pub mod headers;
pub mod links;
pub mod net;
pub mod process;
pub mod properties;
pub mod rest;
pub mod text;
pub mod umdb;
