//! Collects and presents basic facts about the machine it runs on: host name,
//! operating system and distribution, architecture, byte order, processor,
//! memory, graphics adapters, disk usage and network addresses.
//!
//! This library holds the decisions and the text handling; reading files,
//! calling the operating system and printing are left to the program around it.

pub mod android;
pub mod apple;
pub mod gpu;
pub mod hardware;
pub mod network;
pub mod number;
pub mod platform;
pub mod release;
pub mod report;
pub mod size;
pub mod text;
