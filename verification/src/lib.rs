//! Core logic of a small camera appliance: the square crop applied to
//! captured frames, the save-request protocol, the path sandbox that gates
//! every file operation, directory listings, transfers to removable media
//! and deletion of archived captures.
//!
//! The library decides; the surrounding program performs the device and
//! file-system work and reports back what happened.

pub mod archive;
pub mod capture;
pub mod catalog;
pub mod coordinator;
pub mod crop;
pub mod deleter;
pub mod order;
pub mod paths;
pub mod report;
pub mod sandbox;
pub mod sanitize;
pub mod text;
pub mod transfer;
