//! Tracking of disk-image sources: release versions, checksum manifests,
//! integrity records and the reconciliation of installed images.
pub mod error;
pub mod text;

pub mod version;
pub mod manifest;
pub mod digest;
pub mod iso_file;

pub mod mirror;
pub mod source;
pub mod table;
pub mod data;
pub mod installation;
pub mod update;
