//! Decision logic of a two-panel file transfer client for FTP, FTPS, SFTP and
//! S3-compatible storage.
//!
//! Nothing in this crate performs I/O. What talks to a server or to the disk
//! hands in plain values and carries out the actions that come back.

pub mod batch;
pub mod call_laws;
pub mod config;
pub mod connect;
pub mod copy;
pub mod delete;
pub mod delete_laws;
pub mod download;
pub mod download_laws;
pub mod events;
pub mod listing;
pub mod listing_laws;
pub mod local;
pub mod messages;
pub mod parts;
pub mod path;
pub mod s3;
pub mod s3_laws;
pub mod s3_uploads;
pub mod s3_uploads_laws;
pub mod session;
pub mod sources;
pub mod text;
pub mod transfer;
pub mod upload;
pub mod upload_laws;
pub mod upload_steps;
pub mod upload_walk;
pub mod upload_walk_laws;
pub mod view_laws;
pub mod window;
