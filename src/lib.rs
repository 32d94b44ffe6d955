//! An artifact repository server's core: the storage registry, repository
//! handler dispatch, the permission engine and request authentication.

pub mod auth;
pub mod external;
pub mod handler;
pub mod npm;
pub mod permissions;
pub mod repository;
pub mod requests;
pub mod settings;
pub mod storage;
pub mod text;
