//! Verified core of a jail-based OCI container platform: image references,
//! content digests and the blob store, layer archives and their whiteouts,
//! user resolution, runtime configuration, mounts and devfs rules, the
//! address pool, and the container lifecycle state machine.
pub mod auth;
pub mod blobs;
pub mod digest;
pub mod filesystem;
pub mod image;
pub mod image_config;
pub mod lifecycle;
pub mod manifest;
pub mod manifest_index;
pub mod network;
pub mod paths;
pub mod runtime_config;
pub mod shim;
pub mod storage;
pub mod table;
pub mod tar;
pub mod text;
pub mod tree;
pub mod user;
