//! Capture, store, compare and restore developer project contexts.
pub mod cli;
pub mod text;
pub mod strmap;
pub mod model;
pub mod store;
pub mod detect;
pub mod restore;
pub mod diff;
pub mod sample;
pub mod migrate;
pub mod ctx_file;
pub mod snip_file;
pub mod wtf;
pub mod template;
pub mod capture;
pub mod fingerprint;
