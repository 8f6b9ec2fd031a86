//! A virtual file system over local disks and remote object stores.
//!
//! The verified part holds the logic of the stores: how paths are joined, compared and
//! written for each kind of store, what capabilities a store has, how settings are read and
//! turned into the options of a remote service, and the steps that requests take. Reading
//! and writing data is left to the caller, who hands the answers back as plain values.
pub mod config;
pub mod layered;
pub mod layers;
pub mod local;
pub mod meta;
pub mod operator;
pub mod path;
pub mod remote;
pub mod services;
pub mod text;
pub mod throttle;

pub use path::join_force;
