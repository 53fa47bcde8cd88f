//! Verified core of Weave: lockfile graphs, path safety, artifact identity,
//! execution policy validation, discovery and prebuild resolution.
use vstd::prelude::*;

pub mod acquire;
pub mod adoption;
pub mod artifact;
pub mod audit;
pub mod config;
pub mod discovery;
pub mod doctor;
pub mod environment;
pub mod error;
pub mod execution;
pub mod extract;
pub mod fetch;
pub mod gc;
pub mod git;
pub mod guide;
pub mod hashing;
pub mod integrity;
pub mod json;
pub mod layout;
pub mod lockfile;
pub mod lockfile_json;
pub mod lockfile_v1;
pub mod links;
pub mod materialize;
pub mod paths;
pub mod plan;
pub mod policy;
pub mod project;
pub mod recover;
pub mod registry;
pub mod prebuild;
pub mod scan;
pub mod status;
pub mod suggest;
pub mod switch;
pub mod tarball;
pub mod text;
pub mod textmap;
pub mod unpacked;

verus! {
} // verus!
