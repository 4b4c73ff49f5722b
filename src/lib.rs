//! OCI runtime hooks: the configuration-edit merge engine of the pre-create
//! hook, and the small decisions of the ldcache and control-daemon hooks.

pub mod text;
pub mod daemon;
pub mod edits;
pub mod env;
pub mod json;
pub mod ldcache;
pub mod merge;
pub mod mounts;
