//! A string-interning ("atom") library with verified behaviour.
//!
//! The core is the `Atom` type, an immutable string handle with cheap
//! equality, and `AtomStore`, a per-owner deduplicating table that issues
//! atoms. Stores built independently can be merged while every atom issued
//! before the merge keeps comparing equal to the canonical post-merge atoms.
//! Around the core live the small data types and decision functions of the
//! command-line front-end (application specifications, provisioning plans,
//! crate-linking selection) and string-replacement helpers.

pub mod app_spec;
pub mod atom;
pub mod config;
pub mod dynamic;
pub mod global_store;
pub mod hash;
pub mod laws;
pub mod link;
pub mod nextjs;
pub mod provision;
pub mod replace;
pub mod repr;
pub mod shrink;
pub mod util;
pub mod vendors;

pub use crate::atom::Atom;
pub use crate::dynamic::AtomStore;
pub use crate::global_store::GlobalStore;
