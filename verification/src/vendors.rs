//! Data models of the provisioning providers and the decisions taken on them.
//!
//! The network calls themselves live in the embedding; these modules hold the
//! providers' records as plain data and the pure selection and formatting
//! logic applied to what the providers return.

pub mod coolify;
pub mod logto;
pub mod vercel;
