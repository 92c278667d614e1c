//! Download links for a product landing page.
//!
//! A release is a list of named assets. Each asset is assigned to at most one
//! download category by an ordered list of rules on its file name, and the
//! visitor's platform is read off a client identification string. Everything
//! here is a pure function of its arguments.

pub mod category;
pub mod home;
pub mod links;
pub mod platform;
pub mod text;
