//! A runtime registry of optional site features: features are collected by a
//! builder, bound to a flag store, toggled with setup/shutdown hooks, and their
//! route trees are composed into one router.

pub mod error;
pub mod feature;
pub mod routes;
pub mod laws;
pub mod system;

pub use error::FeatureError;
pub use feature::{SiteFeature, SiteFeatureStorage};
pub use system::{SiteFeatureBuilder, SiteFeatureSystem};
