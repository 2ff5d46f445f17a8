//! Localization bundles, loaded from manifests.
//!
//! A manifest names a locale and a list of resource files.  Loading it gives
//! a bundle for that locale into which the resources are merged in the order
//! of the manifest; where two of them define the same message, the first
//! definition stays and the later one is reported and dropped.

pub mod bundle;
pub mod entries;
pub mod error;
pub mod escapes;
pub mod loader;
pub mod manifest;
pub mod path;
pub mod plugins;
pub mod resource;
pub mod text;

pub use crate::bundle::ConcurrentFluentBundle;
pub use crate::entries::Collision;
pub use crate::error::{Error, ParseDiagnostic};
pub use crate::loader::{BundleAsset, BundleAssetLoader, BundleLoad, Merged, Progress};
pub use crate::manifest::{Manifest, Notation};
pub use crate::plugins::{DefaultFluentPlugins, FluentPlugin};
pub use crate::resource::ResourceAsset;
