//! What an application registers to have bundles and resources loaded.

use vstd::prelude::*;
use crate::bundle::ConcurrentFluentBundle;
use crate::loader::BundleAssetLoader;

verus! {

/// Adds the loading of resources and bundles to an application, with a
/// customization that is applied to every bundle.
pub struct FluentPlugin<CustomizeFn> where
    CustomizeFn: Fn(&mut ConcurrentFluentBundle) + Send + Sync + 'static,
 {
    /// Called once for every bundle, on the empty bundle before any resource
    /// is merged.
    pub customize_bundle_fn: CustomizeFn,
}

impl<CustomizeFn> FluentPlugin<CustomizeFn> where
    CustomizeFn: Fn(&mut ConcurrentFluentBundle) + Send + Sync + 'static + Copy,
 {
    /// The plugin with the customization `customize_bundle_fn`.
    pub fn new(customize_bundle_fn: CustomizeFn) -> (plugin: Self)
        ensures
            plugin.customize_bundle_fn == customize_bundle_fn,
    {
        Self { customize_bundle_fn }
    }

    /// The loader of bundles that the plugin registers: one with the
    /// plugin's customization.
    pub fn bundle_loader(&self) -> (loader: BundleAssetLoader<CustomizeFn>)
        ensures
            loader.customize_bundle_fn == self.customize_bundle_fn,
    {
        BundleAssetLoader { customize_bundle_fn: self.customize_bundle_fn }
    }
}

/// The plugin as most applications want it: without any customization.
#[derive(Clone, Copy, Debug)]
pub struct DefaultFluentPlugins;

impl Default for DefaultFluentPlugins {
    fn default() -> (plugins: Self)
        ensures
            plugins == DefaultFluentPlugins,
    {
        DefaultFluentPlugins
    }
}

impl DefaultFluentPlugins {
    /// The customization of the default plugin, which leaves every bundle as
    /// it is.
    pub fn customize(bundle: &mut ConcurrentFluentBundle)
        ensures
            *final(bundle) == *old(bundle),
    {
    }
}

} // verus!
