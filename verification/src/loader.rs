//! Loading a bundle from its manifest.
//!
//! A load goes step by step.  It starts with an empty bundle for the locale
//! of the manifest, which the customization hook may change.  Then, as long
//! as a declared resource is left, the load names the path to fetch, the
//! caller fetches it by whatever means it has and supplies what came of it,
//! and the load merges the resource or ends with the error.  Resources are
//! merged in the order of the manifest, one at a time.

use vstd::prelude::*;
use std::sync::Arc;
use fluent::FluentResource;
use crate::bundle::{
    add_resource, bundle_entries, bundle_resources, holds_merged, is_fresh, keeps_customization,
    new_concurrent, rejected_by, shared_entries, ConcurrentFluentBundle,
};
use crate::entries::{merge_all, reported_ids, Body, Collision};
use crate::error::Error;
use crate::manifest::Manifest;
use crate::path::{resolve, resolved};
use crate::resource::ResourceAsset;

verus! {

/// A finished bundle: the messages of one locale, merged from the resources
/// of its manifest.  It is shared, and read by many at once.
#[derive(Clone)]
pub struct BundleAsset(pub Arc<ConcurrentFluentBundle>);

impl std::ops::Deref for BundleAsset {
    type Target = ConcurrentFluentBundle;

    fn deref(&self) -> (bundle: &ConcurrentFluentBundle)
        ensures
            *bundle == *self.0,
    {
        &self.0
    }
}

/// The endings of the file names that are manifests.
pub const EXTENSIONS: [&'static str; 3] = ["ftl.ron", "ftl.yaml", "ftl.yml"];

/// The paths that `resources` hold, in order.
pub open spec fn paths(resources: Seq<String>) -> Seq<Seq<char>> {
    resources.map_values(|p: String| p@)
}

/// A load that waits for its next resource.
pub struct BundleLoad {
    manifest_path: String,
    resources: Vec<String>,
    merged: usize,
    bundle: ConcurrentFluentBundle,
}

/// Where a load stands.
pub enum Progress {
    /// A resource is to be fetched and supplied.
    Fetch(BundleLoad),
    /// Every resource is merged: this is the bundle.
    Done(BundleAsset),
}

/// What merging one resource came to.
pub struct Merged {
    /// Where the load stands now.
    pub progress: Progress,
    /// The definitions of the resource that were dropped because their
    /// identifiers were taken, in the order of the resource.
    pub collisions: Vec<Collision>,
}

impl BundleLoad {
    #[verifier::type_invariant]
    spec fn waits(self) -> bool {
        self.merged < self.resources.len()
    }

    /// The path of the manifest.
    pub closed spec fn manifest_path(self) -> Seq<char> {
        self.manifest_path@
    }

    /// The resource paths that the manifest declares, in its order.
    pub closed spec fn declared(self) -> Seq<Seq<char>> {
        paths(self.resources@)
    }

    /// How many of the declared resources are merged.
    pub closed spec fn merged_count(self) -> nat {
        self.merged as nat
    }

    /// The bundle as it stands, with the resources merged so far.
    pub closed spec fn bundle(self) -> ConcurrentFluentBundle {
        self.bundle
    }

    /// The path to fetch next: that of the first declared resource that is
    /// not merged yet, resolved against the place of the manifest.
    pub fn request(&self) -> (path: String)
        ensures
            self.merged_count() < self.declared().len(),
            path@ == resolved(self.manifest_path(), self.declared()[self.merged_count() as int]),
    {
        proof {
            use_type_invariant(self);
        }
        resolve(self.manifest_path.as_str(), self.resources[self.merged].as_str())
    }

    /// Takes what fetching the requested resource came to.
    ///
    /// A failure ends the load with that same error, and the bundle so far
    /// is dropped.  A resource is merged: the step hands back the collisions
    /// it met, and either the load, which waits for the next resource, or
    /// the finished bundle.  Merging leaves alone what the customization set
    /// on the bundle: its functions and its formatting.
    pub fn supply(self, fetched: Result<ResourceAsset, Error>) -> (step: Result<Merged, Error>)
        ensures
            match fetched {
                Err(error) => step == Err::<Merged, Error>(error),
                Ok(resource) => {
                    &&& step matches Ok(merged)
                    &&& merged.progress.is_at(
                        self.manifest_path(),
                        self.declared(),
                        self.merged_count() + 1,
                    )
                    &&& holds_merged(merged.progress.bundle(), self.bundle(), resource.0)
                    &&& reported_ids(merged.collisions@) == rejected_by(self.bundle(), resource.0)
                },
            },
    {
        proof {
            use_type_invariant(&self);
        }
        match fetched {
            Err(error) => Err(error),
            Ok(resource) => {
                let BundleLoad { manifest_path, resources, merged, bundle } = self;
                let mut bundle = bundle;
                let collisions = add_resource(&mut bundle, resource.0);
                let progress = Progress::at(manifest_path, resources, merged + 1, bundle);
                Ok(Merged { progress, collisions })
            },
        }
    }
}

impl Progress {
    /// The bundle as it stands.
    pub open spec fn bundle(self) -> ConcurrentFluentBundle {
        match self {
            Progress::Fetch(load) => load.bundle(),
            Progress::Done(asset) => *asset.0,
        }
    }

    /// Whether this is where the load of the manifest at `manifest_path`,
    /// which declares the resources `declared`, stands once `merged` of them
    /// are merged: it waits for the next resource while one is left, and is
    /// done when none is.
    pub open spec fn is_at(
        self,
        manifest_path: Seq<char>,
        declared: Seq<Seq<char>>,
        merged: nat,
    ) -> bool {
        if merged < declared.len() {
            &&& self matches Progress::Fetch(load)
            &&& load.manifest_path() == manifest_path
            &&& load.declared() == declared
            &&& load.merged_count() == merged
        } else {
            self is Done
        }
    }

    fn at(
        manifest_path: String,
        resources: Vec<String>,
        merged: usize,
        bundle: ConcurrentFluentBundle,
    ) -> (progress: Progress)
        ensures
            progress.is_at(manifest_path@, paths(resources@), merged as nat),
            progress.bundle() == bundle,
    {
        if merged < resources.len() {
            Progress::Fetch(BundleLoad { manifest_path, resources, merged, bundle })
        } else {
            Progress::Done(BundleAsset(Arc::new(bundle)))
        }
    }
}

/// Loads bundles, each with the same customization.
pub struct BundleAssetLoader<CustomizeFn> where
    CustomizeFn: Fn(&mut ConcurrentFluentBundle) + Send + Sync + Copy + 'static,
 {
    /// Called once for every bundle, on the empty bundle before any resource
    /// is merged.
    pub customize_bundle_fn: CustomizeFn,
}

impl<CustomizeFn> BundleAssetLoader<CustomizeFn> where
    CustomizeFn: Fn(&mut ConcurrentFluentBundle) + Send + Sync + Copy + 'static,
 {
    /// The endings of the file names that this loader takes: the manifests
    /// in either notation.
    pub fn extensions(&self) -> (list: &'static [&'static str])
        ensures
            list@.len() == 3,
            list@[0]@ == "ftl.ron"@,
            list@[1]@ == "ftl.yaml"@,
            list@[2]@ == "ftl.yml"@,
    {
        &EXTENSIONS
    }

    /// Starts the load of the bundle that `manifest`, found at the path
    /// `manifest_path`, declares.
    ///
    /// The bundle starts empty, with the locale of the manifest, and is
    /// handed to the customization hook once.  What the hook made of it is
    /// the bundle that the resources are merged into; where the manifest
    /// declares none, it is the finished bundle.
    pub fn begin(&self, manifest: Manifest, manifest_path: &str) -> (progress: Progress)
        requires
            forall|bundle: &mut ConcurrentFluentBundle|
                is_fresh(*bundle, manifest.locale) ==> #[trigger] call_requires(
                    self.customize_bundle_fn,
                    (bundle,),
                ),
        ensures
            progress.is_at(manifest_path@, paths(manifest.resources@), 0),
            exists|bundle: &mut ConcurrentFluentBundle|
                is_fresh(*bundle, manifest.locale) && #[trigger] call_ensures(
                    self.customize_bundle_fn,
                    (bundle,),
                    (),
                ) && *final(bundle) == progress.bundle(),
            manifest.resources@.len() == 0 ==> progress is Done,
            (forall|bundle: &mut ConcurrentFluentBundle| #[trigger]
                call_ensures(self.customize_bundle_fn, (bundle,), ()) ==> *final(bundle)
                    == *bundle) ==> is_fresh(progress.bundle(), manifest.locale),
    {
        let mut bundle = new_concurrent(manifest.locale);
        (self.customize_bundle_fn)(&mut bundle);
        Progress::at(manifest_path.to_owned(), manifest.resources, 0, bundle)
    }
}

/// The steps of a load add up to one merge of all its resources, in order.
/// When the bundle `before` is `start` with the resources `bodies` merged,
/// and a step merges `resource` into it, the bundle `after` is `start` with
/// `bodies` and then `resource` merged.
pub proof fn lemma_steps_add_up(
    start: ConcurrentFluentBundle,
    bodies: Seq<Body>,
    before: ConcurrentFluentBundle,
    resource: Arc<FluentResource>,
    after: ConcurrentFluentBundle,
)
    requires
        bundle_entries(before) == merge_all(
            bundle_entries(start),
            bundle_resources(start).len(),
            bodies,
        ),
        bundle_resources(before).len() == bundle_resources(start).len() + bodies.len(),
        holds_merged(after, before, resource),
    ensures
        bundle_entries(after) == merge_all(
            bundle_entries(start),
            bundle_resources(start).len(),
            bodies.push(shared_entries(resource)),
        ),
        bundle_resources(after).len() == bundle_resources(start).len() + bodies.len() + 1,
{
    let all = bodies.push(shared_entries(resource));
    assert(all.drop_last() =~= bodies);
    assert(all.last() == shared_entries(resource));
}

/// What the customization set on the bundle is there after every step: when
/// the bundle `before` has the functions and the formatting of `start`, and
/// a step merges `resource` into it, the bundle `after` has them too.
pub proof fn lemma_steps_keep_customization(
    start: ConcurrentFluentBundle,
    before: ConcurrentFluentBundle,
    resource: Arc<FluentResource>,
    after: ConcurrentFluentBundle,
)
    requires
        keeps_customization(before, start),
        holds_merged(after, before, resource),
    ensures
        keeps_customization(after, start),
{
}

} // verus!
