use crate::error::FeatureError;
use crate::routes::{route_ok, route_paths};
use axum::Router;
use vstd::prelude::*;

verus! {

/// A persistent store of one enabled flag per feature identifier.
pub trait SiteFeatureStorage: Sized {
    /// The flag that the store holds for `id` (its default for an unknown id).
    /// Verified implementations define it; the default only spares unverified
    /// ones from writing a spec.
    open spec fn flag(&self, id: Seq<char>) -> bool {
        false
    }

    fn get_enabled(&self, id: &str) -> (r: bool)
        ensures
            r == self.flag(id@),
    ;

    /// Writes the flag of `id`. The flag ends up `enabled` or as it was, and
    /// as it was when the write fails; other identifiers keep their flags. A
    /// store may promise more, but a registry, which is a store too, does not
    /// pass on its own store's failures, so no more is asked here.
    fn set_enabled(&mut self, id: &str, enabled: bool) -> (r: Result<(), FeatureError>)
        ensures
            final(self).flag(id@) == enabled || final(self).flag(id@) == old(self).flag(id@),
            r is Err ==> final(self).flag(id@) == old(self).flag(id@),
            forall|k: Seq<char>| k != id@ ==> #[trigger] final(self).flag(k) == old(self).flag(k),
    ;
}

/// An optional capability of a site: an identifier, presentation metadata, a
/// route tree mounted under a sub-path, and setup/shutdown hooks.
pub trait SiteFeature: Sized {
    // Verified implementations define the four spec functions below; their
    // defaults only spare unverified ones from writing specs. Generic code
    // never relies on a default, since an implementation may replace it.

    /// The identifier, the key of the feature in a registry.
    open spec fn id(&self) -> Seq<char> {
        Seq::empty()
    }

    /// The path under which the feature's routes are mounted.
    open spec fn subpath(&self) -> Seq<char> {
        Seq::empty()
    }

    /// The paths of the routes that the feature's router holds.
    open spec fn routes(&self) -> Set<Seq<char>> {
        Set::empty()
    }

    /// Whether the feature is live, that is set up and not shut down since.
    open spec fn is_active(&self) -> bool {
        false
    }

    fn get_router(&self) -> (r: Router)
        ensures
            route_paths(r) == self.routes(),
            forall|q: Seq<char>| self.routes().contains(q) ==> route_ok(q),
    ;

    /// Makes the feature live; on failure it stays as it was.
    fn setup(&mut self) -> (r: Result<(), FeatureError>)
        ensures
            r is Ok ==> final(self).is_active(),
            r is Err ==> final(self).is_active() == old(self).is_active(),
    ;

    /// Takes the feature down; on failure it stays as it was. There is no
    /// default that succeeds doing nothing: it could not show that the
    /// feature is no longer live, whatever `is_active` an implementation
    /// chooses.
    fn shutdown(&mut self) -> (r: Result<(), FeatureError>)
        ensures
            r is Ok ==> !final(self).is_active(),
            r is Err ==> final(self).is_active() == old(self).is_active(),
    ;

    fn get_id(&self) -> (r: &str)
        ensures
            r@ == self.id(),
    ;

    /// The mount path. It has no default: axum cannot nest at the root `/`,
    /// so each feature names its own path.
    fn get_subpath(&self) -> (r: &str)
        ensures
            r@ == self.subpath(),
    ;

    fn get_name(&self) -> &str {
        "Unnamed Feature"
    }

    fn get_description(&self) -> &str {
        "No Description"
    }
}

} // verus!
