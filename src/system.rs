use crate::error::FeatureError;
use crate::feature::{SiteFeature, SiteFeatureStorage};
use crate::routes::{
    apart, extends_in_segment, has_prefix, literal_char, mount_path_ok, nest_router, nested_path,
    new_router, parts_at, route_ok, route_paths,
};
use axum::Router;
use vstd::prelude::*;

verus! {

/// One registered feature under the identifier it was registered with.
struct Slot<F> {
    key: String,
    feature: F,
}

spec fn slot_ids<F>(slots: Seq<Slot<F>>) -> Seq<Seq<char>> {
    slots.map_values(|s: Slot<F>| s.key@)
}

spec fn slot_features<F>(slots: Seq<Slot<F>>) -> Seq<F> {
    slots.map_values(|s: Slot<F>| s.feature)
}

/// No identifier occurs twice.
pub open spec fn unique_ids(ids: Seq<Seq<char>>) -> bool {
    forall|i: int, j: int| 0 <= i < j < ids.len() ==> ids[i] != ids[j]
}

/// `i` is the first position of `id` in `ids`.
pub open spec fn first_slot(ids: Seq<Seq<char>>, id: Seq<char>, i: int) -> bool {
    &&& 0 <= i < ids.len()
    &&& ids[i] == id
    &&& forall|j: int| 0 <= j < i ==> ids[j] != id
}

/// The first slot whose key is `id`, if there is one.
fn find_slot<F>(slots: &Vec<Slot<F>>, id: &String) -> (r: Option<usize>)
    ensures
        match r {
            Some(i) => first_slot(slot_ids(slots@), id@, i as int),
            None => !slot_ids(slots@).contains(id@),
        },
{
    let mut i: usize = 0;
    while i < slots.len()
        invariant
            0 <= i <= slots@.len(),
            forall|j: int| 0 <= j < i ==> slot_ids(slots@)[j] != id@,
        decreases slots@.len() - i,
    {
        if slots[i].key == *id {
            return Some(i);
        }
        i += 1;
    }
    None
}

/// The feature in the first slot keyed `id`, if there is one.
fn slot_feature<'a, F>(slots: &'a Vec<Slot<F>>, id: &str) -> (r: Option<&'a F>)
    ensures
        match r {
            Some(f) => exists|i: int|
                first_slot(slot_ids(slots@), id@, i) && *f == #[trigger] slot_features(slots@)[i],
            None => !slot_ids(slots@).contains(id@),
        },
{
    let key: String = id.to_owned();
    match find_slot(slots, &key) {
        Some(i) => {
            assert(slot_features(slots@)[i as int] == slots@[i as int].feature);
            Some(&slots[i].feature)
        },
        None => None,
    }
}

/// Collects features before they are bound to a flag store; a feature added
/// under an identifier that is already taken replaces the earlier one.
pub struct SiteFeatureBuilder<F: SiteFeature> {
    slots: Vec<Slot<F>>,
}

impl<F: SiteFeature> SiteFeatureBuilder<F> {
    /// The identifiers, in the order in which they were first added.
    pub closed spec fn ids(&self) -> Seq<Seq<char>> {
        slot_ids(self.slots@)
    }

    /// The features, position by position with `ids`.
    pub closed spec fn features(&self) -> Seq<F> {
        slot_features(self.slots@)
    }

    /// No identifier is registered twice, and each has one feature.
    pub open spec fn wf(&self) -> bool {
        &&& unique_ids(self.ids())
        &&& self.features().len() == self.ids().len()
    }

    /// `post` is `pre` with `f` added: it takes the place of the feature
    /// registered under the same identifier, or else comes last.
    pub open spec fn added(pre: Self, post: Self, f: F) -> bool {
        &&& post.features().len() == post.ids().len()
        &&& if pre.ids().contains(f.id()) {
            &&& post.ids() == pre.ids()
            &&& forall|i: int|
                first_slot(pre.ids(), f.id(), i) ==> post.features() == pre.features().update(
                    i,
                    f,
                )
        } else {
            &&& post.ids() == pre.ids().push(f.id())
            &&& post.features() == pre.features().push(f)
        }
    }

    pub fn new() -> (r: Self)
        ensures
            r.ids() == Seq::<Seq<char>>::empty(),
            r.features() == Seq::<F>::empty(),
            r.wf(),
    {
        SiteFeatureBuilder { slots: Vec::new() }
    }

    pub fn add_feature(self, feature: F) -> (r: Self)
        ensures
            Self::added(self, r, feature),
            self.wf() ==> r.wf(),
    {
        let key: String = feature.get_id().to_owned();
        let mut b = self;
        match find_slot(&b.slots, &key) {
            Some(i) => {
                b.slots[i].feature = feature;
                proof {
                    assert(slot_ids(b.slots@) =~= slot_ids(self.slots@));
                    assert(slot_features(b.slots@) =~= slot_features(self.slots@).update(
                        i as int,
                        feature,
                    ));
                }
            },
            None => {
                b.slots.push(Slot { key, feature });
                proof {
                    assert(slot_ids(b.slots@) =~= slot_ids(self.slots@).push(feature.id()));
                    assert(slot_features(b.slots@) =~= slot_features(self.slots@).push(feature));
                }
            },
        }
        b
    }

    /// The feature registered under `id`, if any.
    pub fn get_feature(&self, id: &str) -> (r: Option<&F>)
        ensures
            match r {
                Some(f) => exists|i: int|
                    first_slot(self.ids(), id@, i) && *f == #[trigger] self.features()[i],
                None => !self.ids().contains(id@),
            },
    {
        let r = slot_feature(&self.slots, id);
        assert(self.features() == slot_features(self.slots@));
        r
    }

    /// Binds the collected features to a flag store.
    pub fn build<T: SiteFeatureStorage>(self, storage: T) -> (r: SiteFeatureSystem<T, F>)
        ensures
            r.ids() == self.ids(),
            r.features() == self.features(),
            r.store() == storage,
            self.wf() ==> r.wf(),
    {
        SiteFeatureSystem { storage, slots: self.slots }
    }
}

/// The registry: a flag store together with the features it switches on and
/// off. It is a flag store itself, one whose writes run the features' hooks.
pub struct SiteFeatureSystem<T: SiteFeatureStorage, F: SiteFeature> {
    storage: T,
    slots: Vec<Slot<F>>,
}

/// The routes of the first `n` features, each feature's routes under its
/// sub-path.
pub open spec fn composed_routes<F: SiteFeature>(fs: Seq<F>, n: nat) -> Set<Seq<char>>
    decreases n,
{
    if n == 0 || n > fs.len() {
        Set::empty()
    } else {
        let f = fs[n - 1];
        composed_routes(fs, (n - 1) as nat).union(
            f.routes().map(|q: Seq<char>| nested_path(f.subpath(), q)),
        )
    }
}

/// Every feature has a sub-path that can be mounted, and any two sub-paths
/// part, so that no route of one feature collides with a route of another.
pub open spec fn mounts_ok<F: SiteFeature>(fs: Seq<F>) -> bool {
    &&& forall|j: int| 0 <= j < fs.len() ==> mount_path_ok(#[trigger] fs[j].subpath())
    &&& forall|j: int, k: int|
        0 <= j < fs.len() && 0 <= k < fs.len() && j != k ==> apart(
            #[trigger] fs[j].subpath(),
            #[trigger] fs[k].subpath(),
        )
}

/// `p` is `s` itself, or `s` followed by a `/` and more.
spec fn mounted_under(p: Seq<char>, s: Seq<char>) -> bool {
    &&& has_prefix(p, s)
    &&& p.len() == s.len() || p[s.len() as int] == '/'
}

proof fn lemma_apart_extends(p: Seq<char>, s: Seq<char>, q: Seq<char>)
    requires
        mounted_under(p, s),
        apart(s, q),
    ensures
        apart(p, q),
{
    assert forall|j: int| 0 <= j < s.len() implies p[j] == #[trigger] s[j] by {
        assert(p.subrange(0, s.len() as int)[j] == p[j]);
    }
    if exists|i: int| parts_at(s, q, i) {
        let i = choose|i: int| parts_at(s, q, i);
        assert(p[i] == s[i]);
        assert forall|j: int| 0 <= j <= i implies literal_char(#[trigger] p[j]) && literal_char(
            q[j],
        ) by {
            assert(p[j] == s[j]);
        }
        assert(parts_at(p, q, i));
    } else if extends_in_segment(s, q) {
        if p.len() == s.len() {
            assert(p =~= s);
        } else {
            let i = s.len() as int;
            assert forall|j: int| 0 <= j <= i implies literal_char(#[trigger] p[j]) && literal_char(
                q[j],
            ) by {
                if j < i {
                    assert(p[j] == s[j]);
                    assert(q[j] == s[j]);
                }
            }
            assert(parts_at(p, q, i));
        }
    } else {
        assert(extends_in_segment(q, s));
        assert forall|j: int| 0 <= j <= q.len() implies literal_char(#[trigger] p[j]) by {
            assert(p[j] == s[j]);
        }
        assert forall|j: int| 0 <= j < q.len() implies #[trigger] p[j] == q[j] by {
            assert(p[j] == s[j]);
        }
        assert(p[q.len() as int] == s[q.len() as int]);
        assert(extends_in_segment(q, p));
    }
}

proof fn lemma_composed_mounted<F: SiteFeature>(fs: Seq<F>, n: nat)
    requires
        forall|j: int, q: Seq<char>|
            0 <= j < n && j < fs.len() && #[trigger] fs[j].routes().contains(q) ==> route_ok(q),
    ensures
        forall|p: Seq<char>|
            #[trigger] composed_routes(fs, n).contains(p) ==> exists|j: int|
                0 <= j < n && mounted_under(p, #[trigger] fs[j].subpath()),
    decreases n,
{
    if n == 0 || n > fs.len() {
    } else {
        lemma_composed_mounted(fs, (n - 1) as nat);
        let f = fs[n - 1];
        assert forall|p: Seq<char>| #[trigger] composed_routes(fs, n).contains(p) implies exists|
            j: int,
        | 0 <= j < n && mounted_under(p, #[trigger] fs[j].subpath()) by {
            if composed_routes(fs, (n - 1) as nat).contains(p) {
            } else {
                let q = choose|q: Seq<char>|
                    f.routes().contains(q) && nested_path(f.subpath(), q) == p;
                assert(route_ok(q));
                assert(p.subrange(0, f.subpath().len() as int) =~= f.subpath());
                assert(mounted_under(p, fs[n - 1].subpath()));
            }
        }
    }
}

impl<T: SiteFeatureStorage, F: SiteFeature> SiteFeatureSystem<T, F> {
    /// The identifiers of the registered features.
    pub closed spec fn ids(&self) -> Seq<Seq<char>> {
        slot_ids(self.slots@)
    }

    /// The registered features, position by position with `ids`.
    pub closed spec fn features(&self) -> Seq<F> {
        slot_features(self.slots@)
    }

    /// The underlying flag store.
    pub closed spec fn store(&self) -> T {
        self.storage
    }

    /// The registry holds a feature under `id`.
    pub open spec fn has(&self, id: Seq<char>) -> bool {
        self.ids().contains(id)
    }

    /// No identifier is registered twice.
    pub open spec fn wf(&self) -> bool {
        unique_ids(self.ids())
    }

    /// What a call `set_enabled(id, enabled)` returning `r` does to `pre`,
    /// giving `post`.
    ///  - When the stored flag already is `enabled`: nothing, and success.
    ///  - Otherwise, when no feature has the identifier: nothing, and
    ///    `DoesNotExist`.
    ///  - Otherwise the feature's `shutdown` (flag set) or `setup` (flag clear)
    ///    hook runs, and `finish_transition` takes its result: a failure is
    ///    returned with the store untouched and the feature's live state as it
    ///    was; a success writes the flag and returns success, with the live
    ///    state equal to `enabled`. The store's own answer to the write is not
    ///    passed on, so the flag is `enabled` where the store took the write
    ///    and unchanged where it refused it. Other features and other flags
    ///    are untouched.
    pub open spec fn toggled(
        pre: Self,
        post: Self,
        id: Seq<char>,
        enabled: bool,
        r: Result<(), FeatureError>,
    ) -> bool {
        if pre.flag(id) == enabled {
            r is Ok && post == pre
        } else if !pre.has(id) {
            r == Err::<(), FeatureError>(FeatureError::DoesNotExist) && post == pre
        } else {
            &&& post.ids() == pre.ids()
            &&& post.features().len() == pre.features().len()
            &&& forall|k: Seq<char>| k != id ==> #[trigger] post.flag(k) == pre.flag(k)
            &&& r is Ok ==> post.flag(id) == enabled || post.flag(id) == pre.flag(id)
            &&& r is Err ==> post.store() == pre.store()
            &&& forall|i: int|
                first_slot(pre.ids(), id, i) ==> {
                    &&& forall|j: int|
                        0 <= j < pre.features().len() && j != i ==> #[trigger] post.features()[j]
                            == pre.features()[j]
                    &&& r is Ok ==> post.features()[i].is_active() == enabled
                    &&& r is Err ==> post.features()[i].is_active() == pre.features()[i].is_active()
                }
        }
    }

    /// The step after a feature's hook has run with result `hook`: a failure
    /// is handed back as it came, with nothing written; a success writes
    /// `enabled` as the flag of `id` and returns success, whatever the store
    /// answers to the write.
    pub fn finish_transition(
        &mut self,
        id: &str,
        enabled: bool,
        hook: Result<(), FeatureError>,
    ) -> (r: Result<(), FeatureError>)
        ensures
            hook is Err ==> r == hook && *final(self) == *old(self),
            hook is Ok ==> {
                &&& r is Ok
                &&& final(self).ids() == old(self).ids()
                &&& final(self).features() == old(self).features()
                &&& final(self).flag(id@) == enabled || final(self).flag(id@) == old(self).flag(
                    id@,
                )
            },
            forall|k: Seq<char>| k != id@ ==> #[trigger] final(self).flag(k) == old(self).flag(k),
    {
        match hook {
            Err(e) => Err(e),
            Ok(()) => {
                let _written = self.storage.set_enabled(id, enabled);
                Ok(())
            },
        }
    }

    /// The feature registered under `id`, if any.
    pub fn get_feature(&self, id: &str) -> (r: Option<&F>)
        ensures
            match r {
                Some(f) => exists|i: int|
                    first_slot(self.ids(), id@, i) && *f == #[trigger] self.features()[i],
                None => !self.ids().contains(id@),
            },
    {
        let r = slot_feature(&self.slots, id);
        assert(self.features() == slot_features(self.slots@));
        r
    }

    /// The registered identifiers, in registration order.
    pub fn get_all_ids(&self) -> (r: Vec<&str>)
        ensures
            r@.len() == self.ids().len(),
            forall|i: int| 0 <= i < r@.len() ==> #[trigger] r@[i]@ == self.ids()[i],
    {
        let mut out: Vec<&str> = Vec::new();
        let mut i: usize = 0;
        while i < self.slots.len()
            invariant
                0 <= i <= self.slots@.len(),
                out@.len() == i,
                forall|j: int| 0 <= j < i ==> #[trigger] out@[j]@ == self.ids()[j],
            decreases self.slots@.len() - i,
        {
            out.push(self.slots[i].key.as_str());
            i += 1;
        }
        out
    }

    /// One router holding every registered feature's routes under its
    /// sub-path, whether the feature is enabled or not. axum refuses to mount
    /// at the root, at a path with `:` or `*` segments, or where routes
    /// collide, so each sub-path must be mountable and part from the others.
    pub fn get_router(&self) -> (r: Router)
        requires
            mounts_ok(self.features()),
        ensures
            route_paths(r) == composed_routes(self.features(), self.features().len()),
    {
        let ghost fs = self.features();
        let mut router = new_router();
        let mut i: usize = 0;
        while i < self.slots.len()
            invariant
                fs == self.features(),
                fs.len() == self.slots@.len(),
                mounts_ok(fs),
                0 <= i <= fs.len(),
                route_paths(router) == composed_routes(fs, i as nat),
                forall|j: int, q: Seq<char>|
                    0 <= j < i && #[trigger] fs[j].routes().contains(q) ==> route_ok(q),
            decreases fs.len() - i,
        {
            let feature = &self.slots[i].feature;
            assert(*feature == fs[i as int]);
            let feature_router = feature.get_router();
            let path = feature.get_subpath();
            proof {
                lemma_composed_mounted(fs, i as nat);
                assert forall|p: Seq<char>| route_paths(router).contains(p) implies apart(
                    p,
                    path@,
                ) by {
                    let j = choose|j: int| 0 <= j < i && mounted_under(p, #[trigger] fs[j].subpath());
                    assert(apart(fs[j].subpath(), fs[i as int].subpath()));
                    lemma_apart_extends(p, fs[j].subpath(), path@);
                }
            }
            router = nest_router(router, path, feature_router);
            i += 1;
        }
        router
    }
}

impl<T: SiteFeatureStorage, F: SiteFeature> SiteFeatureStorage for SiteFeatureSystem<T, F> {
    open spec fn flag(&self, id: Seq<char>) -> bool {
        self.store().flag(id)
    }

    /// The stored flag, whether or not a feature has the identifier.
    fn get_enabled(&self, id: &str) -> (r: bool) {
        self.storage.get_enabled(id)
    }

    /// Switches the feature `id` on or off, running its hook on a change.
    fn set_enabled(&mut self, id: &str, enabled: bool) -> (r: Result<(), FeatureError>)
        ensures
            Self::toggled(*old(self), *final(self), id@, enabled, r),
    {
        let prev = self.storage.get_enabled(id);
        if prev == enabled {
            return Ok(());
        }
        let key: String = id.to_owned();
        match find_slot(&self.slots, &key) {
            None => Err(FeatureError::DoesNotExist),
            Some(i) => {
                let ghost slots0 = self.slots@;
                let hook = if prev {
                    self.slots[i].feature.shutdown()
                } else {
                    self.slots[i].feature.setup()
                };
                proof {
                    assert(self.slots@ == slots0.update(
                        i as int,
                        Slot { key: slots0[i as int].key, feature: self.slots@[i as int].feature },
                    ));
                    assert(slot_ids(self.slots@) =~= slot_ids(slots0));
                    assert forall|j: int|
                        0 <= j < slots0.len() && j != i implies #[trigger] slot_features(
                        self.slots@,
                    )[j] == slot_features(slots0)[j] by {}
                }
                self.finish_transition(id, enabled, hook)
            },
        }
    }
}

} // verus!
