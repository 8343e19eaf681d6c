//! Properties of the builder and the registry that hold across calls.

use crate::error::FeatureError;
use crate::feature::{SiteFeature, SiteFeatureStorage};
use crate::routes::nested_path;
use crate::system::{composed_routes, first_slot, SiteFeatureBuilder, SiteFeatureSystem};
use vstd::prelude::*;

verus! {

/// Asking twice in a row for the same state runs at most one hook: once a
/// call has succeeded, or has found no feature under the identifier, the
/// same call again returns the same and changes nothing. A success counts
/// here only where the store took the write it was asked for.
pub proof fn lemma_repeat_is_noop<T: SiteFeatureStorage, F: SiteFeature>(
    s0: SiteFeatureSystem<T, F>,
    s1: SiteFeatureSystem<T, F>,
    s2: SiteFeatureSystem<T, F>,
    id: Seq<char>,
    enabled: bool,
    r1: Result<(), FeatureError>,
    r2: Result<(), FeatureError>,
)
    requires
        SiteFeatureSystem::toggled(s0, s1, id, enabled, r1),
        SiteFeatureSystem::toggled(s1, s2, id, enabled, r2),
        r1 is Ok || !s0.has(id),
        s0.flag(id) != enabled ==> s1.flag(id) != s0.flag(id) || r1 is Err,
    ensures
        r2 is Ok <==> r1 is Ok,
        r1 is Err ==> r2 == r1,
        s2 == s1,
{
}

/// After a successful `set_enabled(id, v)` the stored flag of `id` is `v`,
/// where the store took the write it was asked for (a write that the store
/// refuses is not reported by the registry).
pub proof fn lemma_success_sets_flag<T: SiteFeatureStorage, F: SiteFeature>(
    s0: SiteFeatureSystem<T, F>,
    s1: SiteFeatureSystem<T, F>,
    id: Seq<char>,
    enabled: bool,
    r: Result<(), FeatureError>,
)
    requires
        SiteFeatureSystem::toggled(s0, s1, id, enabled, r),
        r is Ok,
        s0.flag(id) != enabled ==> s1.flag(id) != s0.flag(id),
    ensures
        s1.flag(id) == enabled,
{
}

/// Enabling an identifier that no feature has, while its flag is clear,
/// fails with `DoesNotExist` and leaves the flag clear.
pub proof fn lemma_enable_unknown_fails<T: SiteFeatureStorage, F: SiteFeature>(
    s0: SiteFeatureSystem<T, F>,
    s1: SiteFeatureSystem<T, F>,
    id: Seq<char>,
    r: Result<(), FeatureError>,
)
    requires
        SiteFeatureSystem::toggled(s0, s1, id, true, r),
        !s0.has(id),
        !s0.flag(id),
    ensures
        r == Err::<(), FeatureError>(FeatureError::DoesNotExist),
        !s1.flag(id),
        s1 == s0,
{
}

/// Disabling an identifier whose flag is already clear succeeds and changes
/// nothing, whether or not a feature has it.
pub proof fn lemma_disable_cleared_is_noop<T: SiteFeatureStorage, F: SiteFeature>(
    s0: SiteFeatureSystem<T, F>,
    s1: SiteFeatureSystem<T, F>,
    id: Seq<char>,
    r: Result<(), FeatureError>,
)
    requires
        SiteFeatureSystem::toggled(s0, s1, id, false, r),
        !s0.flag(id),
    ensures
        r is Ok,
        s1 == s0,
{
}

/// A failed `set_enabled` leaves the stored flag as it was.
pub proof fn lemma_failure_keeps_flag<T: SiteFeatureStorage, F: SiteFeature>(
    s0: SiteFeatureSystem<T, F>,
    s1: SiteFeatureSystem<T, F>,
    id: Seq<char>,
    enabled: bool,
    r: Result<(), FeatureError>,
)
    requires
        SiteFeatureSystem::toggled(s0, s1, id, enabled, r),
        r is Err,
    ensures
        s1.flag(id) == s0.flag(id),
{
}

/// Adding two features under one identifier keeps only the second: the
/// identifier occurs once, and the feature under it is the second one.
pub proof fn lemma_last_added_wins<F: SiteFeature>(
    b0: SiteFeatureBuilder<F>,
    b1: SiteFeatureBuilder<F>,
    b2: SiteFeatureBuilder<F>,
    first: F,
    second: F,
)
    requires
        b0.wf(),
        SiteFeatureBuilder::added(b0, b1, first),
        SiteFeatureBuilder::added(b1, b2, second),
        first.id() == second.id(),
    ensures
        b2.wf(),
        b2.ids() == b1.ids(),
        b2.ids().contains(second.id()),
        forall|i: int| first_slot(b2.ids(), second.id(), i) ==> b2.features()[i] == second,
{
    let id = first.id();
    if b0.ids().contains(id) {
        assert(b1.ids() == b0.ids());
    } else {
        assert(b1.ids() == b0.ids().push(id));
        assert(b1.ids()[b0.ids().len() as int] == id);
        assert(forall|i: int, j: int|
            0 <= i < j < b1.ids().len() ==> b1.ids()[i] != b1.ids()[j]);
    }
    assert(b1.ids().contains(id));
    let k = choose|k: int| 0 <= k < b1.ids().len() && b1.ids()[k] == id;
    assert forall|i: int| first_slot(b2.ids(), second.id(), i) implies b2.features()[i]
        == second by {
        assert(b2.features() == b1.features().update(i, second));
    }
    assert(b2.ids()[k] == id);
}

/// Every route of every registered feature appears in the composed routes,
/// under the feature's sub-path; the stored flags play no part.
pub proof fn lemma_routes_cover_features<F: SiteFeature>(fs: Seq<F>, j: int, q: Seq<char>)
    requires
        0 <= j < fs.len(),
        fs[j].routes().contains(q),
    ensures
        composed_routes(fs, fs.len()).contains(nested_path(fs[j].subpath(), q)),
{
    lemma_composed_grows(fs, (j + 1) as nat, fs.len());
    let f = fs[j];
    assert(f.routes().map(|q: Seq<char>| nested_path(f.subpath(), q)).contains(
        nested_path(f.subpath(), q),
    ));
}

proof fn lemma_composed_grows<F: SiteFeature>(fs: Seq<F>, m: nat, n: nat)
    requires
        m <= n <= fs.len(),
    ensures
        composed_routes(fs, m).subset_of(composed_routes(fs, n)),
    decreases n,
{
    if m < n {
        lemma_composed_grows(fs, m, (n - 1) as nat);
    }
}

} // verus!
