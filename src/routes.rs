use axum::Router;
use vstd::prelude::*;

verus! {

/// axum's `Router`, carried through opaquely; what it holds is told by
/// `route_paths`.
#[verifier::external_type_specification]
#[verifier::external_body]
#[verifier::reject_recursive_types(S)]
pub struct ExRouter<S>(axum::Router<S>);

/// The paths of the routes that a router holds, those added by `route` or by
/// nesting (its fallback is not counted).
pub uninterp spec fn route_paths(r: Router) -> Set<Seq<char>>;

/// A character that axum reads literally in a path.
pub open spec fn literal_char(c: char) -> bool {
    c != '{' && c != '}' && c != '*' && c != ':'
}

/// A path at which a feature's routes can be mounted: it starts with `/`, is
/// not the root, has no trailing `/`, and is made of literal characters only.
pub open spec fn mount_path_ok(p: Seq<char>) -> bool {
    &&& p.len() >= 2
    &&& p[0] == '/'
    &&& p[p.len() - 1] != '/'
    &&& forall|i: int| 0 <= i < p.len() ==> literal_char(#[trigger] p[i])
}

/// A route path as axum accepts it: it starts with `/`, and no segment starts
/// with `:` or `*`.
pub open spec fn route_ok(q: Seq<char>) -> bool {
    &&& q.len() >= 1
    &&& q[0] == '/'
    &&& forall|i: int|
        1 <= i < q.len() && (#[trigger] q[i] == ':' || q[i] == '*') ==> q[i - 1] != '/'
}

/// `p` and `q` agree and are literal before position `i`, are literal at `i`,
/// and differ there.
pub open spec fn parts_at(p: Seq<char>, q: Seq<char>, i: int) -> bool {
    &&& 0 <= i < p.len()
    &&& i < q.len()
    &&& p[i] != q[i]
    &&& forall|j: int| 0 <= j <= i ==> literal_char(#[trigger] p[j]) && literal_char(q[j])
}

/// `q` goes on past `p` within `p`'s last segment: `q` starts with `p`, the
/// next character of `q` is not `/`, and `q` is literal up to it.
pub open spec fn extends_in_segment(p: Seq<char>, q: Seq<char>) -> bool {
    &&& p.len() < q.len()
    &&& forall|j: int| 0 <= j < p.len() ==> #[trigger] q[j] == p[j]
    &&& q[p.len() as int] != '/'
    &&& forall|j: int| 0 <= j <= p.len() ==> literal_char(#[trigger] q[j])
}

/// Two paths part at a literal character after a common literal prefix, or
/// one goes on past the other within a segment, so that no route under one
/// conflicts with a route under the other.
pub open spec fn apart(p: Seq<char>, q: Seq<char>) -> bool {
    ||| exists|i: int| parts_at(p, q, i)
    ||| extends_in_segment(p, q)
    ||| extends_in_segment(q, p)
}

/// Where a route `q` of a router nested at `prefix` ends up.
pub open spec fn nested_path(prefix: Seq<char>, q: Seq<char>) -> Seq<char> {
    if q == seq!['/'] {
        prefix
    } else {
        prefix + q
    }
}

/// `p` starts with `prefix`.
pub open spec fn has_prefix(p: Seq<char>, prefix: Seq<char>) -> bool {
    prefix.len() <= p.len() && p.subrange(0, prefix.len() as int) == prefix
}

/// Relies on axum's `Router::new`: a router without routes.
#[verifier::external_body]
pub(crate) fn new_router() -> (r: Router)
    ensures
        route_paths(r) == Set::<Seq<char>>::empty(),
{
    Router::new()
}

/// Relies on axum's `Router::nest`: every route of `sub` is added under
/// `path`. It panics on an empty or root path, on a path with `:` or `*`
/// segments or a wildcard, and when a nested route conflicts with one that is
/// already there; the path conditions and the parting of `path` from every
/// route already present rule those out.
#[verifier::external_body]
pub(crate) fn nest_router(r: Router, path: &str, sub: Router) -> (res: Router)
    requires
        mount_path_ok(path@),
        forall|p: Seq<char>| route_paths(r).contains(p) ==> apart(p, path@),
        forall|q: Seq<char>| route_paths(sub).contains(q) ==> route_ok(q),
    ensures
        route_paths(res) == route_paths(r).union(
            route_paths(sub).map(|q: Seq<char>| nested_path(path@, q)),
        ),
{
    r.nest(path, sub)
}

} // verus!
