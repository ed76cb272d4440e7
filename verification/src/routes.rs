//! The route table: which handler a request is dispatched to.
//!
//! The index and the proxy routes are the primary routes. A request whose path
//! no route knows goes to the fallback handler; one whose path is known, but not
//! with its method, is answered "method not allowed" and reaches no handler.

use vstd::prelude::*;

verus! {

/// The method of a request.
#[derive(Clone, Copy, Debug, PartialEq, Eq, Structural)]
pub enum Method {
    Get,
    Head,
    Post,
    Put,
    Delete,
    Connect,
    Options,
    Trace,
    Patch,
}

/// The route group that contributed a route.
#[derive(Clone, Copy, Debug, PartialEq, Eq, Structural)]
pub enum Group {
    Index,
    Proxy,
}

/// Where a request ends up.
#[derive(Clone, Copy, Debug, PartialEq, Eq, Structural)]
pub enum Target {
    /// A route of this group serves the request.
    Handler(Group),
    /// A route knows the path, but none serves it with this method.
    MethodNotAllowed,
    /// No route knows the path.
    Fallback,
}

/// The paths that a route answers.
#[derive(Clone, Debug, PartialEq, Eq)]
pub enum Pattern {
    /// This path and no other.
    Exact(Vec<u8>),
    /// Every path that starts with these bytes.
    Prefix(Vec<u8>),
}

/// One entry of the route table.
#[derive(Clone, Debug, PartialEq, Eq)]
pub struct Route {
    pub method: Method,
    pub pattern: Pattern,
    pub group: Group,
}

/// Two routes that would both serve some request.
#[derive(Clone, Copy, Debug, PartialEq, Eq, Structural)]
pub struct Clash {
    /// The index of the route in the table, or in the first table of a merge.
    pub present: usize,
    /// The index of the route in the second table of a merge; 0 for a single
    /// route that was to be inserted.
    pub added: usize,
}

impl Pattern {
    /// Whether the pattern answers `path`.
    pub open spec fn matches(&self, path: Seq<u8>) -> bool {
        match self {
            Pattern::Exact(p) => path == p@,
            Pattern::Prefix(p) => p@.is_prefix_of(path),
        }
    }

    /// Whether some path is answered by both patterns.
    pub open spec fn overlaps(&self, other: &Pattern) -> bool {
        exists|path: Seq<u8>| self.matches(path) && other.matches(path)
    }

    /// Whether the pattern answers `path`.
    pub fn matches_path(&self, path: &[u8]) -> (hit: bool)
        ensures
            hit == self.matches(path@),
    {
        match self {
            Pattern::Exact(p) => same_bytes(path, p.as_slice()),
            Pattern::Prefix(p) => starts_with(path, p.as_slice()),
        }
    }

    /// Whether some path is answered by both patterns.
    pub fn overlaps_with(&self, other: &Pattern) -> (hit: bool)
        ensures
            hit == self.overlaps(other),
    {
        match (self, other) {
            (Pattern::Exact(a), Pattern::Exact(b)) => {
                let hit = same_bytes(a.as_slice(), b.as_slice());
                proof {
                    if hit {
                        assert(self.matches(a@) && other.matches(a@));
                    }
                }
                hit
            },
            (Pattern::Exact(a), Pattern::Prefix(p)) => {
                let hit = starts_with(a.as_slice(), p.as_slice());
                proof {
                    if hit {
                        assert(self.matches(a@) && other.matches(a@));
                    }
                }
                hit
            },
            (Pattern::Prefix(p), Pattern::Exact(a)) => {
                let hit = starts_with(a.as_slice(), p.as_slice());
                proof {
                    if hit {
                        assert(self.matches(a@) && other.matches(a@));
                    }
                }
                hit
            },
            (Pattern::Prefix(p), Pattern::Prefix(q)) => {
                let hit = starts_with(p.as_slice(), q.as_slice()) || starts_with(
                    q.as_slice(),
                    p.as_slice(),
                );
                proof {
                    if q@.is_prefix_of(p@) {
                        assert(self.matches(p@) && other.matches(p@));
                    } else if p@.is_prefix_of(q@) {
                        assert(self.matches(q@) && other.matches(q@));
                    } else {
                        assert forall|path: Seq<u8>|
                            !(p@.is_prefix_of(path) && q@.is_prefix_of(path)) by {
                            if p@.is_prefix_of(path) && q@.is_prefix_of(path) {
                                lemma_prefixes_of_one_path(p@, q@, path);
                            }
                        }
                    }
                }
                hit
            },
        }
    }
}

impl Route {
    /// Whether this route serves a request with `method` for `path`.
    pub open spec fn serves(&self, method: Method, path: Seq<u8>) -> bool {
        self.method == method && self.pattern.matches(path)
    }

    /// Whether some request is served by both routes.
    pub open spec fn clashes(&self, other: &Route) -> bool {
        self.method == other.method && self.pattern.overlaps(&other.pattern)
    }

    /// Whether some request is served by both routes.
    pub fn clashes_with(&self, other: &Route) -> (hit: bool)
        ensures
            hit == self.clashes(other),
    {
        self.method == other.method && self.pattern.overlaps_with(&other.pattern)
    }
}

/// Of two prefixes of one path, the shorter is a prefix of the longer.
proof fn lemma_prefixes_of_one_path(p: Seq<u8>, q: Seq<u8>, path: Seq<u8>)
    requires
        p.is_prefix_of(path),
        q.is_prefix_of(path),
    ensures
        p.is_prefix_of(q) || q.is_prefix_of(p),
{
    if p.len() <= q.len() {
        assert forall|i: int| 0 <= i < p.len() implies p[i] == q[i] by {
            assert(p[i] == path.subrange(0, p.len() as int)[i]);
            assert(q[i] == path.subrange(0, q.len() as int)[i]);
        }
        assert(p =~= q.subrange(0, p.len() as int));
    } else {
        assert forall|i: int| 0 <= i < q.len() implies p[i] == q[i] by {
            assert(p[i] == path.subrange(0, p.len() as int)[i]);
            assert(q[i] == path.subrange(0, q.len() as int)[i]);
        }
        assert(q =~= p.subrange(0, q.len() as int));
    }
}

/// Whether `path` starts with the bytes of `prefix`.
pub fn starts_with(path: &[u8], prefix: &[u8]) -> (hit: bool)
    ensures
        hit == prefix@.is_prefix_of(path@),
{
    if prefix.len() > path.len() {
        return false;
    }
    let mut i: usize = 0;
    while i < prefix.len()
        invariant
            i <= prefix.len() <= path.len(),
            forall|k: int| 0 <= k < i ==> prefix@[k] == path@[k],
        decreases prefix.len() - i,
    {
        if prefix[i] != path[i] {
            proof {
                assert(path@.subrange(0, prefix@.len() as int)[i as int] == path@[i as int]);
            }
            return false;
        }
        i = i + 1;
    }
    proof {
        assert(prefix@ =~= path@.subrange(0, prefix@.len() as int));
    }
    true
}

/// Whether the two hold the same bytes.
pub fn same_bytes(a: &[u8], b: &[u8]) -> (same: bool)
    ensures
        same == (a@ == b@),
{
    if a.len() != b.len() {
        return false;
    }
    let hit = starts_with(a, b);
    proof {
        if hit {
            assert(a@.subrange(0, b@.len() as int) =~= a@);
        } else if a@ == b@ {
            assert(b@ =~= a@.subrange(0, b@.len() as int));
        }
    }
    hit
}

/// No two routes of the sequence would serve the same request.
pub open spec fn disjoint(routes: Seq<Route>) -> bool {
    forall|i: int, j: int|
        0 <= i < j < routes.len() ==> !#[trigger] routes[i].clashes(&routes[j])
}

/// `i` is the first route of the sequence that serves the request.
pub open spec fn first_serving(routes: Seq<Route>, i: int, method: Method, path: Seq<u8>) -> bool {
    &&& 0 <= i < routes.len()
    &&& routes[i].serves(method, path)
    &&& forall|j: int| 0 <= j < i ==> !(#[trigger] routes[j]).serves(method, path)
}

/// Some route of the sequence knows the path, with whatever method.
pub open spec fn path_known(routes: Seq<Route>, path: Seq<u8>) -> bool {
    exists|i: int| 0 <= i < routes.len() && (#[trigger] routes[i]).pattern.matches(path)
}

/// Where a request with `method` for `path` ends up: at the first route that
/// serves it; without one, at "method not allowed" if its path is known, and at
/// the fallback if not.
pub open spec fn target_of(routes: Seq<Route>, method: Method, path: Seq<u8>) -> Target {
    if exists|i: int| first_serving(routes, i, method, path) {
        Target::Handler(routes[choose|i: int| first_serving(routes, i, method, path)].group)
    } else if path_known(routes, path) {
        Target::MethodNotAllowed
    } else {
        Target::Fallback
    }
}

/// The merged routes of all groups. No two of its routes clash.
pub struct RouteTable {
    routes: Vec<Route>,
}

impl View for RouteTable {
    type V = Seq<Route>;

    closed spec fn view(&self) -> Seq<Route> {
        self.routes@
    }
}

impl RouteTable {
    /// The invariant of a table: its routes are disjoint.
    pub open spec fn wf(&self) -> bool {
        disjoint(self@)
    }

    /// A table without routes: every request goes to the fallback.
    pub fn new() -> (table: RouteTable)
        ensures
            table.wf(),
            table@ == Seq::<Route>::empty(),
    {
        RouteTable { routes: Vec::new() }
    }

    /// The number of routes.
    pub fn len(&self) -> (n: usize)
        ensures
            n == self@.len(),
    {
        self.routes.len()
    }

    /// The first route of the table that clashes with `route`, if there is one.
    pub fn find_clash(&self, route: &Route) -> (found: Option<usize>)
        ensures
            match found {
                Some(i) => {
                    &&& i < self@.len()
                    &&& self@[i as int].clashes(route)
                    &&& forall|k: int| 0 <= k < i ==> !(#[trigger] self@[k]).clashes(route)
                },
                None => forall|k: int| 0 <= k < self@.len() ==> !(#[trigger] self@[k]).clashes(route),
            },
    {
        let mut i: usize = 0;
        while i < self.routes.len()
            invariant
                i <= self.routes.len(),
                forall|k: int| 0 <= k < i ==> !(#[trigger] self.routes@[k]).clashes(route),
            decreases self.routes.len() - i,
        {
            if self.routes[i].clashes_with(route) {
                return Some(i);
            }
            i = i + 1;
        }
        None
    }

    /// Adds `route` behind the others, unless it clashes with one of them: then
    /// the table stays as it is and the first such route is reported.
    pub fn insert(&mut self, route: Route) -> (done: Result<(), Clash>)
        requires
            old(self).wf(),
        ensures
            final(self).wf(),
            match done {
                Ok(_) => {
                    &&& final(self)@ == old(self)@.push(route)
                    &&& forall|k: int|
                        0 <= k < old(self)@.len() ==> !(#[trigger] old(self)@[k]).clashes(&route)
                },
                Err(clash) => {
                    &&& final(self)@ == old(self)@
                    &&& clash.added == 0
                    &&& clash.present < old(self)@.len()
                    &&& old(self)@[clash.present as int].clashes(&route)
                    &&& forall|k: int|
                        0 <= k < clash.present ==> !(#[trigger] old(self)@[k]).clashes(&route)
                },
            },
    {
        match self.find_clash(&route) {
            Some(i) => Err(Clash { present: i, added: 0 }),
            None => {
                self.routes.push(route);
                Ok(())
            },
        }
    }

    /// Puts the routes of `other` behind those of `self`, unless a route of the
    /// one clashes with a route of the other: then the first such pair is
    /// reported, going through `other` route by route.
    pub fn merge(self, other: RouteTable) -> (merged: Result<RouteTable, Clash>)
        requires
            self.wf(),
            other.wf(),
        ensures
            match merged {
                Ok(table) => {
                    &&& table.wf()
                    &&& table@ == self@ + other@
                    &&& forall|i: int, j: int|
                        0 <= i < self@.len() && 0 <= j < other@.len() ==> !#[trigger] self@[i].clashes(
                            &other@[j],
                        )
                },
                Err(clash) => {
                    &&& clash.present < self@.len()
                    &&& clash.added < other@.len()
                    &&& self@[clash.present as int].clashes(&other@[clash.added as int])
                    &&& forall|i: int|
                        0 <= i < clash.present ==> !#[trigger] self@[i].clashes(
                            &other@[clash.added as int],
                        )
                    &&& forall|i: int, j: int|
                        0 <= i < self@.len() && 0 <= j < clash.added ==> !#[trigger] self@[i].clashes(
                            &other@[j],
                        )
                },
            },
    {
        let mut j: usize = 0;
        while j < other.routes.len()
            invariant
                j <= other.routes.len(),
                forall|i: int, k: int|
                    0 <= i < self@.len() && 0 <= k < j ==> !#[trigger] self@[i].clashes(&other@[k]),
            decreases other.routes.len() - j,
        {
            match self.find_clash(&other.routes[j]) {
                Some(i) => {
                    return Err(Clash { present: i, added: j });
                },
                None => {},
            }
            j = j + 1;
        }
        let ghost first = self@;
        let ghost second = other@;
        let mut routes = self.routes;
        let mut more = other.routes;
        routes.append(&mut more);
        proof {
            let all = routes@;
            assert(all == first + second);
            assert forall|i: int, k: int| 0 <= i < k < all.len() implies !#[trigger] all[i].clashes(
                &all[k],
            ) by {
                if k < first.len() {
                    assert(!first[i].clashes(&first[k]));
                } else if i < first.len() {
                    assert(!first[i].clashes(&second[k - first.len()]));
                } else {
                    assert(!second[i - first.len()].clashes(&second[k - first.len()]));
                }
            }
        }
        Ok(RouteTable { routes })
    }

    /// Where a request with `method` for `path` is dispatched to.
    pub fn dispatch(&self, method: Method, path: &[u8]) -> (target: Target)
        ensures
            target == target_of(self@, method, path@),
    {
        let mut known: bool = false;
        let mut i: usize = 0;
        while i < self.routes.len()
            invariant
                i <= self.routes.len(),
                forall|k: int| 0 <= k < i ==> !(#[trigger] self.routes@[k]).serves(method, path@),
                known == (exists|k: int|
                    0 <= k < i && (#[trigger] self.routes@[k]).pattern.matches(path@)),
            decreases self.routes.len() - i,
        {
            if self.routes[i].pattern.matches_path(path) {
                if self.routes[i].method == method {
                    proof {
                        assert(first_serving(self@, i as int, method, path@));
                        lemma_first_serving_is_unique(self@, method, path@);
                    }
                    return Target::Handler(self.routes[i].group);
                }
                known = true;
            }
            i = i + 1;
        }
        proof {
            assert(forall|k: int| !first_serving(self@, k, method, path@));
        }
        if known {
            Target::MethodNotAllowed
        } else {
            Target::Fallback
        }
    }
}

/// At most one index is that of the first serving route.
pub proof fn lemma_first_serving_is_unique(routes: Seq<Route>, method: Method, path: Seq<u8>)
    ensures
        forall|i: int, j: int|
            first_serving(routes, i, method, path) && first_serving(routes, j, method, path)
                ==> i == j,
{
    assert forall|i: int, j: int|
        first_serving(routes, i, method, path) && first_serving(routes, j, method, path) implies i
        == j by {
        if i < j {
            assert(!routes[i].serves(method, path));
        } else if j < i {
            assert(!routes[j].serves(method, path));
        }
    }
}

} // verus!
