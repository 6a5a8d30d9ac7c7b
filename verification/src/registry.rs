use vstd::prelude::*;

verus! {

/// One registered route: a request path and the caller-chosen identifier
/// of the handler that serves it.
#[derive(Debug)]
pub struct RouteEntry {
    pub path: String,
    pub handler: u64,
}

impl RouteEntry {
    /// The mathematical value of an entry: its path's characters and its
    /// handler identifier.
    pub open spec fn model(self) -> (Seq<char>, u64) {
        (self.path@, self.handler)
    }
}

impl Clone for RouteEntry {
    fn clone(&self) -> (r: Self)
        ensures
            r.model() == self.model(),
    {
        RouteEntry { path: self.path.clone(), handler: self.handler }
    }
}

/// The mathematical value of a route table.
pub open spec fn model_of(routes: Seq<RouteEntry>) -> Seq<(Seq<char>, u64)> {
    routes.map_values(|e: RouteEntry| e.model())
}

/// A route table serves a path when some entry carries it.
pub open spec fn serves(routes: Seq<(Seq<char>, u64)>, path: Seq<char>) -> bool {
    exists|i: int| 0 <= i < routes.len() && (#[trigger] routes[i]).0 == path
}

/// The append-only route registry behind the serving entry points. A run
/// takes a snapshot of it; routes added afterwards are not seen by that
/// snapshot.
#[derive(Debug)]
pub struct RouterRegistry {
    pub routes: Vec<RouteEntry>,
}

impl RouterRegistry {
    /// A fresh registry holds exactly the liveness route, under handler
    /// identifier zero.
    pub fn new() -> (r: Self)
        ensures
            model_of(r.routes@) =~= seq![("/healthz"@, 0u64)],
    {
        let mut routes: Vec<RouteEntry> = Vec::new();
        routes.push(RouteEntry { path: "/healthz".to_owned(), handler: 0 });
        proof {
            assert(model_of(routes@) =~= seq![("/healthz"@, 0u64)]);
        }
        RouterRegistry { routes }
    }

    /// Append a route; every entry already present is kept unchanged.
    pub fn add_route(&mut self, path: String, handler: u64)
        ensures
            model_of(final(self).routes@) =~= model_of(old(self).routes@).push(
                (path@, handler),
            ),
    {
        let ghost before = self.routes@;
        self.routes.push(RouteEntry { path, handler });
        proof {
            assert(model_of(self.routes@) =~= model_of(before).push(
                (self.routes@[before.len() as int].path@, handler),
            ));
        }
    }

    /// A snapshot of the current route table: a fully formed copy that
    /// later additions to the registry do not touch.
    pub fn basic_router(&self) -> (r: Vec<RouteEntry>)
        ensures
            model_of(r@) =~= model_of(self.routes@),
    {
        let mut out: Vec<RouteEntry> = Vec::new();
        let mut i: usize = 0;
        while i < self.routes.len()
            invariant
                i <= self.routes@.len(),
                out@.len() == i,
                forall|j: int| 0 <= j < i ==> (#[trigger] out@[j]).model() == self.routes@[j].model(),
            decreases self.routes@.len() - i,
        {
            out.push(self.routes[i].clone());
            i = i + 1;
        }
        proof {
            assert forall|j: int| 0 <= j < out@.len() implies model_of(out@)[j] == model_of(
                self.routes@,
            )[j] by {
                assert(out@[j].model() == self.routes@[j].model());
            }
            assert(model_of(out@) =~= model_of(self.routes@));
        }
        out
    }
}

/// The handler for a path in a snapshot: the first entry carrying the
/// path, or nothing when no entry does.
pub fn find_route(routes: &Vec<RouteEntry>, path: &String) -> (r: Option<u64>)
    ensures
        r is Some <==> serves(model_of(routes@), path@),
        r is Some ==> exists|i: int|
            0 <= i < routes@.len() && (#[trigger] routes@[i]).path@ == path@ && r->0
                == routes@[i].handler && (forall|j: int|
                0 <= j < i ==> routes@[j].path@ != path@),
{
    let mut i: usize = 0;
    while i < routes.len()
        invariant
            i <= routes@.len(),
            forall|j: int| 0 <= j < i ==> (#[trigger] routes@[j]).path@ != path@,
        decreases routes@.len() - i,
    {
        if routes[i].path == *path {
            proof {
                assert((model_of(routes@)[i as int]).0 == path@);
            }
            return Some(routes[i].handler);
        }
        i = i + 1;
    }
    proof {
        assert(forall|k: int| 0 <= k < routes@.len() ==> (model_of(routes@)[k]).0 != path@);
    }
    None
}

/// Every route that was added to a table is served by that table: a
/// snapshot taken after N additions serves all N routes.
pub proof fn lemma_serves_all_added(routes: Seq<(Seq<char>, u64)>)
    ensures
        forall|i: int| 0 <= i < routes.len() ==> serves(routes, (#[trigger] routes[i]).0),
{
    assert forall|i: int| 0 <= i < routes.len() implies serves(routes, (#[trigger] routes[i]).0) by {
        assert(0 <= i < routes.len() && routes[i].0 == routes[i].0);
    }
}

/// Appending a route never stops an already served path from being
/// served, and the appended path is served afterwards; a path the
/// snapshot did not serve is still not served by that old snapshot.
pub proof fn lemma_add_route_serves(routes: Seq<(Seq<char>, u64)>, path: Seq<char>, handler: u64)
    ensures
        serves(routes.push((path, handler)), path),
        forall|q: Seq<char>| serves(routes, q) ==> serves(routes.push((path, handler)), q),
{
    let bigger = routes.push((path, handler));
    assert(bigger[routes.len() as int] == (path, handler));
    assert forall|q: Seq<char>| serves(routes, q) implies serves(bigger, q) by {
        let i = choose|i: int| 0 <= i < routes.len() && (#[trigger] routes[i]).0 == q;
        assert(bigger[i] == routes[i]);
    }
}

} // verus!
