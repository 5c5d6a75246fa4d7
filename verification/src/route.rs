//! Routes and the table that maps them to handlers.

use crate::assoc::{
    as_map, distinct_keys, key_index, lemma_distinct_len, lemma_key_index_unique, lemma_put, put,
};
use crate::method::HTTPMethod;
use vstd::prelude::*;
use vstd::string::*;

verus! {

/// A method and a normalized path: the key under which a handler is
/// registered and looked up.
#[derive(Debug, Eq, PartialOrd, Ord, Hash)]
pub struct Route {
    pub method: HTTPMethod,
    pub location: String,
}

/// The mathematical content of a route.
pub struct RouteView {
    pub method: HTTPMethod,
    pub location: Seq<char>,
}

impl View for Route {
    type V = RouteView;

    open spec fn view(&self) -> RouteView {
        RouteView { method: self.method, location: self.location@ }
    }
}

impl PartialEq for Route {
    fn eq(&self, other: &Route) -> (r: bool) {
        self.method == other.method && self.location == other.location
    }
}

impl vstd::std_specs::cmp::PartialEqSpecImpl for Route {
    open spec fn obeys_eq_spec() -> bool {
        true
    }

    open spec fn eq_spec(&self, other: &Route) -> bool {
        self@ == other@
    }
}

/// `path` without its trailing slashes. A path of one character is left
/// alone, so `/` stays `/`, and a path made of slashes only becomes `/`.
pub open spec fn normalized_path(path: Seq<char>) -> Seq<char>
    decreases path.len(),
{
    if path.len() > 1 && path.last() == '/' {
        normalized_path(path.drop_last())
    } else {
        path
    }
}

/// Normalizing keeps the first `end` characters when everything after them
/// is a slash and the last one kept is not, or is the only one.
pub proof fn lemma_normalized_path(path: Seq<char>, end: int)
    requires
        0 <= end <= path.len(),
        path.len() > 0 ==> end > 0,
        end > 1 ==> path[end - 1] != '/',
        forall|j: int| end <= j < path.len() ==> path[j] == '/',
    ensures
        normalized_path(path) == path.take(end),
    decreases path.len() - end,
{
    if end < path.len() {
        lemma_normalized_path(path.drop_last(), end);
    }
}

/// A slash added to the end of a path that is not empty does not change
/// what the path normalizes to.
pub proof fn lemma_trailing_slash_ignored(path: Seq<char>)
    requires
        path.len() > 0,
    ensures
        normalized_path(path.push('/')) == normalized_path(path),
{
    assert(path.push('/').drop_last() =~= path);
}

/// Any number of slashes added to the end of a path that is not empty
/// leaves what the path normalizes to unchanged: `/foo`, `/foo/` and
/// `/foo///` all name the same route.
pub proof fn lemma_trailing_slashes_ignored(path: Seq<char>, count: nat)
    requires
        path.len() > 0,
    ensures
        normalized_path(path + Seq::new(count, |i: int| '/')) == normalized_path(path),
    decreases count,
{
    let slashes = Seq::new(count, |i: int| '/');
    if count == 0 {
        assert(path + slashes =~= path);
    } else {
        let fewer = Seq::new((count - 1) as nat, |i: int| '/');
        assert(path + slashes =~= (path + fewer).push('/'));
        lemma_trailing_slash_ignored(path + fewer);
        lemma_trailing_slashes_ignored(path, (count - 1) as nat);
    }
}

/// A normalized path ends in a slash only if it is the single slash, and
/// normalizing it again changes nothing.
pub proof fn lemma_normalized_path_is_normal(path: Seq<char>)
    ensures
        normalized_path(path).len() > 1 ==> normalized_path(path).last() != '/',
        normalized_path(normalized_path(path)) == normalized_path(path),
        normalized_path(path).len() <= path.len(),
        path.len() > 0 ==> normalized_path(path).len() > 0,
    decreases path.len(),
{
    if path.len() > 1 && path.last() == '/' {
        lemma_normalized_path_is_normal(path.drop_last());
    }
}

/// Strips the trailing slashes from a request path.
pub fn normalize_path<'a>(path: &'a str) -> (r: &'a str)
    ensures
        r@ == normalized_path(path@),
{
    let len = path.unicode_len();
    let mut keep: usize = 0;
    let mut i: usize = 0;
    for c in it: path.chars()
        invariant
            it.seq() == path@,
            len == path@.len(),
            i == it.index(),
            keep <= i,
            keep > 0 ==> path@[keep - 1] != '/',
            forall|j: int| keep <= j < i ==> path@[j] == '/',
    {
        if c != '/' {
            keep = i + 1;
        }
        i += 1;
    }
    let end = if keep == 0 && len > 0 {
        1
    } else {
        keep
    };
    proof {
        lemma_normalized_path(path@, end as int);
    }
    path.substring_char(0, end)
}

/// The routes of a server and the handler of each.
///
/// The table holds each route at most once. `H` is the type of the
/// handlers; the table itself never calls one.
pub struct RouteTable<H> {
    entries: Vec<(Route, H)>,
}

impl<H> View for RouteTable<H> {
    type V = Map<RouteView, H>;

    open spec fn view(&self) -> Map<RouteView, H> {
        as_map(self.entries())
    }
}

impl<H> RouteTable<H> {
    /// The registered routes with their handlers, in the order in which the
    /// routes were first registered.
    pub closed spec fn entries(&self) -> Seq<(RouteView, H)> {
        self.entries@.map_values(|e: (Route, H)| (e.0@, e.1))
    }

    #[verifier::type_invariant]
    closed spec fn well_formed(&self) -> bool {
        distinct_keys(self.entries())
    }

    /// A table without routes.
    pub fn new() -> (table: RouteTable<H>)
        ensures
            table.entries() == Seq::<(RouteView, H)>::empty(),
            table@ == Map::<RouteView, H>::empty(),
    {
        RouteTable { entries: Vec::new() }
    }

    /// The number of routes. No two entries share a route.
    pub fn len(&self) -> (n: usize)
        ensures
            n == self.entries().len(),
            n == self@.len(),
            distinct_keys(self.entries()),
    {
        proof {
            use_type_invariant(self);
            lemma_distinct_len(self.entries());
        }
        self.entries.len()
    }

    /// Where the entry of `route` stands, if there is one.
    fn position(&self, route: &Route) -> (r: Option<usize>)
        ensures
            match r {
                Some(i) => i < self.entries().len() && i == key_index(self.entries(), route@),
                None => key_index(self.entries(), route@) == self.entries().len(),
            },
    {
        let mut i: usize = 0;
        while i < self.entries.len()
            invariant
                i <= self.entries.len(),
                forall|j: int| 0 <= j < i ==> self.entries()[j].0 != route@,
            decreases self.entries.len() - i,
        {
            if self.entries[i].0 == *route {
                proof {
                    lemma_key_index_unique(self.entries(), route@, i as int);
                }
                return Some(i);
            }
            i += 1;
        }
        proof {
            lemma_key_index_unique(self.entries(), route@, self.entries().len() as int);
        }
        None
    }

    /// Registers `handler` for `route`. A handler already registered for
    /// that route is replaced.
    pub fn insert(&mut self, route: Route, handler: H)
        ensures
            final(self).entries() == put(old(self).entries(), route@, handler),
            final(self)@ == old(self)@.insert(route@, handler),
    {
        proof {
            use_type_invariant(&*self);
            lemma_put(self.entries(), route@, handler);
        }
        let found = self.position(&route);
        // The entries are taken out while they change, so that the keys of
        // whatever `self` holds are distinct at every moment.
        let mut entries: Vec<(Route, H)> = Vec::new();
        core::mem::swap(&mut self.entries, &mut entries);
        match found {
            Some(i) => {
                entries.set(i, (route, handler));
            },
            None => {
                entries.push((route, handler));
            },
        }
        assert(entries@.map_values(|e: (Route, H)| (e.0@, e.1)) =~= put(
            old(self).entries(),
            route@,
            handler,
        ));
        self.entries = entries;
    }

    /// The handler registered for `route`.
    pub fn get(&self, route: &Route) -> (r: Option<&H>)
        ensures
            match r {
                Some(handler) => self@.contains_key(route@) && *handler == self@[route@],
                None => !self@.contains_key(route@),
            },
    {
        match self.position(route) {
            Some(i) => Some(&self.entries[i].1),
            None => None,
        }
    }
}

} // verus!
