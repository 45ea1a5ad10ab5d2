//! The endpoint registry: one definition per configured request path.

use vstd::prelude::*;
use crate::rate_limit::RateLimit;

verus! {

/// A claim that a bearer token must carry: the token, read as a JSON object,
/// must hold `name`, and its value printed as compact JSON (the form
/// serde_json prints, with object keys in sorted order) must equal `value`.
pub struct Claim {
    pub name: String,
    pub value: String,
}

/// The credentials an endpoint demands.
pub enum Authentication {
    /// `Authorization: Basic base64(user:password)`.
    Basic { user: String, password: String },
    /// `Authorization: Bearer <token>`, where the token text must also carry
    /// each of `claims`.
    Bearer { token: String, claims: Vec<Claim> },
}

/// How one configured path behaves.
pub struct Endpoint {
    /// The methods the endpoint serves.
    pub method: Vec<String>,
    /// The blob that backs the endpoint.
    pub file: String,
    /// The status of a successful answer, in place of the method's default.
    pub status_code: Option<u16>,
    pub authentication: Option<Authentication>,
    /// Milliseconds to wait before the request is carried out.
    pub delay: Option<u64>,
    pub rate_limit: Option<RateLimit>,
}

struct Route {
    path: String,
    endpoint: Endpoint,
}

/// Every route sits in the map under its path, every path of the map has a
/// route, and no two routes share a path.
spec fn consistent(rs: Seq<Route>, m: Map<Seq<char>, Endpoint>) -> bool {
    &&& forall|i: int|
        0 <= i < rs.len() ==> #[trigger] m.contains_key(rs[i].path@) && m[rs[i].path@]
            == rs[i].endpoint
    &&& forall|k: Seq<char>| #[trigger]
        m.contains_key(k) ==> exists|i: int| 0 <= i < rs.len() && rs[i].path@ == k
    &&& forall|i: int, j: int|
        0 <= i < rs.len() && 0 <= j < rs.len() && i != j ==> rs[i].path@ != rs[j].path@
}

/// The endpoint registry, keyed by the exact request path.
pub struct Config {
    routes: Vec<Route>,
    endpoints: Ghost<Map<Seq<char>, Endpoint>>,
}

impl View for Config {
    type V = Map<Seq<char>, Endpoint>;

    closed spec fn view(&self) -> Map<Seq<char>, Endpoint> {
        self.endpoints@
    }
}

impl Config {
    #[verifier::type_invariant]
    spec fn inv(self) -> bool {
        consistent(self.routes@, self.endpoints@)
    }

    /// A registry with no endpoint.
    pub fn new() -> (r: Self)
        ensures
            r@ == Map::<Seq<char>, Endpoint>::empty(),
    {
        Config { routes: Vec::new(), endpoints: Ghost(Map::empty()) }
    }

    /// Index of the route for `path`, if there is one.
    fn position(&self, path: &String) -> (r: Option<usize>)
        ensures
            match r {
                Some(i) => i < self.routes@.len() && self.routes@[i as int].path@ == path@,
                None => forall|j: int|
                    0 <= j < self.routes@.len() ==> #[trigger] self.routes@[j].path@ != path@,
            },
    {
        let n = self.routes.len();
        let mut i: usize = 0;
        while i < n
            invariant
                n == self.routes@.len(),
                i <= n,
                forall|j: int| 0 <= j < i ==> #[trigger] self.routes@[j].path@ != path@,
            decreases n - i,
        {
            if self.routes[i].path == *path {
                return Some(i);
            }
            i = i + 1;
        }
        None
    }

    /// The endpoint configured for exactly `path` (case-sensitive, no
    /// normalisation).
    pub fn get(&self, path: &String) -> (r: Option<&Endpoint>)
        ensures
            r is Some <==> self@.contains_key(path@),
            r matches Some(e) ==> *e == self@[path@],
    {
        proof {
            use_type_invariant(self);
        }
        match self.position(path) {
            Some(i) => {
                proof {
                    assert(self.endpoints@.contains_key(self.routes@[i as int].path@));
                }
                Some(&self.routes[i].endpoint)
            },
            None => {
                proof {
                    if self@.contains_key(path@) {
                        let j = choose|j: int|
                            0 <= j < self.routes@.len() && self.routes@[j].path@ == path@;
                        assert(self.routes@[j].path@ != path@);
                    }
                }
                None
            },
        }
    }

    /// Configures `path` to behave as `endpoint`, replacing what it did before.
    pub fn insert(&mut self, path: String, endpoint: Endpoint)
        ensures
            final(self)@ == old(self)@.insert(path@, endpoint),
    {
        proof {
            use_type_invariant(&*self);
        }
        let found = self.position(&path);
        let mut taken = Config::new();
        std::mem::swap(self, &mut taken);
        proof {
            use_type_invariant(&taken);
        }
        let Config { mut routes, endpoints } = taken;
        let ghost rs0 = routes@;
        let ghost m0 = endpoints@;
        let ghost key = path@;
        let ghost value = endpoint;
        let n = routes.len();
        let at = match found {
            Some(i) => {
                routes.set(i, Route { path, endpoint });
                i
            },
            None => {
                proof {
                    if m0.contains_key(key) {
                        let j = choose|j: int| 0 <= j < rs0.len() && rs0[j].path@ == key;
                        assert(rs0[j].path@ != key);
                    }
                }
                routes.push(Route { path, endpoint });
                n
            },
        };
        let endpoints = Ghost(m0.insert(key, value));
        proof {
            let rs = routes@;
            let m = endpoints@;
            assert(rs[at as int].path@ == key);
            assert forall|k: Seq<char>| #[trigger] m.contains_key(k) implies exists|j: int|
                0 <= j < rs.len() && rs[j].path@ == k by {
                if k != key {
                    assert(m0.contains_key(k));
                    let j = choose|j: int| 0 <= j < rs0.len() && rs0[j].path@ == k;
                    assert(rs[j] == rs0[j]);
                }
            }
            assert forall|j: int| 0 <= j < rs.len() implies #[trigger] m.contains_key(rs[j].path@)
                && m[rs[j].path@] == rs[j].endpoint by {
                if j != at {
                    assert(rs[j] == rs0[j]);
                    assert(m0.contains_key(rs0[j].path@));
                }
            }
            assert forall|a: int, b: int|
                0 <= a < rs.len() && 0 <= b < rs.len() && a != b implies rs[a].path@
                != rs[b].path@ by {
                if a != at {
                    assert(rs[a] == rs0[a]);
                }
                if b != at {
                    assert(rs[b] == rs0[b]);
                }
            }
            assert(consistent(rs, m));
        }
        *self = Config { routes, endpoints };
    }
}

} // verus!
