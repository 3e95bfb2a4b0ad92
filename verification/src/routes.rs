//! The route table: which page answers a request.

use crate::text::str_eq;
use vstd::prelude::*;

verus! {

/// The method of a request.
#[derive(Debug, Clone, Copy, PartialEq, Eq, Structural)]
pub enum Method {
    Get,
    Head,
    Post,
    Put,
    Delete,
    Connect,
    Options,
    Trace,
    Patch,
    /// Any method without a name of its own here.
    Other,
}

/// The method that a name of the request line stands for. Names are told
/// apart by case, as the protocol has it.
pub open spec fn method_of(name: Seq<char>) -> Method {
    if name == "GET"@ {
        Method::Get
    } else if name == "HEAD"@ {
        Method::Head
    } else if name == "POST"@ {
        Method::Post
    } else if name == "PUT"@ {
        Method::Put
    } else if name == "DELETE"@ {
        Method::Delete
    } else if name == "CONNECT"@ {
        Method::Connect
    } else if name == "OPTIONS"@ {
        Method::Options
    } else if name == "TRACE"@ {
        Method::Trace
    } else if name == "PATCH"@ {
        Method::Patch
    } else {
        Method::Other
    }
}

impl Method {
    /// The method that `name` stands for.
    pub fn from_name(name: &str) -> (method: Method)
        ensures
            method == method_of(name@),
    {
        if str_eq(name, "GET") {
            Method::Get
        } else if str_eq(name, "HEAD") {
            Method::Head
        } else if str_eq(name, "POST") {
            Method::Post
        } else if str_eq(name, "PUT") {
            Method::Put
        } else if str_eq(name, "DELETE") {
            Method::Delete
        } else if str_eq(name, "CONNECT") {
            Method::Connect
        } else if str_eq(name, "OPTIONS") {
            Method::Options
        } else if str_eq(name, "TRACE") {
            Method::Trace
        } else if str_eq(name, "PATCH") {
            Method::Patch
        } else {
            Method::Other
        }
    }
}

/// The pages of the site, and the page for everything else.
#[derive(Debug, Clone, Copy, PartialEq, Eq, Structural)]
pub enum Endpoint {
    /// The robots-exclusion resource.
    Robots,
    /// The landing page.
    Index,
    /// The search page.
    Search,
    /// The page about the site.
    About,
    /// The settings page.
    Settings,
    /// The page for every request that no binding matches.
    NotFound,
}

/// One binding of the route table: a request with this method to exactly
/// this path goes to this endpoint.
#[derive(Debug, Clone, Copy)]
pub struct Route {
    pub method: Method,
    pub path: &'static str,
    pub endpoint: Endpoint,
}

/// A binding over plain text.
pub struct Binding {
    pub method: Method,
    pub path: Seq<char>,
    pub endpoint: Endpoint,
}

impl View for Route {
    type V = Binding;

    open spec fn view(&self) -> Binding {
        Binding { method: self.method, path: self.path@, endpoint: self.endpoint }
    }
}

/// The bindings of a list of routes.
pub open spec fn bindings_of(routes: Seq<Route>) -> Seq<Binding> {
    routes.map_values(|route: Route| route@)
}

/// The five named bindings, in the order in which they are tried.
pub open spec fn standard_bindings() -> Seq<Binding> {
    seq![
        Binding { method: Method::Get, path: "/robots.txt"@, endpoint: Endpoint::Robots },
        Binding { method: Method::Get, path: "/"@, endpoint: Endpoint::Index },
        Binding { method: Method::Get, path: "/search"@, endpoint: Endpoint::Search },
        Binding { method: Method::Get, path: "/about"@, endpoint: Endpoint::About },
        Binding { method: Method::Get, path: "/settings"@, endpoint: Endpoint::Settings },
    ]
}

/// Whether a binding matches a request.
pub open spec fn binding_matches(binding: Binding, method: Method, path: Seq<char>) -> bool {
    binding.method == method && binding.path == path
}

/// The endpoint of the first binding at or after `from` that matches the
/// request, and the fallback where none does.
pub open spec fn first_match(table: Seq<Binding>, from: int, method: Method, path: Seq<char>) -> Endpoint
    decreases table.len() - from,
{
    if from < 0 || from >= table.len() {
        Endpoint::NotFound
    } else if binding_matches(table[from], method, path) {
        table[from].endpoint
    } else {
        first_match(table, from + 1, method, path)
    }
}

/// The page that answers a request: the named page whose path the request
/// names exactly, with the method `Get`, and the fallback for every other
/// request.
pub open spec fn route_for(method: Method, path: Seq<char>) -> Endpoint {
    if method != Method::Get {
        Endpoint::NotFound
    } else if path == "/robots.txt"@ {
        Endpoint::Robots
    } else if path == "/"@ {
        Endpoint::Index
    } else if path == "/search"@ {
        Endpoint::Search
    } else if path == "/about"@ {
        Endpoint::About
    } else if path == "/settings"@ {
        Endpoint::Settings
    } else {
        Endpoint::NotFound
    }
}

/// Trying the standard bindings in order gives the page that `route_for`
/// names.
pub proof fn lemma_standard_first_match(method: Method, path: Seq<char>)
    ensures
        first_match(standard_bindings(), 0, method, path) == route_for(method, path),
{
    reveal_with_fuel(first_match, 6);
}

/// No two of the standard bindings match one request, so the order in which
/// they are tried decides nothing: a request goes to the one binding that
/// matches it, or to the fallback.
pub proof fn lemma_bindings_exclusive(i: int, j: int, method: Method, path: Seq<char>)
    requires
        0 <= i < standard_bindings().len(),
        0 <= j < standard_bindings().len(),
        binding_matches(standard_bindings()[i], method, path),
        binding_matches(standard_bindings()[j], method, path),
    ensures
        i == j,
        route_for(method, path) == standard_bindings()[i].endpoint,
{
    reveal_strlit("/robots.txt");
    reveal_strlit("/");
    reveal_strlit("/search");
    reveal_strlit("/about");
    reveal_strlit("/settings");
    let table = standard_bindings();
    assert(table[0].path.len() == 11);
    assert(table[1].path.len() == 1);
    assert(table[2].path.len() == 7);
    assert(table[3].path.len() == 6);
    assert(table[4].path.len() == 9);
}

/// A request that no standard binding matches goes to the fallback.
pub proof fn lemma_unbound_request_falls_back(method: Method, path: Seq<char>)
    requires
        forall|i: int|
            0 <= i < standard_bindings().len() ==> !binding_matches(
                #[trigger] standard_bindings()[i],
                method,
                path,
            ),
    ensures
        route_for(method, path) == Endpoint::NotFound,
{
    let table = standard_bindings();
    assert(forall|i: int| 0 <= i < 5 ==> !binding_matches(#[trigger] table[i], method, path));
}

/// The route table. It is built once and holds the standard bindings.
pub struct RouteTable {
    routes: Vec<Route>,
}

impl RouteTable {
    #[verifier::type_invariant]
    spec fn holds_standard_bindings(self) -> bool {
        bindings_of(self.routes@) == standard_bindings()
    }

    /// The table of the five named bindings.
    pub fn standard() -> (table: RouteTable)
        ensures
            table.bindings() == standard_bindings(),
    {
        let mut routes: Vec<Route> = Vec::new();
        routes.push(Route { method: Method::Get, path: "/robots.txt", endpoint: Endpoint::Robots });
        routes.push(Route { method: Method::Get, path: "/", endpoint: Endpoint::Index });
        routes.push(Route { method: Method::Get, path: "/search", endpoint: Endpoint::Search });
        routes.push(Route { method: Method::Get, path: "/about", endpoint: Endpoint::About });
        routes.push(Route { method: Method::Get, path: "/settings", endpoint: Endpoint::Settings });
        assert(bindings_of(routes@) =~= standard_bindings());
        RouteTable { routes }
    }

    /// The bindings held, in the order in which they are tried.
    pub closed spec fn bindings(self) -> Seq<Binding> {
        bindings_of(self.routes@)
    }

    /// The routes held, in the order in which they are tried.
    pub fn routes(&self) -> (routes: &Vec<Route>)
        ensures
            bindings_of(routes@) == standard_bindings(),
    {
        proof {
            use_type_invariant(self);
        }
        &self.routes
    }

    /// Finds the page that answers a request: the bindings are tried in
    /// order, and the fallback takes what none of them matches.
    pub fn dispatch(&self, method: Method, path: &str) -> (endpoint: Endpoint)
        ensures
            endpoint == route_for(method, path@),
    {
        proof {
            use_type_invariant(self);
            lemma_standard_first_match(method, path@);
        }
        let ghost table = bindings_of(self.routes@);
        let mut i: usize = 0;
        while i < self.routes.len()
            invariant
                i <= self.routes.len(),
                table == bindings_of(self.routes@),
                first_match(table, 0, method, path@) == route_for(method, path@),
                first_match(table, 0, method, path@) == first_match(table, i as int, method, path@),
            decreases self.routes.len() - i,
        {
            let route = &self.routes[i];
            if route.method == method && str_eq(route.path, path) {
                return route.endpoint;
            }
            i += 1;
        }
        Endpoint::NotFound
    }
}

} // verus!
