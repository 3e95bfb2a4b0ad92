use websurfx::routes::{Endpoint, Method, RouteTable};

#[test]
fn named_pages_answer_their_exact_paths() {
    let table = RouteTable::standard();
    assert_eq!(table.dispatch(Method::Get, "/robots.txt"), Endpoint::Robots);
    assert_eq!(table.dispatch(Method::Get, "/"), Endpoint::Index);
    assert_eq!(table.dispatch(Method::Get, "/search"), Endpoint::Search);
    assert_eq!(table.dispatch(Method::Get, "/about"), Endpoint::About);
    assert_eq!(table.dispatch(Method::Get, "/settings"), Endpoint::Settings);
}

#[test]
fn other_paths_fall_back() {
    let table = RouteTable::standard();
    for path in [
        "", "/nope", "/search/", "/Search", "/about/us", "//", "/robots", "/robots.txt/",
        "/settings.html", "search", "/index", "/static", "/ ", "/séarch",
    ] {
        assert_eq!(table.dispatch(Method::Get, path), Endpoint::NotFound);
    }
}

#[test]
fn other_methods_fall_back() {
    let table = RouteTable::standard();
    for method in [
        Method::Head,
        Method::Post,
        Method::Put,
        Method::Delete,
        Method::Connect,
        Method::Options,
        Method::Trace,
        Method::Patch,
        Method::Other,
    ] {
        for path in ["/", "/search", "/about", "/settings", "/robots.txt", "/nope"] {
            assert_eq!(table.dispatch(method, path), Endpoint::NotFound);
        }
    }
}

#[test]
fn the_table_lists_five_routes_in_order() {
    let table = RouteTable::standard();
    let routes = table.routes();
    assert_eq!(routes.len(), 5);
    let paths: Vec<&str> = routes.iter().map(|route| route.path).collect();
    assert_eq!(paths, vec!["/robots.txt", "/", "/search", "/about", "/settings"]);
    let endpoints: Vec<Endpoint> = routes.iter().map(|route| route.endpoint).collect();
    assert_eq!(
        endpoints,
        vec![
            Endpoint::Robots,
            Endpoint::Index,
            Endpoint::Search,
            Endpoint::About,
            Endpoint::Settings
        ]
    );
    assert!(routes.iter().all(|route| route.method == Method::Get));
}

#[test]
fn every_route_of_the_table_is_reached() {
    let table = RouteTable::standard();
    for route in table.routes() {
        assert_eq!(table.dispatch(route.method, route.path), route.endpoint);
    }
}

#[test]
fn methods_are_known_by_name() {
    assert_eq!(Method::from_name("GET"), Method::Get);
    assert_eq!(Method::from_name("HEAD"), Method::Head);
    assert_eq!(Method::from_name("POST"), Method::Post);
    assert_eq!(Method::from_name("PUT"), Method::Put);
    assert_eq!(Method::from_name("DELETE"), Method::Delete);
    assert_eq!(Method::from_name("CONNECT"), Method::Connect);
    assert_eq!(Method::from_name("OPTIONS"), Method::Options);
    assert_eq!(Method::from_name("TRACE"), Method::Trace);
    assert_eq!(Method::from_name("PATCH"), Method::Patch);
    for name in ["get", "Get", "", "GET ", "PROPFIND", "GETS"] {
        assert_eq!(Method::from_name(name), Method::Other);
    }
}
