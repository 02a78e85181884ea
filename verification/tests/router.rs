use worker_blog::blog::{blog_router, Handler};
use worker_blog::path::{canonical_path, chars_of, representation_of, segments_of, Representation};
use worker_blog::router::{Method, Param, Pattern, PatternError, Router};

fn pattern(text: &str) -> Pattern {
    Pattern::parse(text).unwrap()
}

fn strings(pieces: &[&str]) -> Vec<String> {
    pieces.iter().map(|p| p.to_string()).collect()
}

#[test]
fn chars_of_gives_every_character() {
    assert_eq!(chars_of(""), Vec::<char>::new());
    assert_eq!(chars_of("/é1"), vec!['/', 'é', '1']);
}

#[test]
fn segments_ignore_one_leading_and_one_trailing_slash() {
    assert_eq!(segments_of("/"), strings(&[]));
    assert_eq!(segments_of(""), strings(&[]));
    assert_eq!(segments_of("//"), strings(&[]));
    assert_eq!(segments_of("/json"), strings(&["json"]));
    assert_eq!(segments_of("json"), strings(&["json"]));
    assert_eq!(segments_of("/7/json/"), strings(&["7", "json"]));
    assert_eq!(segments_of("/a//b"), strings(&["a", "", "b"]));
    assert_eq!(segments_of("/a//"), strings(&["a", ""]));
    assert_eq!(segments_of("/grüße/ö"), strings(&["grüße", "ö"]));
}

#[test]
fn canonical_path_drops_the_trailing_slash() {
    assert_eq!(canonical_path("/"), "/");
    assert_eq!(canonical_path(""), "/");
    assert_eq!(canonical_path("/12/"), "/12");
    assert_eq!(canonical_path("/12"), "/12");
    assert_eq!(canonical_path("/12/json"), "/12/json");
    assert_eq!(canonical_path("/12/json/"), "/12/json");
    assert_eq!(canonical_path("json"), "/json");
    assert_eq!(canonical_path("//"), "/");
    assert_eq!(canonical_path("/a//"), "/a//");
    assert_eq!(canonical_path("///"), "///");
}

#[test]
fn canonical_path_is_its_own_canonical_path() {
    for path in ["", "/", "//", "///", "/12/", "/a//b", "/a//", "/12/json/", "x", "x/"] {
        let once = canonical_path(path);
        assert_eq!(canonical_path(&once), once);
        assert_eq!(segments_of(&once), segments_of(path));
    }
}

#[test]
fn representation_follows_the_suffix() {
    assert_eq!(representation_of("/json"), Representation::Json);
    assert_eq!(representation_of("/3/json"), Representation::Json);
    assert_eq!(representation_of("/"), Representation::Html);
    assert_eq!(representation_of("/3"), Representation::Html);
    assert_eq!(representation_of("/xjson"), Representation::Html);
    assert_eq!(representation_of("json"), Representation::Html);
    assert_eq!(representation_of("/json/"), Representation::Html);
    assert_eq!(representation_of("/JSON"), Representation::Html);
}

#[test]
fn pattern_with_two_placeholders_is_refused() {
    assert_eq!(Pattern::parse("/:a/:b").err(), Some(PatternError::SecondPlaceholder));
    assert_eq!(Pattern::parse("/:a/x/:a").err(), Some(PatternError::SecondPlaceholder));
}

#[test]
fn pattern_with_an_unnamed_placeholder_is_refused() {
    assert_eq!(Pattern::parse("/:/x").err(), Some(PatternError::UnnamedPlaceholder));
    assert_eq!(Pattern::parse("/:a/:").err(), Some(PatternError::UnnamedPlaceholder));
    assert_eq!(Pattern::parse("/:").err(), Some(PatternError::UnnamedPlaceholder));
}

#[test]
fn pattern_binds_its_placeholder() {
    let with_id = pattern("/:id/json");
    assert_eq!(
        with_id.bind(&strings(&["7", "json"])),
        Some(Some(Param { name: "id".to_string(), value: "7".to_string() }))
    );
    assert_eq!(with_id.bind(&strings(&["7", "xml"])), None);
    assert_eq!(with_id.bind(&strings(&["", "json"])), None);
    assert_eq!(with_id.bind(&strings(&["7"])), None);
    assert_eq!(with_id.bind(&strings(&["7", "json", "x"])), None);
    let plain = pattern("/create");
    assert_eq!(plain.bind(&strings(&["create"])), Some(None));
    assert_eq!(plain.bind(&strings(&["Create"])), None);
    assert_eq!(pattern("/").bind(&strings(&[])), Some(None));
    assert_eq!(pattern("/").bind(&strings(&["x"])), None);
}

#[test]
fn first_registered_route_wins() {
    let router = Router::new()
        .route(Method::Get, pattern("/create"), 1u8)
        .route(Method::Get, pattern("/:id"), 2u8);
    assert_eq!(router.len(), 2);
    let found = router.dispatch(Method::Get, "/create").unwrap();
    assert_eq!(found.handler, 1);
    assert!(found.param.is_none());
    let found = router.dispatch(Method::Get, "/41").unwrap();
    assert_eq!(found.handler, 2);
    assert_eq!(found.method, Method::Get);
    assert_eq!(found.segments, strings(&["41"]));
    let param = found.param.unwrap();
    assert_eq!(param.name, "id");
    assert_eq!(param.value, "41");
    assert!(router.dispatch(Method::Post, "/41").is_none());
    assert!(router.dispatch(Method::Get, "/41/extra").is_none());
}

#[test]
fn placeholder_registered_first_shadows_the_literal() {
    let router = Router::new()
        .route(Method::Get, pattern("/:id"), 2u8)
        .route(Method::Get, pattern("/create"), 1u8);
    let found = router.dispatch(Method::Get, "/create").unwrap();
    assert_eq!(found.handler, 2);
    assert_eq!(found.param.unwrap().value, "create");
}

#[test]
fn empty_router_matches_nothing() {
    let router: Router<u8> = Router::new();
    assert_eq!(router.len(), 0);
    assert!(router.dispatch(Method::Get, "/").is_none());
}

fn route(method: Method, path: &str) -> Option<(Handler, Option<String>)> {
    blog_router().dispatch(method, path).map(|found| {
        (
            found.handler,
            found.param.map(|p| {
                assert_eq!(p.name, "id");
                p.value
            }),
        )
    })
}

#[test]
fn every_registered_route_reaches_its_handler() {
    assert_eq!(blog_router().len(), 7);
    assert_eq!(route(Method::Get, "/sitemap.xml"), Some((Handler::Sitemap, None)));
    assert_eq!(route(Method::Get, "/create"), Some((Handler::CreatePage, None)));
    assert_eq!(route(Method::Post, "/create"), Some((Handler::Create, None)));
    assert_eq!(route(Method::Get, "/json"), Some((Handler::Index, None)));
    assert_eq!(route(Method::Get, "/"), Some((Handler::Index, None)));
    assert_eq!(route(Method::Get, "/12/json"), Some((Handler::Post, Some("12".to_string()))));
    assert_eq!(route(Method::Get, "/12/"), Some((Handler::Post, Some("12".to_string()))));
    assert_eq!(route(Method::Get, "/12"), Some((Handler::Post, Some("12".to_string()))));
}

#[test]
fn trailing_slash_reaches_the_same_handler() {
    assert_eq!(route(Method::Get, "/json/"), Some((Handler::Index, None)));
    assert_eq!(route(Method::Get, "/create/"), Some((Handler::CreatePage, None)));
    assert_eq!(route(Method::Get, "/12/json/"), Some((Handler::Post, Some("12".to_string()))));
}

#[test]
fn unregistered_requests_reach_no_handler() {
    assert_eq!(route(Method::Get, "/a/b/c"), None);
    assert_eq!(route(Method::Get, "/12/xml"), None);
    assert_eq!(route(Method::Get, "//json"), None);
    assert_eq!(route(Method::Post, "/"), None);
    assert_eq!(route(Method::Post, "/12"), None);
    assert_eq!(route(Method::Put, "/create"), None);
    assert_eq!(route(Method::Delete, "/12"), None);
    assert_eq!(route(Method::Head, "/"), None);
}
