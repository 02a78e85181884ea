use worker_blog::blog::{blog_router, Handler};
use worker_blog::cache::{CacheKey, CachedResponse, ResponseCache};
use worker_blog::handlers::{
    create, create_at, create_page, get_index, get_post, Action, Document, Event, Failure, Outcome,
    State, Template, MAX_AGE,
};
use worker_blog::path::Representation;
use worker_blog::post::Post;
use worker_blog::router::{Method, Param};
use worker_blog::site::{CreatePost, Request, RouteContext, SiteContext};
use worker_blog::world::answer_from_cache;

const SECRET: &str = "open sesame";

/// A blog in memory: the cache of the library, a table of posts, and counts
/// of what was asked of the store and the renderer.
struct Blog {
    cache: ResponseCache,
    rows: Vec<Post>,
    now: u64,
    secret: Option<String>,
    selects: usize,
    renders: usize,
}

fn blog() -> Blog {
    Blog {
        cache: ResponseCache::new(),
        rows: Vec::new(),
        now: 1_700_000_000,
        secret: Some(SECRET.to_string()),
        selects: 0,
        renders: 0,
    }
}

fn show(post: &Post) -> String {
    format!("{{\"id\":{},\"title\":{:?},\"content\":{:?}}}", post.id, post.title, post.content)
}

fn render(document: &Document) -> String {
    let inner = match &document.template {
        Template::Index(posts) => {
            format!("[{}]", posts.iter().map(show).collect::<Vec<String>>().join(","))
        }
        Template::Post(post) => show(post),
        Template::CreateForm => "form".to_string(),
    };
    match document.representation {
        Representation::Json => inner,
        Representation::Html => format!("<h1>{}</h1>{}", document.site.blog_name, inner),
    }
}

fn serve(blog: &mut Blog, method: Method, path: &str, body: Option<CreatePost>) -> Option<Outcome> {
    let found = blog_router().dispatch(method, path)?;
    let req = Request { method, path: path.to_string() };
    let ctx = RouteContext {
        param: found.param,
        site: SiteContext::from_vars(Some("notes".to_string()), None),
        secret: blog.secret.clone(),
    };
    let mut body = body;
    let mut state = State::Received;
    let mut event = Event::Arrived;
    for _ in 0..8 {
        let (next, action) = match found.handler {
            Handler::Index => get_index(&req, &ctx, state, event),
            Handler::Post => get_post(&req, &ctx, state, event),
            Handler::Create => create(&req, &ctx, state, event),
            Handler::CreatePage => create_page(&req, &ctx, state, event),
            Handler::Sitemap => return None,
        };
        state = next;
        event = match answer_from_cache(&mut blog.cache, blog.now, action) {
            Ok(event) => event,
            Err(Action::Respond(outcome)) => {
                assert_eq!(state, State::Done);
                return Some(outcome);
            }
            Err(Action::SelectAll) => {
                blog.selects += 1;
                Event::Rows(blog.rows.clone())
            }
            Err(Action::SelectById(id)) => {
                blog.selects += 1;
                Event::Row(blog.rows.iter().find(|p| p.id.to_string() == id).cloned())
            }
            Err(Action::Insert { title, content, create_time }) => {
                let id = blog.rows.len() as u64 + 1;
                blog.rows.push(Post { id, title, content, create_time });
                Event::Inserted(Some(id))
            }
            Err(Action::Render(document)) => {
                blog.renders += 1;
                Event::Rendered(render(&document))
            }
            Err(Action::ReadSubmission) => match body.take() {
                Some(submission) => Event::Submission(submission),
                None => Event::Malformed,
            },
            Err(other) => panic!("the cache did not answer {:?}", other),
        };
    }
    panic!("the handler did not answer the request");
}

fn submission(title: &str, content: &str, secret: Option<&str>) -> Option<CreatePost> {
    Some(CreatePost {
        title: title.to_string(),
        content: content.to_string(),
        secret: secret.map(|s| s.to_string()),
    })
}

fn body_of(outcome: Option<Outcome>) -> String {
    match outcome {
        Some(Outcome::Served(response)) => {
            assert_eq!(response.status, 200);
            response.body
        }
        other => panic!("no page was served: {:?}", other),
    }
}

fn request(path: &str) -> Request {
    Request { method: Method::Get, path: path.to_string() }
}

fn context(id: Option<&str>) -> RouteContext {
    RouteContext {
        param: id.map(|v| Param { name: "id".to_string(), value: v.to_string() }),
        site: SiteContext::from_vars(Some("notes".to_string()), None),
        secret: Some(SECRET.to_string()),
    }
}

fn timed(id: u64, create_time: &str) -> Post {
    Post {
        id,
        title: format!("t{}", id),
        content: format!("c{}", id),
        create_time: create_time.to_string(),
    }
}

fn failed(failure: Failure) -> (State, Action) {
    (State::Done, Action::Respond(Outcome::Failed(failure)))
}

#[test]
fn repeated_read_is_byte_identical_and_spares_the_store() {
    let mut blog = blog();
    serve(&mut blog, Method::Post, "/create", submission("T", "C", Some(SECRET)));
    let first = body_of(serve(&mut blog, Method::Get, "/json", None));
    assert_eq!((blog.selects, blog.renders), (1, 1));
    blog.now += MAX_AGE;
    let second = body_of(serve(&mut blog, Method::Get, "/json", None));
    assert_eq!(first, second);
    assert_eq!((blog.selects, blog.renders), (1, 1));
    let third = body_of(serve(&mut blog, Method::Get, "/json/", None));
    assert_eq!(first, third);
    assert_eq!((blog.selects, blog.renders), (1, 1));
}

#[test]
fn read_past_the_freshness_window_asks_the_store_again() {
    let mut blog = blog();
    body_of(serve(&mut blog, Method::Get, "/json", None));
    blog.now += MAX_AGE + 1;
    body_of(serve(&mut blog, Method::Get, "/json", None));
    assert_eq!((blog.selects, blog.renders), (2, 2));
}

#[test]
fn create_invalidates_both_representations_of_the_list() {
    let mut blog = blog();
    let html_before = body_of(serve(&mut blog, Method::Get, "/", None));
    let json_before = body_of(serve(&mut blog, Method::Get, "/json", None));
    assert_eq!(html_before, "<h1>notes</h1>[]");
    assert_eq!(json_before, "[]");
    let created = serve(&mut blog, Method::Post, "/create", submission("T", "C", Some(SECRET)));
    assert_eq!(created, Some(Outcome::Created(1)));
    assert_eq!(blog.cache.get(&CacheKey::of(Method::Get, "/"), blog.now), None);
    assert_eq!(blog.cache.get(&CacheKey::of(Method::Get, "/json"), blog.now), None);
    let html_after = body_of(serve(&mut blog, Method::Get, "/", None));
    let json_after = body_of(serve(&mut blog, Method::Get, "/json", None));
    assert_eq!(html_after, "<h1>notes</h1>[{\"id\":1,\"title\":\"T\",\"content\":\"C\"}]");
    assert_eq!(json_after, "[{\"id\":1,\"title\":\"T\",\"content\":\"C\"}]");
    assert_eq!(blog.selects, 4);
}

#[test]
fn create_leaves_the_pages_of_posts_in_the_cache() {
    let mut blog = blog();
    serve(&mut blog, Method::Post, "/create", submission("T", "C", Some(SECRET)));
    let page = body_of(serve(&mut blog, Method::Get, "/1/json", None));
    serve(&mut blog, Method::Post, "/create", submission("U", "D", Some(SECRET)));
    let key = CacheKey::of(Method::Get, "/1/json");
    assert_eq!(blog.cache.get(&key, blog.now).map(|r| r.body), Some(page));
    assert_eq!(blog.cache.get(&CacheKey::of(Method::Get, "/2/json"), blog.now), None);
}

#[test]
fn created_post_is_read_back() {
    let mut blog = blog();
    let created = serve(&mut blog, Method::Post, "/create", submission("T", "C", Some(SECRET)));
    assert_eq!(created, Some(Outcome::Created(1)));
    assert_eq!(created.unwrap().status(), 200);
    let page = serve(&mut blog, Method::Get, "/1/json", None);
    match &page {
        Some(Outcome::Served(response)) => {
            assert_eq!(response.representation, Representation::Json);
            assert_eq!(response.body, "{\"id\":1,\"title\":\"T\",\"content\":\"C\"}");
        }
        other => panic!("no page was served: {:?}", other),
    }
    assert_eq!(blog.rows.len(), 1);
    assert_eq!(blog.rows[0].title, "T");
    assert_eq!(blog.rows[0].content, "C");
    assert!(chrono::DateTime::parse_from_rfc3339(&blog.rows[0].create_time).is_ok());
}

#[test]
fn creation_time_is_read_from_the_clock() {
    let before = chrono::Utc::now();
    let (state, action) = create(
        &request("/create"),
        &context(None),
        State::AskedSubmission,
        Event::Submission(submission("T", "C", Some(SECRET)).unwrap()),
    );
    let after = chrono::Utc::now();
    assert_eq!(state, State::AskedInsert);
    match action {
        Action::Insert { title, content, create_time } => {
            assert_eq!(title, "T");
            assert_eq!(content, "C");
            let stamp = chrono::DateTime::parse_from_rfc3339(&create_time).unwrap();
            assert!(before <= stamp && stamp <= after);
        }
        other => panic!("nothing was inserted: {:?}", other),
    }
}

#[test]
fn wrong_or_missing_secret_is_forbidden_and_creates_nothing() {
    let offers = [Some("open sesame "), Some("OPEN SESAME"), Some(""), None];
    for offered in offers {
        for (title, content) in [("T", "C"), ("", ""), ("", "C"), ("T", "")] {
            let mut blog = blog();
            body_of(serve(&mut blog, Method::Get, "/", None));
            let outcome =
                serve(&mut blog, Method::Post, "/create", submission(title, content, offered));
            assert_eq!(outcome, Some(Outcome::Forbidden));
            assert_eq!(outcome.unwrap().status(), 403);
            assert!(blog.rows.is_empty());
            assert!(blog.cache.get(&CacheKey::of(Method::Get, "/"), blog.now).is_some());
        }
    }
}

#[test]
fn site_without_a_secret_accepts_no_submission() {
    for offered in [Some(SECRET), Some(""), None] {
        let mut blog = blog();
        blog.secret = None;
        let outcome = serve(&mut blog, Method::Post, "/create", submission("T", "C", offered));
        assert_eq!(outcome, Some(Outcome::Forbidden));
        assert!(blog.rows.is_empty());
    }
}

#[test]
fn list_shows_the_newest_post_first() {
    let mut blog = blog();
    for title in ["one", "two", "three"] {
        serve(&mut blog, Method::Post, "/create", submission(title, "", Some(SECRET)));
    }
    assert_eq!(blog.rows.iter().map(|p| p.id).collect::<Vec<u64>>(), vec![1, 2, 3]);
    let (state, action) = get_index(
        &request("/json"),
        &context(None),
        State::AskedStore,
        Event::Rows(blog.rows.clone()),
    );
    assert_eq!(state, State::AskedRender);
    match action {
        Action::Render(document) => match document.template {
            Template::Index(posts) => {
                assert_eq!(posts.iter().map(|p| p.id).collect::<Vec<u64>>(), vec![3, 2, 1]);
                assert_eq!(posts[0].title, "three");
            }
            other => panic!("not the front page: {:?}", other),
        },
        other => panic!("nothing was rendered: {:?}", other),
    }
    let body = body_of(serve(&mut blog, Method::Get, "/json", None));
    assert_eq!(
        body,
        "[{\"id\":3,\"title\":\"three\",\"content\":\"\"},\
         {\"id\":2,\"title\":\"two\",\"content\":\"\"},\
         {\"id\":1,\"title\":\"one\",\"content\":\"\"}]"
    );
}

#[test]
fn missing_post_is_not_found_and_not_cached() {
    let mut blog = blog();
    serve(&mut blog, Method::Post, "/create", submission("T", "C", Some(SECRET)));
    let outcome = serve(&mut blog, Method::Get, "/999/json", None);
    assert_eq!(outcome, Some(Outcome::NotFound));
    assert_eq!(outcome.unwrap().status(), 404);
    assert_eq!(blog.cache.get(&CacheKey::of(Method::Get, "/999/json"), blog.now), None);
    assert_eq!(blog.renders, 0);
    let again = serve(&mut blog, Method::Get, "/999/json", None);
    assert_eq!(again, Some(Outcome::NotFound));
    assert_eq!(blog.selects, 2);
}

#[test]
fn unrouted_request_reaches_no_handler() {
    let mut blog = blog();
    assert_eq!(serve(&mut blog, Method::Get, "/1/2/3", None), None);
    assert_eq!(serve(&mut blog, Method::Delete, "/1", None), None);
}

#[test]
fn form_is_rendered_and_never_cached() {
    let mut blog = blog();
    assert_eq!(body_of(serve(&mut blog, Method::Get, "/create", None)), "<h1>notes</h1>form");
    assert_eq!(body_of(serve(&mut blog, Method::Get, "/create", None)), "<h1>notes</h1>form");
    assert_eq!(blog.renders, 2);
    assert_eq!(blog.cache.get(&CacheKey::of(Method::Get, "/create"), blog.now), None);
}

#[test]
fn malformed_submission_fails_the_request() {
    let mut blog = blog();
    let outcome = serve(&mut blog, Method::Post, "/create", None);
    assert_eq!(outcome, Some(Outcome::Failed(Failure::Malformed)));
    assert_eq!(outcome.unwrap().status(), 500);
    assert!(blog.rows.is_empty());
}

#[test]
fn read_handlers_ask_the_cache_first() {
    let key = CacheKey::of(Method::Get, "/json");
    assert_eq!(
        get_index(&request("/json/"), &context(None), State::Received, Event::Arrived),
        (State::AskedCache, Action::CacheGet(key))
    );
    let key = CacheKey::of(Method::Get, "/4");
    assert_eq!(
        get_post(&request("/4/"), &context(Some("4")), State::Received, Event::Arrived),
        (State::AskedCache, Action::CacheGet(key))
    );
}

#[test]
fn cached_page_is_the_answer() {
    let cached =
        CachedResponse { status: 200, representation: Representation::Json, body: "x".to_string() };
    assert_eq!(
        get_index(&request("/json"), &context(None), State::AskedCache, Event::Cached(Some(cached.clone()))),
        (State::Done, Action::Respond(Outcome::Served(cached.clone())))
    );
    assert_eq!(
        get_post(&request("/4"), &context(Some("4")), State::AskedCache, Event::Cached(Some(cached.clone()))),
        (State::Done, Action::Respond(Outcome::Served(cached)))
    );
}

#[test]
fn miss_asks_the_store() {
    assert_eq!(
        get_index(&request("/"), &context(None), State::AskedCache, Event::Cached(None)),
        (State::AskedStore, Action::SelectAll)
    );
    assert_eq!(
        get_post(&request("/4"), &context(Some("4")), State::AskedCache, Event::Cached(None)),
        (State::AskedStore, Action::SelectById("4".to_string()))
    );
}

#[test]
fn post_without_an_id_fails_loudly() {
    assert_eq!(
        get_post(&request("/4"), &context(None), State::AskedCache, Event::Cached(None)),
        failed(Failure::MissingParam)
    );
    assert_eq!(
        get_post(&request("/4"), &context(Some("")), State::AskedCache, Event::Cached(None)),
        failed(Failure::MissingParam)
    );
    let mut named_otherwise = context(Some("4"));
    named_otherwise.param = Some(Param { name: "key".to_string(), value: "4".to_string() });
    assert_eq!(
        get_post(&request("/4"), &named_otherwise, State::AskedCache, Event::Cached(None)),
        failed(Failure::MissingParam)
    );
}

#[test]
fn rendered_page_is_stored_for_a_day_and_then_served() {
    let key = CacheKey::of(Method::Get, "/4/json");
    let response =
        CachedResponse { status: 200, representation: Representation::Json, body: "b".to_string() };
    assert_eq!(MAX_AGE, 86400);
    assert_eq!(
        get_post(&request("/4/json"), &context(Some("4")), State::AskedRender, Event::Rendered("b".to_string())),
        (
            State::AskedPut(response.clone()),
            Action::CachePut { key, response: response.clone(), max_age: 86400 }
        )
    );
    assert_eq!(
        get_post(&request("/4/json"), &context(Some("4")), State::AskedPut(response.clone()), Event::CacheDone),
        (State::Done, Action::Respond(Outcome::Served(response)))
    );
    let html =
        CachedResponse { status: 200, representation: Representation::Html, body: "b".to_string() };
    assert_eq!(
        get_index(&request("/"), &context(None), State::AskedRender, Event::Rendered("b".to_string())),
        (
            State::AskedPut(html.clone()),
            Action::CachePut { key: CacheKey::of(Method::Get, "/"), response: html, max_age: 86400 }
        )
    );
}

#[test]
fn json_page_of_a_post_keeps_the_stored_time() {
    let stored = timed(4, "2023-06-01T12:30:00Z");
    let (state, action) =
        get_post(&request("/4/json"), &context(Some("4")), State::AskedStore, Event::Row(Some(stored.clone())));
    assert_eq!(state, State::AskedRender);
    assert_eq!(
        action,
        Action::Render(Document {
            template: Template::Post(stored),
            representation: Representation::Json,
            site: SiteContext::from_vars(Some("notes".to_string()), None),
        })
    );
}

#[test]
fn html_page_of_a_post_shows_the_local_time() {
    let stored = timed(4, "2023-06-01T12:30:00Z");
    let (state, action) =
        get_post(&request("/4"), &context(Some("4")), State::AskedStore, Event::Row(Some(stored)));
    assert_eq!(state, State::AskedRender);
    match action {
        Action::Render(document) => {
            assert_eq!(document.representation, Representation::Html);
            match document.template {
                Template::Post(post) => {
                    assert_eq!((post.id, post.title.as_str(), post.content.as_str()), (4, "t4", "c4"));
                    assert_ne!(post.create_time, "2023-06-01T12:30:00Z");
                    assert_eq!(
                        chrono::DateTime::parse_from_rfc3339(&post.create_time).unwrap(),
                        chrono::DateTime::parse_from_rfc3339("2023-06-01T12:30:00Z").unwrap()
                    );
                }
                other => panic!("not the page of a post: {:?}", other),
            }
        }
        other => panic!("nothing was rendered: {:?}", other),
    }
}

#[test]
fn post_with_an_unreadable_time_cannot_be_shown() {
    assert_eq!(
        get_post(&request("/4"), &context(Some("4")), State::AskedStore, Event::Row(Some(timed(4, "soon")))),
        failed(Failure::Render)
    );
    assert_eq!(
        get_index(
            &request("/json"),
            &context(None),
            State::AskedStore,
            Event::Rows(vec![timed(1, "2023-06-01T12:30:00Z"), timed(2, "soon")])
        ),
        failed(Failure::Render)
    );
}

#[test]
fn failures_of_the_store_and_the_renderer_are_surfaced() {
    assert_eq!(
        get_index(&request("/"), &context(None), State::AskedStore, Event::StoreFailed),
        failed(Failure::Store)
    );
    assert_eq!(
        get_post(&request("/4"), &context(Some("4")), State::AskedStore, Event::StoreFailed),
        failed(Failure::Store)
    );
    assert_eq!(
        get_index(&request("/"), &context(None), State::AskedRender, Event::RenderFailed),
        failed(Failure::Render)
    );
    assert_eq!(
        create_page(&request("/create"), &context(None), State::AskedRender, Event::RenderFailed),
        failed(Failure::Render)
    );
    assert_eq!(
        create(&request("/create"), &context(None), State::AskedInsert, Event::StoreFailed),
        failed(Failure::Store)
    );
    assert_eq!(
        create(&request("/create"), &context(None), State::AskedInsert, Event::Inserted(None)),
        failed(Failure::NoId)
    );
}

#[test]
fn create_removes_the_list_entries_one_after_the_other() {
    let req = request("/create");
    let ctx = context(None);
    assert_eq!(
        create(&req, &ctx, State::Received, Event::Arrived),
        (State::AskedSubmission, Action::ReadSubmission)
    );
    assert_eq!(
        create(&req, &ctx, State::AskedInsert, Event::Inserted(Some(7))),
        (State::Invalidating(7, 0), Action::CacheDelete(CacheKey::of(Method::Get, "/")))
    );
    assert_eq!(
        create(&req, &ctx, State::Invalidating(7, 0), Event::CacheDone),
        (State::Invalidating(7, 1), Action::CacheDelete(CacheKey::of(Method::Get, "/json")))
    );
    assert_eq!(
        create(&req, &ctx, State::Invalidating(7, 1), Event::CacheDone),
        (State::Done, Action::Respond(Outcome::Created(7)))
    );
}

#[test]
fn create_at_takes_the_time_it_is_given() {
    let req = request("/create");
    let ctx = context(None);
    let event = || Event::Submission(submission("T", "C", Some(SECRET)).unwrap());
    assert_eq!(
        create_at(&req, &ctx, State::AskedSubmission, event(), "2024-02-29T23:59:60Z".to_string()),
        (
            State::AskedInsert,
            Action::Insert {
                title: "T".to_string(),
                content: "C".to_string(),
                create_time: "2024-02-29T23:59:60Z".to_string()
            }
        )
    );
    assert_eq!(
        create_at(&req, &ctx, State::AskedSubmission, event(), "2023-02-29T00:00:00Z".to_string()),
        failed(Failure::Clock)
    );
    assert_eq!(
        create_at(&req, &ctx, State::AskedSubmission, event(), String::new()),
        failed(Failure::Clock)
    );
}

#[test]
fn unexpected_event_ends_the_handler() {
    let req = request("/");
    let ctx = context(None);
    assert_eq!(get_index(&req, &ctx, State::Received, Event::CacheDone), failed(Failure::Unexpected));
    assert_eq!(get_index(&req, &ctx, State::Done, Event::Arrived), failed(Failure::Unexpected));
    assert_eq!(get_index(&req, &ctx, State::AskedStore, Event::Row(None)), failed(Failure::Unexpected));
    assert_eq!(get_post(&req, &ctx, State::AskedStore, Event::Rows(Vec::new())), failed(Failure::Unexpected));
    assert_eq!(get_post(&req, &ctx, State::AskedInsert, Event::Inserted(Some(1))), failed(Failure::Unexpected));
    assert_eq!(create(&req, &ctx, State::AskedCache, Event::Cached(None)), failed(Failure::Unexpected));
    assert_eq!(create(&req, &ctx, State::Done, Event::CacheDone), failed(Failure::Unexpected));
    assert_eq!(create_page(&req, &ctx, State::AskedCache, Event::Cached(None)), failed(Failure::Unexpected));
    assert_eq!(create_page(&req, &ctx, State::Done, Event::Arrived), failed(Failure::Unexpected));
}

#[test]
fn cache_answers_only_what_is_asked_of_it() {
    let mut cache = ResponseCache::new();
    let key = CacheKey::of(Method::Get, "/");
    let response =
        CachedResponse { status: 200, representation: Representation::Html, body: "b".to_string() };
    assert_eq!(answer_from_cache(&mut cache, 5, Action::CacheGet(key.clone())), Ok(Event::Cached(None)));
    assert_eq!(
        answer_from_cache(&mut cache, 5, Action::CachePut { key: key.clone(), response: response.clone(), max_age: 2 }),
        Ok(Event::CacheDone)
    );
    assert_eq!(
        answer_from_cache(&mut cache, 7, Action::CacheGet(key.clone())),
        Ok(Event::Cached(Some(response)))
    );
    assert_eq!(answer_from_cache(&mut cache, 8, Action::CacheGet(key.clone())), Ok(Event::Cached(None)));
    assert_eq!(answer_from_cache(&mut cache, 7, Action::SelectAll), Err(Action::SelectAll));
    assert_eq!(answer_from_cache(&mut cache, 7, Action::CacheDelete(key.clone())), Ok(Event::CacheDone));
    assert_eq!(answer_from_cache(&mut cache, 7, Action::CacheGet(key)), Ok(Event::Cached(None)));
}
