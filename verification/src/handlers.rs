//! The handlers of the blog. A handler does no work outside the library
//! itself: it is a machine that is told what has happened and answers with
//! what to do next, until it answers with the outcome of the request.

use crate::cache::{key_of, response_view, CacheKey, CacheKeyView, CachedResponse, ResponseView};
use crate::path::Representation;
use crate::post::{
    all_rfc3339, optional_post_view, post_views, retimed, retimed_all, Index, Post, PostView,
};
use crate::router::Method;
use crate::site::{
    authenticate, grants, param_named, ContextView, CreatePost, Request, RequestView,
    RouteContext, SiteContext, SiteView, SubmissionView,
};
use crate::time::{is_rfc3339, parses_as_rfc3339, utc_now_rfc3339};
use vstd::prelude::*;

verus! {

/// The number of seconds for which a cached page may be served: a day.
pub const MAX_AGE: u64 = 86400;

/// What a page is made from.
#[derive(Debug, PartialEq, Eq)]
pub enum Template {
    /// The front page, with its posts in the order in which it shows them.
    Index(Vec<Post>),
    /// The page of one post.
    Post(Post),
    /// The form that submits a post.
    CreateForm,
}

/// What a `Template` holds.
pub enum TemplateView {
    Index(Seq<PostView>),
    Post(PostView),
    CreateForm,
}

impl View for Template {
    type V = TemplateView;

    open spec fn view(&self) -> TemplateView {
        match self {
            Template::Index(posts) => TemplateView::Index(post_views(posts@)),
            Template::Post(post) => TemplateView::Post(post@),
            Template::CreateForm => TemplateView::CreateForm,
        }
    }
}

/// A page to render: what it is made from, the representation to render it
/// in, and what it shows of the site.
#[derive(Debug, PartialEq, Eq)]
pub struct Document {
    pub template: Template,
    pub representation: Representation,
    pub site: SiteContext,
}

/// What a `Document` holds.
pub struct DocumentView {
    pub template: TemplateView,
    pub representation: Representation,
    pub site: SiteView,
}

impl View for Document {
    type V = DocumentView;

    open spec fn view(&self) -> DocumentView {
        DocumentView {
            template: self.template@,
            representation: self.representation,
            site: self.site@,
        }
    }
}

/// Why a request failed on the server's side.
#[derive(Clone, Copy, Debug, PartialEq, Eq, Structural)]
pub enum Failure {
    /// The route bound no `id`.
    MissingParam,
    /// The body of the request is no submission.
    Malformed,
    /// The store failed.
    Store,
    /// The store took the post and returned no identity for it.
    NoId,
    /// The page could not be rendered.
    Render,
    /// The clock gave a time that does not read as a timestamp.
    Clock,
    /// The handler was told of something that it had not asked for.
    Unexpected,
}

/// How a request ends.
#[derive(Debug, PartialEq, Eq)]
pub enum Outcome {
    /// A page, fresh or from the cache.
    Served(CachedResponse),
    /// The identity of the post that was created.
    Created(u64),
    /// The submission did not offer the secret of the site.
    Forbidden,
    /// There is no such post.
    NotFound,
    /// The request failed on the server's side.
    Failed(Failure),
}

/// What an `Outcome` holds.
pub enum OutcomeView {
    Served(ResponseView),
    Created(u64),
    Forbidden,
    NotFound,
    Failed(Failure),
}

impl View for Outcome {
    type V = OutcomeView;

    open spec fn view(&self) -> OutcomeView {
        match self {
            Outcome::Served(response) => OutcomeView::Served(response@),
            Outcome::Created(id) => OutcomeView::Created(*id),
            Outcome::Forbidden => OutcomeView::Forbidden,
            Outcome::NotFound => OutcomeView::NotFound,
            Outcome::Failed(failure) => OutcomeView::Failed(*failure),
        }
    }
}

/// The status of the response that tells of an outcome.
pub open spec fn status_of(outcome: OutcomeView) -> u16 {
    match outcome {
        OutcomeView::Served(response) => response.status,
        OutcomeView::Created(_) => 200,
        OutcomeView::Forbidden => 403,
        OutcomeView::NotFound => 404,
        OutcomeView::Failed(_) => 500,
    }
}

impl Outcome {
    /// The status of the response that tells of this outcome.
    pub fn status(&self) -> (status: u16)
        ensures
            status == status_of(self@),
    {
        match self {
            Outcome::Served(response) => response.status,
            Outcome::Created(_) => 200,
            Outcome::Forbidden => 403,
            Outcome::NotFound => 404,
            Outcome::Failed(_) => 500,
        }
    }
}

/// What a handler asks for.
#[derive(Debug, PartialEq, Eq)]
pub enum Action {
    /// Read the cache under this key.
    CacheGet(CacheKey),
    /// Store the response in the cache under this key, to be served for
    /// `max_age` seconds.
    CachePut { key: CacheKey, response: CachedResponse, max_age: u64 },
    /// Remove what the cache holds under this key.
    CacheDelete(CacheKey),
    /// Fetch all posts from the store.
    SelectAll,
    /// Fetch the post with this identity from the store.
    SelectById(String),
    /// Add a post to the store.
    Insert { title: String, content: String, create_time: String },
    /// Render a page.
    Render(Document),
    /// Read a submission from the body of the request.
    ReadSubmission,
    /// Answer the request. The handler is done.
    Respond(Outcome),
}

/// What an `Action` holds.
pub enum ActionView {
    CacheGet(CacheKeyView),
    CachePut { key: CacheKeyView, response: ResponseView, max_age: u64 },
    CacheDelete(CacheKeyView),
    SelectAll,
    SelectById(Seq<char>),
    Insert { title: Seq<char>, content: Seq<char>, create_time: Seq<char> },
    Render(DocumentView),
    ReadSubmission,
    Respond(OutcomeView),
}

impl View for Action {
    type V = ActionView;

    open spec fn view(&self) -> ActionView {
        match self {
            Action::CacheGet(key) => ActionView::CacheGet(key@),
            Action::CachePut { key, response, max_age } => ActionView::CachePut {
                key: key@,
                response: response@,
                max_age: *max_age,
            },
            Action::CacheDelete(key) => ActionView::CacheDelete(key@),
            Action::SelectAll => ActionView::SelectAll,
            Action::SelectById(id) => ActionView::SelectById(id@),
            Action::Insert { title, content, create_time } => ActionView::Insert {
                title: title@,
                content: content@,
                create_time: create_time@,
            },
            Action::Render(document) => ActionView::Render(document@),
            Action::ReadSubmission => ActionView::ReadSubmission,
            Action::Respond(outcome) => ActionView::Respond(outcome@),
        }
    }
}

/// What a handler is told.
#[derive(Debug, PartialEq, Eq)]
pub enum Event {
    /// The request has arrived.
    Arrived,
    /// The answer of the cache to a read. `None` stands for a miss, and for a
    /// cache that failed or could not be reached.
    Cached(Option<CachedResponse>),
    /// The cache has been told to store or to remove, however that ended.
    CacheDone,
    /// The posts of the store, oldest first.
    Rows(Vec<Post>),
    /// The post that was asked for, if the store has it.
    Row(Option<Post>),
    /// The store has taken the post; the identity that it returned, if any.
    Inserted(Option<u64>),
    /// The store failed.
    StoreFailed,
    /// The body of the page.
    Rendered(String),
    /// The page could not be rendered.
    RenderFailed,
    /// The submission that the body of the request holds.
    Submission(CreatePost),
    /// The body of the request is no submission.
    Malformed,
}

/// What an `Event` holds.
pub enum EventView {
    Arrived,
    Cached(Option<ResponseView>),
    CacheDone,
    Rows(Seq<PostView>),
    Row(Option<PostView>),
    Inserted(Option<u64>),
    StoreFailed,
    Rendered(Seq<char>),
    RenderFailed,
    Submission(SubmissionView),
    Malformed,
}

impl View for Event {
    type V = EventView;

    open spec fn view(&self) -> EventView {
        match self {
            Event::Arrived => EventView::Arrived,
            Event::Cached(response) => EventView::Cached(response_view(*response)),
            Event::CacheDone => EventView::CacheDone,
            Event::Rows(rows) => EventView::Rows(post_views(rows@)),
            Event::Row(row) => EventView::Row(optional_post_view(*row)),
            Event::Inserted(id) => EventView::Inserted(*id),
            Event::StoreFailed => EventView::StoreFailed,
            Event::Rendered(body) => EventView::Rendered(body@),
            Event::RenderFailed => EventView::RenderFailed,
            Event::Submission(submission) => EventView::Submission(submission@),
            Event::Malformed => EventView::Malformed,
        }
    }
}

/// How far a handler has come with a request.
#[derive(Debug, PartialEq, Eq)]
pub enum State {
    /// Nothing has been asked yet.
    Received,
    /// The cache has been asked for the page.
    AskedCache,
    /// The store has been asked for what the page shows.
    AskedStore,
    /// The renderer has been asked for the body.
    AskedRender,
    /// The cache has been asked to store this response.
    AskedPut(CachedResponse),
    /// The submission has been asked for.
    AskedSubmission,
    /// The store has been asked to take the post.
    AskedInsert,
    /// The post has this identity, and the cache has been asked to remove
    /// the entry at this place in the list of entries that show the posts.
    Invalidating(u64, usize),
    /// The request has been answered.
    Done,
}

/// What a `State` holds.
pub enum StateView {
    Received,
    AskedCache,
    AskedStore,
    AskedRender,
    AskedPut(ResponseView),
    AskedSubmission,
    AskedInsert,
    Invalidating(u64, int),
    Done,
}

impl View for State {
    type V = StateView;

    open spec fn view(&self) -> StateView {
        match self {
            State::Received => StateView::Received,
            State::AskedCache => StateView::AskedCache,
            State::AskedStore => StateView::AskedStore,
            State::AskedRender => StateView::AskedRender,
            State::AskedPut(response) => StateView::AskedPut(response@),
            State::AskedSubmission => StateView::AskedSubmission,
            State::AskedInsert => StateView::AskedInsert,
            State::Invalidating(id, place) => StateView::Invalidating(*id, *place as int),
            State::Done => StateView::Done,
        }
    }
}

/// A step that answers the request and ends the handler.
pub open spec fn done(outcome: OutcomeView) -> (StateView, ActionView) {
    (StateView::Done, ActionView::Respond(outcome))
}

/// The step of a handler that is told of something it had not asked for.
pub open spec fn unexpected() -> (StateView, ActionView) {
    done(OutcomeView::Failed(Failure::Unexpected))
}

/// The response that serves a rendered body.
pub open spec fn page(representation: Representation, body: Seq<char>) -> ResponseView {
    ResponseView { status: 200, representation, body }
}

/// The keys of the cache entries that show the list of posts: the front page
/// in each of its representations.
pub open spec fn index_keys() -> Seq<CacheKeyView> {
    seq![key_of(Method::Get, "/"@), key_of(Method::Get, "/json"@)]
}

/// What the handler of the front page does next. It asks the cache first and
/// answers with what the cache holds. After a miss it asks the store for all
/// posts, has them rendered newest first, each creation time rewritten as
/// `times` has it, stores the page for a day and answers with it.
pub open spec fn index_step(
    req: RequestView,
    ctx: ContextView,
    state: StateView,
    event: EventView,
    times: Seq<Seq<char>>,
) -> (StateView, ActionView) {
    let key = key_of(req.method, req.path);
    match (state, event) {
        (StateView::Received, EventView::Arrived) => (
            StateView::AskedCache,
            ActionView::CacheGet(key),
        ),
        (StateView::AskedCache, EventView::Cached(Some(response))) => done(
            OutcomeView::Served(response),
        ),
        (StateView::AskedCache, EventView::Cached(None)) => (
            StateView::AskedStore,
            ActionView::SelectAll,
        ),
        (StateView::AskedStore, EventView::Rows(rows)) => if all_rfc3339(rows.reverse()) {
            (
                StateView::AskedRender,
                ActionView::Render(
                    DocumentView {
                        template: TemplateView::Index(retimed_all(rows.reverse(), times)),
                        representation: key.representation,
                        site: ctx.site,
                    },
                ),
            )
        } else {
            done(OutcomeView::Failed(Failure::Render))
        },
        (StateView::AskedStore, EventView::StoreFailed) => done(
            OutcomeView::Failed(Failure::Store),
        ),
        (StateView::AskedRender, EventView::Rendered(body)) => (
            StateView::AskedPut(page(key.representation, body)),
            ActionView::CachePut {
                key,
                response: page(key.representation, body),
                max_age: MAX_AGE,
            },
        ),
        (StateView::AskedRender, EventView::RenderFailed) => done(
            OutcomeView::Failed(Failure::Render),
        ),
        (StateView::AskedPut(response), EventView::CacheDone) => done(
            OutcomeView::Served(response),
        ),
        _ => unexpected(),
    }
}

/// What the handler of a post's page does next. It asks the cache first and
/// answers with what the cache holds. After a miss it asks the store for the
/// post that the route's `id` names. Where the store has none, it answers
/// that, and stores nothing. Otherwise it has the post rendered, for the
/// HTML page with its creation time rewritten to `local`, stores the page
/// for a day and answers with it.
pub open spec fn post_step(
    req: RequestView,
    ctx: ContextView,
    state: StateView,
    event: EventView,
    local: Seq<char>,
) -> (StateView, ActionView) {
    let key = key_of(req.method, req.path);
    match (state, event) {
        (StateView::Received, EventView::Arrived) => (
            StateView::AskedCache,
            ActionView::CacheGet(key),
        ),
        (StateView::AskedCache, EventView::Cached(Some(response))) => done(
            OutcomeView::Served(response),
        ),
        (StateView::AskedCache, EventView::Cached(None)) => match param_named(ctx.param, "id"@) {
            Some(id) => if id.len() > 0 {
                (StateView::AskedStore, ActionView::SelectById(id))
            } else {
                done(OutcomeView::Failed(Failure::MissingParam))
            },
            None => done(OutcomeView::Failed(Failure::MissingParam)),
        },
        (StateView::AskedStore, EventView::Row(Some(post))) => if key.representation
            == Representation::Json {
            (
                StateView::AskedRender,
                ActionView::Render(
                    DocumentView {
                        template: TemplateView::Post(post),
                        representation: Representation::Json,
                        site: ctx.site,
                    },
                ),
            )
        } else if is_rfc3339(post.create_time) {
            (
                StateView::AskedRender,
                ActionView::Render(
                    DocumentView {
                        template: TemplateView::Post(retimed(post, local)),
                        representation: Representation::Html,
                        site: ctx.site,
                    },
                ),
            )
        } else {
            done(OutcomeView::Failed(Failure::Render))
        },
        (StateView::AskedStore, EventView::Row(None)) => done(OutcomeView::NotFound),
        (StateView::AskedStore, EventView::StoreFailed) => done(
            OutcomeView::Failed(Failure::Store),
        ),
        (StateView::AskedRender, EventView::Rendered(body)) => (
            StateView::AskedPut(page(key.representation, body)),
            ActionView::CachePut {
                key,
                response: page(key.representation, body),
                max_age: MAX_AGE,
            },
        ),
        (StateView::AskedRender, EventView::RenderFailed) => done(
            OutcomeView::Failed(Failure::Render),
        ),
        (StateView::AskedPut(response), EventView::CacheDone) => done(
            OutcomeView::Served(response),
        ),
        _ => unexpected(),
    }
}

/// What the handler that creates a post does next, where the clock reads
/// `stamp`. It asks for the submission and refuses one that does not offer
/// the secret of the site. It has the store take the post with `stamp` as its
/// creation time, then has the cache remove every entry that shows the list
/// of posts, and answers with the identity that the store gave the post.
pub open spec fn create_step(
    req: RequestView,
    ctx: ContextView,
    state: StateView,
    event: EventView,
    stamp: Seq<char>,
) -> (StateView, ActionView) {
    match (state, event) {
        (StateView::Received, EventView::Arrived) => (
            StateView::AskedSubmission,
            ActionView::ReadSubmission,
        ),
        (StateView::AskedSubmission, EventView::Submission(submission)) => if !grants(
            ctx.secret,
            submission.secret,
        ) {
            done(OutcomeView::Forbidden)
        } else if is_rfc3339(stamp) {
            (
                StateView::AskedInsert,
                ActionView::Insert {
                    title: submission.title,
                    content: submission.content,
                    create_time: stamp,
                },
            )
        } else {
            done(OutcomeView::Failed(Failure::Clock))
        },
        (StateView::AskedSubmission, EventView::Malformed) => done(
            OutcomeView::Failed(Failure::Malformed),
        ),
        (StateView::AskedInsert, EventView::Inserted(Some(id))) => (
            StateView::Invalidating(id, 0),
            ActionView::CacheDelete(index_keys()[0]),
        ),
        (StateView::AskedInsert, EventView::Inserted(None)) => done(
            OutcomeView::Failed(Failure::NoId),
        ),
        (StateView::AskedInsert, EventView::StoreFailed) => done(
            OutcomeView::Failed(Failure::Store),
        ),
        (StateView::Invalidating(id, place), EventView::CacheDone) => if 0 <= place && place + 1
            < index_keys().len() {
            (
                StateView::Invalidating(id, place + 1),
                ActionView::CacheDelete(index_keys()[place + 1]),
            )
        } else {
            done(OutcomeView::Created(id))
        },
        _ => unexpected(),
    }
}

/// What the handler of the submission form does next: it has the form
/// rendered and answers with it. It never touches the cache.
pub open spec fn create_page_step(
    req: RequestView,
    ctx: ContextView,
    state: StateView,
    event: EventView,
) -> (StateView, ActionView) {
    match (state, event) {
        (StateView::Received, EventView::Arrived) => (
            StateView::AskedRender,
            ActionView::Render(
                DocumentView {
                    template: TemplateView::CreateForm,
                    representation: Representation::Html,
                    site: ctx.site,
                },
            ),
        ),
        (StateView::AskedRender, EventView::Rendered(body)) => done(
            OutcomeView::Served(page(Representation::Html, body)),
        ),
        (StateView::AskedRender, EventView::RenderFailed) => done(
            OutcomeView::Failed(Failure::Render),
        ),
        _ => unexpected(),
    }
}

/// The key of the entry at `place` in the list of entries that show the
/// posts, if the list is that long.
fn index_key(place: usize) -> (key: Option<CacheKey>)
    ensures
        match key {
            Some(key) => place < index_keys().len() && key@ == index_keys()[place as int],
            None => place >= index_keys().len(),
        },
{
    if place == 0 {
        Some(CacheKey::of(Method::Get, "/"))
    } else if place == 1 {
        Some(CacheKey::of(Method::Get, "/json"))
    } else {
        None
    }
}

/// The step of the creation that follows the removal at `place`, or the
/// insertion where nothing was removed yet: the next removal, or the answer
/// when nothing is left to remove.
fn invalidate(id: u64, place: usize) -> (next: (State, Action))
    ensures
        (next.0@, next.1@) == if place < index_keys().len() {
            (
                StateView::Invalidating(id, place as int),
                ActionView::CacheDelete(index_keys()[place as int]),
            )
        } else {
            done(OutcomeView::Created(id))
        },
{
    match index_key(place) {
        Some(key) => (State::Invalidating(id, place), Action::CacheDelete(key)),
        None => (State::Done, Action::Respond(Outcome::Created(id))),
    }
}

/// The steps that the handlers of cached pages share, once the page is
/// rendered.
fn finish_page(key: CacheKey, state: State, event: Event) -> (next: (State, Action))
    ensures
        (next.0@, next.1@) == match (state@, event@) {
            (StateView::AskedRender, EventView::Rendered(body)) => (
                StateView::AskedPut(page(key@.representation, body)),
                ActionView::CachePut {
                    key: key@,
                    response: page(key@.representation, body),
                    max_age: MAX_AGE,
                },
            ),
            (StateView::AskedRender, EventView::RenderFailed) => done(
                OutcomeView::Failed(Failure::Render),
            ),
            (StateView::AskedPut(response), EventView::CacheDone) => done(
                OutcomeView::Served(response),
            ),
            _ => unexpected(),
        },
{
    match (state, event) {
        (State::AskedRender, Event::Rendered(body)) => {
            let response = CachedResponse { status: 200, representation: key.representation, body };
            (
                State::AskedPut(response.clone()),
                Action::CachePut { key, response, max_age: MAX_AGE },
            )
        },
        (State::AskedRender, Event::RenderFailed) => (
            State::Done,
            Action::Respond(Outcome::Failed(Failure::Render)),
        ),
        (State::AskedPut(response), Event::CacheDone) => (
            State::Done,
            Action::Respond(Outcome::Served(response)),
        ),
        _ => (State::Done, Action::Respond(Outcome::Failed(Failure::Unexpected))),
    }
}

/// One step of the handler of the front page: given how far it has come and
/// what has happened, how far it is now and what it asks for next.
pub fn get_index(req: &Request, ctx: &RouteContext, state: State, event: Event) -> (next: (
    State,
    Action,
))
    ensures
        exists|times: Seq<Seq<char>>|
            (next.0@, next.1@) == index_step(req@, ctx@, state@, event@, times),
{
    let ghost mut times: Seq<Seq<char>> = Seq::empty();
    let next = match (state, event) {
        (State::Received, Event::Arrived) => (
            State::AskedCache,
            Action::CacheGet(CacheKey::of(req.method, req.path.as_str())),
        ),
        (State::AskedCache, Event::Cached(Some(response))) => (
            State::Done,
            Action::Respond(Outcome::Served(response)),
        ),
        (State::AskedCache, Event::Cached(None)) => (State::AskedStore, Action::SelectAll),
        (State::AskedStore, Event::Rows(rows)) => {
            assert(post_views(rows@.reverse()) =~= post_views(rows@).reverse());
            let mut index = Index::newest_first(rows);
            if index.localize() {
                proof {
                    times = Seq::new(index.posts@.len(), |i: int| index.posts@[i].create_time@);
                }
                let key = CacheKey::of(req.method, req.path.as_str());
                (
                    State::AskedRender,
                    Action::Render(
                        Document {
                            template: Template::Index(index.posts),
                            representation: key.representation,
                            site: ctx.site.clone(),
                        },
                    ),
                )
            } else {
                (State::Done, Action::Respond(Outcome::Failed(Failure::Render)))
            }
        },
        (State::AskedStore, Event::StoreFailed) => (
            State::Done,
            Action::Respond(Outcome::Failed(Failure::Store)),
        ),
        (State::AskedRender, event) => finish_page(
            CacheKey::of(req.method, req.path.as_str()),
            State::AskedRender,
            event,
        ),
        (State::AskedPut(response), event) => finish_page(
            CacheKey::of(req.method, req.path.as_str()),
            State::AskedPut(response),
            event,
        ),
        _ => (State::Done, Action::Respond(Outcome::Failed(Failure::Unexpected))),
    };
    assert((next.0@, next.1@) == index_step(req@, ctx@, state@, event@, times));
    next
}

/// One step of the handler of a post's page: given how far it has come and
/// what has happened, how far it is now and what it asks for next.
pub fn get_post(req: &Request, ctx: &RouteContext, state: State, event: Event) -> (next: (
    State,
    Action,
))
    ensures
        exists|local: Seq<char>|
            (next.0@, next.1@) == post_step(req@, ctx@, state@, event@, local),
{
    let ghost mut local: Seq<char> = Seq::empty();
    let next = match (state, event) {
        (State::Received, Event::Arrived) => (
            State::AskedCache,
            Action::CacheGet(CacheKey::of(req.method, req.path.as_str())),
        ),
        (State::AskedCache, Event::Cached(Some(response))) => (
            State::Done,
            Action::Respond(Outcome::Served(response)),
        ),
        (State::AskedCache, Event::Cached(None)) => match ctx.param("id") {
            Some(id) => if id.as_str().is_empty() {
                (State::Done, Action::Respond(Outcome::Failed(Failure::MissingParam)))
            } else {
                (State::AskedStore, Action::SelectById(id.clone()))
            },
            None => (State::Done, Action::Respond(Outcome::Failed(Failure::MissingParam))),
        },
        (State::AskedStore, Event::Row(Some(post))) => {
            let key = CacheKey::of(req.method, req.path.as_str());
            let mut post = post;
            match key.representation {
                Representation::Json => (
                    State::AskedRender,
                    Action::Render(
                        Document {
                            template: Template::Post(post),
                            representation: Representation::Json,
                            site: ctx.site.clone(),
                        },
                    ),
                ),
                Representation::Html => if post.localize() {
                    proof {
                        local = post.create_time@;
                    }
                    (
                        State::AskedRender,
                        Action::Render(
                            Document {
                                template: Template::Post(post),
                                representation: Representation::Html,
                                site: ctx.site.clone(),
                            },
                        ),
                    )
                } else {
                    (State::Done, Action::Respond(Outcome::Failed(Failure::Render)))
                },
            }
        },
        (State::AskedStore, Event::Row(None)) => (State::Done, Action::Respond(Outcome::NotFound)),
        (State::AskedStore, Event::StoreFailed) => (
            State::Done,
            Action::Respond(Outcome::Failed(Failure::Store)),
        ),
        (State::AskedRender, event) => finish_page(
            CacheKey::of(req.method, req.path.as_str()),
            State::AskedRender,
            event,
        ),
        (State::AskedPut(response), event) => finish_page(
            CacheKey::of(req.method, req.path.as_str()),
            State::AskedPut(response),
            event,
        ),
        _ => (State::Done, Action::Respond(Outcome::Failed(Failure::Unexpected))),
    };
    assert((next.0@, next.1@) == post_step(req@, ctx@, state@, event@, local));
    next
}

/// One step of the handler that creates a post, where the clock reads
/// `stamp`.
pub fn create_at(
    req: &Request,
    ctx: &RouteContext,
    state: State,
    event: Event,
    stamp: String,
) -> (next: (State, Action))
    ensures
        (next.0@, next.1@) == create_step(req@, ctx@, state@, event@, stamp@),
{
    match (state, event) {
        (State::Received, Event::Arrived) => (State::AskedSubmission, Action::ReadSubmission),
        (State::AskedSubmission, Event::Submission(submission)) => {
            if !authenticate(&ctx.secret, &submission.secret) {
                (State::Done, Action::Respond(Outcome::Forbidden))
            } else if parses_as_rfc3339(stamp.as_str()) {
                (
                    State::AskedInsert,
                    Action::Insert {
                        title: submission.title,
                        content: submission.content,
                        create_time: stamp,
                    },
                )
            } else {
                (State::Done, Action::Respond(Outcome::Failed(Failure::Clock)))
            }
        },
        (State::AskedSubmission, Event::Malformed) => (
            State::Done,
            Action::Respond(Outcome::Failed(Failure::Malformed)),
        ),
        (State::AskedInsert, Event::Inserted(Some(id))) => invalidate(id, 0),
        (State::AskedInsert, Event::Inserted(None)) => (
            State::Done,
            Action::Respond(Outcome::Failed(Failure::NoId)),
        ),
        (State::AskedInsert, Event::StoreFailed) => (
            State::Done,
            Action::Respond(Outcome::Failed(Failure::Store)),
        ),
        (State::Invalidating(id, place), Event::CacheDone) => {
            if place < usize::MAX {
                invalidate(id, place + 1)
            } else {
                (State::Done, Action::Respond(Outcome::Created(id)))
            }
        },
        _ => (State::Done, Action::Respond(Outcome::Failed(Failure::Unexpected))),
    }
}

/// One step of the handler that creates a post: given how far it has come
/// and what has happened, how far it is now and what it asks for next. The
/// creation time of the post is what the clock reads when the submission is
/// there.
pub fn create(req: &Request, ctx: &RouteContext, state: State, event: Event) -> (next: (
    State,
    Action,
))
    ensures
        exists|stamp: Seq<char>|
            (next.0@, next.1@) == create_step(req@, ctx@, state@, event@, stamp),
{
    let stamp = match (&state, &event) {
        (State::AskedSubmission, Event::Submission(_)) => utc_now_rfc3339(),
        _ => String::new(),
    };
    let next = create_at(req, ctx, state, event, stamp);
    assert((next.0@, next.1@) == create_step(req@, ctx@, state@, event@, stamp@));
    next
}

/// One step of the handler of the submission form: given how far it has come
/// and what has happened, how far it is now and what it asks for next.
pub fn create_page(req: &Request, ctx: &RouteContext, state: State, event: Event) -> (next: (
    State,
    Action,
))
    ensures
        (next.0@, next.1@) == create_page_step(req@, ctx@, state@, event@),
{
    match (state, event) {
        (State::Received, Event::Arrived) => (
            State::AskedRender,
            Action::Render(
                Document {
                    template: Template::CreateForm,
                    representation: Representation::Html,
                    site: ctx.site.clone(),
                },
            ),
        ),
        (State::AskedRender, Event::Rendered(body)) => (
            State::Done,
            Action::Respond(
                Outcome::Served(
                    CachedResponse { status: 200, representation: Representation::Html, body },
                ),
            ),
        ),
        (State::AskedRender, Event::RenderFailed) => (
            State::Done,
            Action::Respond(Outcome::Failed(Failure::Render)),
        ),
        _ => (State::Done, Action::Respond(Outcome::Failed(Failure::Unexpected))),
    }
}

} // verus!
