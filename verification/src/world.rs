//! The handlers at work: a model of the cache and the store that answers
//! what a handler asks for, and what holds of every request served in it.

use crate::blog::{blog_route, lemma_literal_pattern, lemma_root_pattern, Handler};
use crate::cache::{
    fresh, key_of, lookup, CacheKeyView, EntryView, ResponseCache, ResponseView,
};
use crate::handlers::{
    create_page_step, create_step, index_keys, index_step, post_step, unexpected, Action,
    ActionView, DocumentView, Event, EventView, Failure, OutcomeView, StateView, TemplateView,
    MAX_AGE,
};
use crate::path::{lemma_canonical_by_segments, segments, Representation};
use crate::post::{retimed_all, PostView};
use crate::router::Method;
use crate::site::{grants, param_named, ContextView, RequestView, SubmissionView};
use crate::time::is_rfc3339;
use vstd::prelude::*;

verus! {

/// The cache and the store at one moment.
pub struct World {
    /// What the cache holds.
    pub cache: Map<CacheKeyView, EntryView>,
    /// The posts of the store, in the order in which they were inserted.
    pub posts: Seq<PostView>,
    /// The time, in seconds.
    pub now: u64,
}

/// What the model leaves open: how the renderer, the clock, the client and
/// the store's reading of an identity answer.
pub struct Outside {
    /// The body that the renderer gives for a page, if it gives one.
    pub render: spec_fn(DocumentView) -> Option<Seq<char>>,
    /// The post that the store finds for the text of an identity.
    pub find: spec_fn(Seq<PostView>, Seq<char>) -> Option<PostView>,
    /// The submission in the body of the request, if the body holds one.
    pub submission: Option<SubmissionView>,
    /// What the clock reads.
    pub stamp: Seq<char>,
    /// A timestamp rewritten in the time zone of the machine.
    pub local: spec_fn(Seq<char>) -> Seq<char>,
}

/// The identity that the store gives to the next post: one more than that of
/// the last post.
pub open spec fn next_id(posts: Seq<PostView>) -> int {
    if posts.len() == 0 {
        1
    } else {
        posts.last().id + 1
    }
}

/// How the world answers what a handler asks for, and what it is afterwards.
pub open spec fn answer(world: World, outside: Outside, action: ActionView) -> (World, EventView) {
    match action {
        ActionView::CacheGet(key) => (world, EventView::Cached(lookup(world.cache, key, world.now))),
        ActionView::CachePut { key, response, max_age } => (
            World {
                cache: world.cache.insert(
                    key,
                    EntryView { response, stored_at: world.now, max_age },
                ),
                ..world
            },
            EventView::CacheDone,
        ),
        ActionView::CacheDelete(key) => (
            World { cache: world.cache.remove(key), ..world },
            EventView::CacheDone,
        ),
        ActionView::SelectAll => (world, EventView::Rows(world.posts)),
        ActionView::SelectById(id) => (world, EventView::Row((outside.find)(world.posts, id))),
        ActionView::Insert { title, content, create_time } => if next_id(world.posts) <= u64::MAX {
            (
                World {
                    posts: world.posts.push(
                        PostView { id: next_id(world.posts) as u64, title, content, create_time },
                    ),
                    ..world
                },
                EventView::Inserted(Some(next_id(world.posts) as u64)),
            )
        } else {
            (world, EventView::StoreFailed)
        },
        ActionView::Render(document) => (
            world,
            match (outside.render)(document) {
                Some(body) => EventView::Rendered(body),
                None => EventView::RenderFailed,
            },
        ),
        ActionView::ReadSubmission => (
            world,
            match outside.submission {
                Some(submission) => EventView::Submission(submission),
                None => EventView::Malformed,
            },
        ),
        ActionView::Respond(_) => (world, EventView::Arrived),
    }
}

/// Answers what a handler asks of the cache from a cache in memory, as the
/// world does at `now`. What the handler asks of anything else comes back
/// as it is, for others to answer, and the cache stays as it is.
pub fn answer_from_cache(cache: &mut ResponseCache, now: u64, action: Action) -> (told: Result<
    Event,
    Action,
>)
    ensures
        match action@ {
            ActionView::CacheGet(key) => told matches Ok(event) && event@ == EventView::Cached(
                lookup(old(cache)@, key, now),
            ) && final(cache)@ == old(cache)@,
            ActionView::CachePut { key, response, max_age } => told matches Ok(event) && event@
                == EventView::CacheDone && final(cache)@ == old(cache)@.insert(
                key,
                EntryView { response, stored_at: now, max_age },
            ),
            ActionView::CacheDelete(key) => told matches Ok(event) && event@
                == EventView::CacheDone && final(cache)@ == old(cache)@.remove(key),
            _ => told matches Err(back) && back@ == action@ && final(cache)@ == old(cache)@,
        },
{
    match action {
        Action::CacheGet(key) => Ok(Event::Cached(cache.get(&key, now))),
        Action::CachePut { key, response, max_age } => {
            cache.put(key, response, max_age, now);
            Ok(Event::CacheDone)
        },
        Action::CacheDelete(key) => {
            cache.delete(&key);
            Ok(Event::CacheDone)
        },
        other => Err(other),
    }
}

/// The creation times of the posts of the front page as the machine rewrites
/// them.
pub open spec fn local_times(outside: Outside, event: EventView) -> Seq<Seq<char>> {
    match event {
        EventView::Rows(rows) => Seq::new(
            rows.len(),
            |i: int| (outside.local)(rows.reverse()[i].create_time),
        ),
        _ => Seq::empty(),
    }
}

/// The creation time of a post as the machine rewrites it.
pub open spec fn local_time(outside: Outside, event: EventView) -> Seq<char> {
    match event {
        EventView::Row(Some(post)) => (outside.local)(post.create_time),
        _ => Seq::empty(),
    }
}

/// One step of a handler of the blog.
pub open spec fn step_of(
    handler: Handler,
    req: RequestView,
    ctx: ContextView,
    state: StateView,
    event: EventView,
    outside: Outside,
) -> (StateView, ActionView) {
    match handler {
        Handler::Index => index_step(req, ctx, state, event, local_times(outside, event)),
        Handler::Post => post_step(req, ctx, state, event, local_time(outside, event)),
        Handler::Create => create_step(req, ctx, state, event, outside.stamp),
        Handler::CreatePage => create_page_step(req, ctx, state, event),
        Handler::Sitemap => unexpected(),
    }
}

/// A request that was served: the world afterwards, the outcome, and what
/// the handler asked for, in order.
pub struct Served {
    pub world: World,
    pub outcome: Option<OutcomeView>,
    pub asked: Seq<ActionView>,
}

/// Runs a handler from `state`, told of `event`: the world answers what the
/// handler asks for until the handler answers the request, or has asked
/// `fuel` times.
pub open spec fn run(
    handler: Handler,
    req: RequestView,
    ctx: ContextView,
    outside: Outside,
    world: World,
    state: StateView,
    event: EventView,
    asked: Seq<ActionView>,
    fuel: nat,
) -> Served
    decreases fuel,
{
    let (next, action) = step_of(handler, req, ctx, state, event, outside);
    match action {
        ActionView::Respond(outcome) => Served { world, outcome: Some(outcome), asked },
        _ => if fuel == 0 {
            Served { world, outcome: None, asked: asked.push(action) }
        } else {
            let (after, told) = answer(world, outside, action);
            run(handler, req, ctx, outside, after, next, told, asked.push(action), (fuel - 1) as nat)
        },
    }
}

/// Serves a request in `world`. No handler asks more than four times.
pub open spec fn serve(
    handler: Handler,
    req: RequestView,
    ctx: ContextView,
    outside: Outside,
    world: World,
) -> Served {
    run(
        handler,
        req,
        ctx,
        outside,
        world,
        StateView::Received,
        EventView::Arrived,
        Seq::empty(),
        4,
    )
}

/// Every request is answered, whatever the world and the outside hold.
pub proof fn lemma_every_request_is_answered(
    handler: Handler,
    req: RequestView,
    ctx: ContextView,
    outside: Outside,
    world: World,
)
    ensures
        serve(handler, req, ctx, outside, world).outcome is Some,
{
    reveal_with_fuel(run, 5);
}

/// A handler that shows posts changes nothing but the cache, and the cache
/// only by storing, under the key of the request and for a day, the page
/// with which it answers. What it answers otherwise, such as that there is
/// no such post, leaves the cache as it was.
pub proof fn lemma_read_stores_only_what_it_serves(
    handler: Handler,
    req: RequestView,
    ctx: ContextView,
    outside: Outside,
    world: World,
)
    requires
        handler == Handler::Index || handler == Handler::Post,
    ensures
        ({
            let key = key_of(req.method, req.path);
            let served = serve(handler, req, ctx, outside, world);
            &&& served.world.posts == world.posts
            &&& served.world.now == world.now
            &&& served.world.cache == world.cache || (served.outcome matches Some(
                OutcomeView::Served(page),
            ) && served.world.cache == world.cache.insert(
                key,
                EntryView { response: page, stored_at: world.now, max_age: MAX_AGE },
            ))
            &&& served.outcome matches Some(OutcomeView::Served(page))
                ==> served.world.cache.contains_key(key) && served.world.cache[key].response
                == page
        }),
{
    reveal_with_fuel(run, 5);
}

/// A page that was served is served again, as it was and without a word to
/// the store or the renderer, for as long as its entry in the cache is
/// fresh and nothing removes it.
pub proof fn lemma_repeated_read_is_served_from_cache(
    handler: Handler,
    req: RequestView,
    ctx: ContextView,
    outside: Outside,
    world: World,
    page: ResponseView,
    later_ctx: ContextView,
    later_outside: Outside,
    later: u64,
)
    requires
        handler == Handler::Index || handler == Handler::Post,
        serve(handler, req, ctx, outside, world).outcome == Some(OutcomeView::Served(page)),
        fresh(serve(handler, req, ctx, outside, world).world.cache[key_of(req.method, req.path)], later),
    ensures
        ({
            let key = key_of(req.method, req.path);
            let first = serve(handler, req, ctx, outside, world);
            let between = World { now: later, ..first.world };
            let again = serve(handler, req, later_ctx, later_outside, between);
            &&& again.outcome == Some(OutcomeView::Served(page))
            &&& again.asked == seq![ActionView::CacheGet(key)]
            &&& again.world == between
        }),
{
    reveal_with_fuel(run, 5);
    lemma_read_stores_only_what_it_serves(handler, req, ctx, outside, world);
}

/// A page that was rendered for a request is fresh for a day from then on.
pub proof fn lemma_rendered_page_is_fresh_for_a_day(
    handler: Handler,
    req: RequestView,
    ctx: ContextView,
    outside: Outside,
    world: World,
    later: u64,
)
    requires
        handler == Handler::Index || handler == Handler::Post,
        serve(handler, req, ctx, outside, world).outcome matches Some(OutcomeView::Served(_)),
        lookup(world.cache, key_of(req.method, req.path), world.now) is None,
        later - world.now <= MAX_AGE,
    ensures
        fresh(serve(handler, req, ctx, outside, world).world.cache[key_of(req.method, req.path)], later),
{
    reveal_with_fuel(run, 5);
}

/// A submission that does not offer the secret of the site is refused,
/// whatever its title and content, and nothing changes: the store gets no
/// post, and the cache stays as it is.
pub proof fn lemma_refused_submission_changes_nothing(
    req: RequestView,
    ctx: ContextView,
    outside: Outside,
    world: World,
    submission: SubmissionView,
)
    requires
        outside.submission == Some(submission),
        !grants(ctx.secret, submission.secret),
    ensures
        ({
            let served = serve(Handler::Create, req, ctx, outside, world);
            &&& served.outcome == Some(OutcomeView::Forbidden)
            &&& served.world == world
            &&& served.asked == seq![ActionView::ReadSubmission]
        }),
{
    reveal_with_fuel(run, 5);
}

/// Only a creation that succeeds writes to the store, and it adds one post:
/// that of the submission, with the identity that the creation answers with
/// and with a creation time, read from the clock, that reads as a timestamp.
/// It removes from the cache the entries that show the list of posts, and
/// nothing else. A creation that does not succeed changes nothing.
pub proof fn lemma_create_writes_once(
    req: RequestView,
    ctx: ContextView,
    outside: Outside,
    world: World,
)
    ensures
        ({
            let served = serve(Handler::Create, req, ctx, outside, world);
            match served.outcome {
                Some(OutcomeView::Created(id)) => {
                    &&& outside.submission matches Some(submission)
                    &&& grants(ctx.secret, submission.secret)
                    &&& is_rfc3339(outside.stamp)
                    &&& id == next_id(world.posts)
                    &&& served.world.posts == world.posts.push(
                        PostView {
                            id,
                            title: submission.title,
                            content: submission.content,
                            create_time: outside.stamp,
                        },
                    )
                    &&& served.world.cache == world.cache.remove(index_keys()[0]).remove(
                        index_keys()[1],
                    )
                    &&& served.world.now == world.now
                },
                _ => served.world == world,
            }
        }),
{
    reveal_with_fuel(run, 5);
}

/// The key of every request that the blog routes to its front page is one of
/// the keys that a creation removes from the cache.
pub proof fn lemma_index_requests_have_index_keys(method: Method, path: Seq<char>)
    requires
        blog_route(method, segments(path)) matches Some((Handler::Index, _)),
    ensures
        key_of(method, path) == index_keys()[0] || key_of(method, path) == index_keys()[1],
{
    reveal_strlit("/");
    reveal_strlit("/json");
    reveal_strlit("json");
    reveal_strlit("create");
    reveal_strlit("sitemap.xml");
    assert("/"@ =~= seq!['/']);
    assert("/json"@ =~= seq!['/'] + "json"@);
    lemma_root_pattern();
    lemma_literal_pattern("/json"@, "json"@);
    let pieces = segments(path);
    if pieces.len() == 0 {
        assert(pieces =~= segments("/"@));
        lemma_canonical_by_segments(path, "/"@);
    } else {
        assert(pieces =~= seq!["json"@]);
        lemma_canonical_by_segments(path, "/json"@);
    }
}

/// After a creation, the front page is not served from what the cache held
/// before: the handler asks the store, and the page that it answers with is
/// rendered from a list that begins with the new post.
pub proof fn lemma_front_page_after_create_shows_the_post(
    req: RequestView,
    ctx: ContextView,
    outside: Outside,
    world: World,
    id: u64,
    list_req: RequestView,
    list_ctx: ContextView,
    list_outside: Outside,
    later: u64,
)
    requires
        serve(Handler::Create, req, ctx, outside, world).outcome == Some(OutcomeView::Created(id)),
        blog_route(list_req.method, segments(list_req.path)) matches Some((Handler::Index, _)),
    ensures
        ({
            let created = serve(Handler::Create, req, ctx, outside, world).world;
            let key = key_of(list_req.method, list_req.path);
            let next = serve(
                Handler::Index,
                list_req,
                list_ctx,
                list_outside,
                World { now: later, ..created },
            );
            let shown = retimed_all(
                created.posts.reverse(),
                local_times(list_outside, EventView::Rows(created.posts)),
            );
            &&& !created.cache.contains_key(key)
            &&& next.asked.len() >= 2
            &&& next.asked[0] == ActionView::CacheGet(key)
            &&& next.asked[1] == ActionView::SelectAll
            &&& shown.len() == world.posts.len() + 1
            &&& shown[0].id == id
            &&& outside.submission matches Some(submission) && shown[0].title == submission.title
                && shown[0].content == submission.content
            &&& next.outcome matches Some(OutcomeView::Served(page)) ==> (list_outside.render)(
                DocumentView {
                    template: TemplateView::Index(shown),
                    representation: key.representation,
                    site: list_ctx.site,
                },
            ) == Some(page.body)
        }),
{
    reveal_with_fuel(run, 5);
    lemma_create_writes_once(req, ctx, outside, world);
    lemma_index_requests_have_index_keys(list_req.method, list_req.path);
}

/// A post that was created is read back: where the store finds it under the
/// identity that the creation answered with, and the cache holds no page
/// for the request, the page that the handler answers with is rendered from
/// the title and the content of the submission and a creation time that
/// reads as a timestamp.
pub proof fn lemma_created_post_is_read_back(
    req: RequestView,
    ctx: ContextView,
    outside: Outside,
    world: World,
    id: u64,
    read_req: RequestView,
    read_ctx: ContextView,
    read_outside: Outside,
    later: u64,
    text: Seq<char>,
)
    requires
        serve(Handler::Create, req, ctx, outside, world).outcome == Some(OutcomeView::Created(id)),
        key_of(read_req.method, read_req.path).representation == Representation::Json,
        lookup(
            serve(Handler::Create, req, ctx, outside, world).world.cache,
            key_of(read_req.method, read_req.path),
            later,
        ) is None,
        param_named(read_ctx.param, "id"@) == Some(text),
        text.len() > 0,
        (read_outside.find)(serve(Handler::Create, req, ctx, outside, world).world.posts, text)
            == Some(serve(Handler::Create, req, ctx, outside, world).world.posts.last()),
    ensures
        ({
            let created = serve(Handler::Create, req, ctx, outside, world).world;
            let post = created.posts.last();
            let read = serve(
                Handler::Post,
                read_req,
                read_ctx,
                read_outside,
                World { now: later, ..created },
            );
            &&& post.id == id
            &&& outside.submission matches Some(submission) && post.title == submission.title
                && post.content == submission.content
            &&& is_rfc3339(post.create_time)
            &&& read.outcome matches Some(OutcomeView::Served(page)) ==> page.status == 200
                && page.representation == Representation::Json && (read_outside.render)(
                DocumentView {
                    template: TemplateView::Post(post),
                    representation: Representation::Json,
                    site: read_ctx.site,
                },
            ) == Some(page.body)
            &&& (read.outcome matches Some(OutcomeView::Served(_))) || read.outcome == Some(
                OutcomeView::Failed(Failure::Render),
            )
        }),
{
    reveal_with_fuel(run, 5);
    lemma_create_writes_once(req, ctx, outside, world);
}

/// A request for a post that the store does not have is answered with
/// `NotFound`, and the cache is left as it was: nothing is stored under the
/// key of the request.
pub proof fn lemma_missing_post_is_not_cached(
    req: RequestView,
    ctx: ContextView,
    outside: Outside,
    world: World,
    id: Seq<char>,
)
    requires
        lookup(world.cache, key_of(req.method, req.path), world.now) is None,
        param_named(ctx.param, "id"@) == Some(id),
        id.len() > 0,
        (outside.find)(world.posts, id) is None,
    ensures
        ({
            let served = serve(Handler::Post, req, ctx, outside, world);
            &&& served.outcome == Some(OutcomeView::NotFound)
            &&& served.world == world
            &&& served.asked == seq![
                ActionView::CacheGet(key_of(req.method, req.path)),
                ActionView::SelectById(id),
            ]
        }),
{
    reveal_with_fuel(run, 5);
}

} // verus!
