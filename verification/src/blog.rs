//! The routes of the blog.

use crate::path::{lemma_split_plain, lemma_split_slash, segments, split, trimmed};
use crate::router::{
    binding, first_match, lemma_first_match, pattern_accepts, pattern_of, placeholders, resolve,
    route_accepts, segment_accepts, segment_of, segments_from, unnamed, well_formed, MatchView,
    Method, Pattern, RouteView, Router, SegmentView,
};
use vstd::prelude::*;

verus! {

/// The handlers that the routes of the blog lead to.
#[derive(Clone, Copy, Debug, PartialEq, Eq, Structural)]
pub enum Handler {
    /// The sitemap.
    Sitemap,
    /// The form that submits a post.
    CreatePage,
    /// The creation of a post.
    Create,
    /// The front page: the list of posts.
    Index,
    /// The page of one post.
    Post,
}

/// The pattern of a single literal segment.
pub open spec fn literal(name: Seq<char>) -> Seq<SegmentView> {
    seq![SegmentView::Literal(name)]
}

/// The routes of the blog, in the order of their registration. The literal
/// routes stand before the routes with a placeholder, which would accept
/// their paths too.
pub open spec fn blog_routes() -> Seq<RouteView<Handler>> {
    seq![
        RouteView {
            method: Method::Get,
            pattern: literal("sitemap.xml"@),
            handler: Handler::Sitemap,
        },
        RouteView { method: Method::Get, pattern: literal("create"@), handler: Handler::CreatePage },
        RouteView { method: Method::Post, pattern: literal("create"@), handler: Handler::Create },
        RouteView { method: Method::Get, pattern: literal("json"@), handler: Handler::Index },
        RouteView {
            method: Method::Get,
            pattern: Seq::<SegmentView>::empty(),
            handler: Handler::Index,
        },
        RouteView {
            method: Method::Get,
            pattern: seq![SegmentView::Placeholder("id"@), SegmentView::Literal("json"@)],
            handler: Handler::Post,
        },
        RouteView {
            method: Method::Get,
            pattern: seq![SegmentView::Placeholder("id"@)],
            handler: Handler::Post,
        },
    ]
}

/// The handler that serves a request of the blog, with the `id` that the
/// path names where the handler is that of a post; `None` where the blog has
/// no route for the request.
pub open spec fn blog_route(method: Method, pieces: Seq<Seq<char>>) -> Option<
    (Handler, Option<Seq<char>>),
> {
    if method == Method::Post {
        if pieces == seq!["create"@] {
            Some((Handler::Create, None))
        } else {
            None
        }
    } else if method != Method::Get {
        None
    } else if pieces.len() == 0 {
        Some((Handler::Index, None))
    } else if pieces.len() == 1 {
        if pieces[0] == "sitemap.xml"@ {
            Some((Handler::Sitemap, None))
        } else if pieces[0] == "create"@ {
            Some((Handler::CreatePage, None))
        } else if pieces[0] == "json"@ {
            Some((Handler::Index, None))
        } else if pieces[0].len() > 0 {
            Some((Handler::Post, Some(pieces[0])))
        } else {
            None
        }
    } else if pieces.len() == 2 && pieces[0].len() > 0 && pieces[1] == "json"@ {
        Some((Handler::Post, Some(pieces[0])))
    } else {
        None
    }
}

/// The text `/name`, for a name without a slash that does not begin with a
/// colon, spells the pattern of that one literal.
pub proof fn lemma_literal_pattern(text: Seq<char>, name: Seq<char>)
    requires
        text == seq!['/'] + name,
        name.len() > 0,
        name[0] != ':',
        forall|i: int| 0 <= i < name.len() ==> name[i] != '/',
    ensures
        segments(text) == seq![name],
        pattern_of(text) == literal(name),
        well_formed(pattern_of(text)),
{
    reveal_with_fuel(placeholders, 2);
    reveal_with_fuel(unnamed, 2);
    assert(text.last() == name.last());
    assert(trimmed(text) =~= name);
    lemma_split_plain(name);
    assert(pattern_of(text) =~= literal(name));
    assert(literal(name).drop_last() =~= Seq::<SegmentView>::empty());
}

/// The text `/:name` spells the pattern of that one placeholder.
pub proof fn lemma_placeholder_pattern(text: Seq<char>, name: Seq<char>)
    requires
        text == seq!['/', ':'] + name,
        name.len() > 0,
        forall|i: int| 0 <= i < name.len() ==> name[i] != '/',
    ensures
        pattern_of(text) == seq![SegmentView::Placeholder(name)],
        well_formed(pattern_of(text)),
{
    reveal_with_fuel(placeholders, 2);
    reveal_with_fuel(unnamed, 2);
    let piece = seq![':'] + name;
    assert(text.last() == name.last());
    assert(trimmed(text) =~= piece);
    lemma_split_plain(piece);
    assert(piece.skip(1) =~= name);
    let pattern = seq![SegmentView::Placeholder(name)];
    assert(pattern_of(text) =~= pattern);
    assert(pattern.drop_last() =~= Seq::<SegmentView>::empty());
}

/// The text `/:name/word` spells the pattern of that placeholder followed by
/// that literal.
pub proof fn lemma_placeholder_literal_pattern(text: Seq<char>, name: Seq<char>, word: Seq<char>)
    requires
        text == seq!['/', ':'] + name + seq!['/'] + word,
        name.len() > 0,
        word.len() > 0,
        word[0] != ':',
        forall|i: int| 0 <= i < name.len() ==> name[i] != '/',
        forall|i: int| 0 <= i < word.len() ==> word[i] != '/',
    ensures
        pattern_of(text) == seq![SegmentView::Placeholder(name), SegmentView::Literal(word)],
        well_formed(pattern_of(text)),
{
    reveal_with_fuel(placeholders, 3);
    reveal_with_fuel(unnamed, 3);
    let piece = seq![':'] + name;
    assert(text.last() == word.last());
    assert(trimmed(text) =~= piece + seq!['/'] + word);
    lemma_split_slash(piece, word);
    lemma_split_plain(piece);
    lemma_split_plain(word);
    assert(split(piece) + split(word) =~= seq![piece, word]);
    assert(piece.skip(1) =~= name);
    let pattern = seq![SegmentView::Placeholder(name), SegmentView::Literal(word)];
    assert(pattern_of(text) =~= pattern);
    assert(pattern.drop_last() =~= seq![SegmentView::Placeholder(name)]);
    assert(pattern.drop_last().drop_last() =~= Seq::<SegmentView>::empty());
}

/// The root path has no segments, and spells the pattern without segments.
pub proof fn lemma_root_pattern()
    ensures
        segments(seq!['/']) == Seq::<Seq<char>>::empty(),
        pattern_of(seq!['/']) == Seq::<SegmentView>::empty(),
        well_formed(pattern_of(seq!['/'])),
{
    assert(trimmed(seq!['/']) =~= Seq::<char>::empty());
    assert(pattern_of(seq!['/']) =~= Seq::<SegmentView>::empty());
}

/// Builds the router of the blog.
pub fn blog_router() -> (router: Router<Handler>)
    ensures
        router@ == blog_routes(),
{
    proof {
        reveal_strlit("/sitemap.xml");
        reveal_strlit("sitemap.xml");
        reveal_strlit("/create");
        reveal_strlit("create");
        reveal_strlit("/json");
        reveal_strlit("json");
        reveal_strlit("/");
        reveal_strlit("/:id/json");
        reveal_strlit("/:id");
        reveal_strlit("id");
        assert("/sitemap.xml"@ =~= seq!['/'] + "sitemap.xml"@);
        assert("/create"@ =~= seq!['/'] + "create"@);
        assert("/json"@ =~= seq!['/'] + "json"@);
        assert("/"@ =~= seq!['/']);
        assert("/:id/json"@ =~= seq!['/', ':'] + "id"@ + seq!['/'] + "json"@);
        assert("/:id"@ =~= seq!['/', ':'] + "id"@);
        lemma_literal_pattern("/sitemap.xml"@, "sitemap.xml"@);
        lemma_literal_pattern("/create"@, "create"@);
        lemma_literal_pattern("/json"@, "json"@);
        lemma_root_pattern();
        lemma_placeholder_literal_pattern("/:id/json"@, "id"@, "json"@);
        lemma_placeholder_pattern("/:id"@, "id"@);
    }
    let router = Router::new()
        .route(Method::Get, Pattern::parse("/sitemap.xml").unwrap(), Handler::Sitemap)
        .route(Method::Get, Pattern::parse("/create").unwrap(), Handler::CreatePage)
        .route(Method::Post, Pattern::parse("/create").unwrap(), Handler::Create)
        .route(Method::Get, Pattern::parse("/json").unwrap(), Handler::Index)
        .route(Method::Get, Pattern::parse("/").unwrap(), Handler::Index)
        .route(Method::Get, Pattern::parse("/:id/json").unwrap(), Handler::Post)
        .route(Method::Get, Pattern::parse("/:id").unwrap(), Handler::Post);
    assert(router@ =~= blog_routes());
    router
}

/// What the pattern of one literal accepts and binds.
proof fn lemma_accepts_literal(name: Seq<char>, pieces: Seq<Seq<char>>)
    ensures
        pattern_accepts(literal(name), pieces) <==> pieces == seq![name],
        binding(literal(name), pieces) is None,
{
    reveal_with_fuel(binding, 2);
    assert(literal(name).drop_last() =~= Seq::<SegmentView>::empty());
    if pattern_accepts(literal(name), pieces) {
        assert(segment_accepts(literal(name)[0], pieces[0]));
        assert(pieces =~= seq![name]);
    }
    if pieces == seq![name] {
        assert(pattern_accepts(literal(name), pieces));
    }
}

/// What the pattern of one placeholder accepts and binds.
proof fn lemma_accepts_placeholder(name: Seq<char>, pieces: Seq<Seq<char>>)
    ensures
        pattern_accepts(seq![SegmentView::Placeholder(name)], pieces) <==> pieces.len() == 1
            && pieces[0].len() > 0,
        binding(seq![SegmentView::Placeholder(name)], pieces) == Some((name, pieces[0])),
{
    reveal_with_fuel(binding, 2);
    let pattern = seq![SegmentView::Placeholder(name)];
    assert(pattern.drop_last() =~= Seq::<SegmentView>::empty());
    if pattern_accepts(pattern, pieces) {
        assert(segment_accepts(pattern[0], pieces[0]));
    }
}

/// What the pattern of a placeholder and a literal accepts and binds.
proof fn lemma_accepts_placeholder_literal(
    name: Seq<char>,
    word: Seq<char>,
    pieces: Seq<Seq<char>>,
)
    ensures
        pattern_accepts(
            seq![SegmentView::Placeholder(name), SegmentView::Literal(word)],
            pieces,
        ) <==> pieces.len() == 2 && pieces[0].len() > 0 && pieces[1] == word,
        binding(seq![SegmentView::Placeholder(name), SegmentView::Literal(word)], pieces) == Some(
            (name, pieces[0]),
        ),
{
    reveal_with_fuel(binding, 3);
    let pattern = seq![SegmentView::Placeholder(name), SegmentView::Literal(word)];
    assert(pattern.drop_last() =~= seq![SegmentView::Placeholder(name)]);
    assert(pattern.drop_last().drop_last() =~= Seq::<SegmentView>::empty());
    if pattern_accepts(pattern, pieces) {
        assert(segment_accepts(pattern[0], pieces[0]));
        assert(segment_accepts(pattern[1], pieces[1]));
    }
}

/// Dispatch over the routes of the blog, route by route: every request that
/// a route is registered for reaches the handler of that route, with the
/// `id` of the path bound where the route has the placeholder, and every
/// other request reaches none.
pub proof fn lemma_blog_dispatch(method: Method, path: Seq<char>)
    ensures
        resolve(blog_routes(), method, path) == match blog_route(method, segments(path)) {
            Some((handler, id)) => Some(
                MatchView {
                    handler,
                    method,
                    segments: segments(path),
                    param: match id {
                        Some(value) => Some(("id"@, value)),
                        None => None,
                    },
                },
            ),
            None => None,
        },
{
    let routes = blog_routes();
    let pieces = segments(path);
    reveal_strlit("sitemap.xml");
    reveal_strlit("create");
    reveal_strlit("json");
    lemma_accepts_literal("sitemap.xml"@, pieces);
    lemma_accepts_literal("create"@, pieces);
    lemma_accepts_literal("json"@, pieces);
    lemma_accepts_placeholder("id"@, pieces);
    lemma_accepts_placeholder_literal("id"@, "json"@, pieces);
    assert(pattern_accepts(Seq::<SegmentView>::empty(), pieces) <==> pieces.len() == 0);
    assert(binding(Seq::<SegmentView>::empty(), pieces) is None);
    lemma_first_match(routes, method, pieces);
    assert(route_accepts(routes[0], method, pieces) <==> method == Method::Get && pieces
        == seq!["sitemap.xml"@]);
    assert(route_accepts(routes[1], method, pieces) <==> method == Method::Get && pieces
        == seq!["create"@]);
    assert(route_accepts(routes[2], method, pieces) <==> method == Method::Post && pieces
        == seq!["create"@]);
    assert(route_accepts(routes[3], method, pieces) <==> method == Method::Get && pieces
        == seq!["json"@]);
    assert(route_accepts(routes[4], method, pieces) <==> method == Method::Get && pieces.len()
        == 0);
    assert(route_accepts(routes[5], method, pieces) <==> method == Method::Get && pieces.len() == 2
        && pieces[0].len() > 0 && pieces[1] == "json"@);
    assert(route_accepts(routes[6], method, pieces) <==> method == Method::Get && pieces.len() == 1
        && pieces[0].len() > 0);
    if pieces.len() == 1 {
        assert(pieces =~= seq![pieces[0]]);
    }
}

} // verus!
