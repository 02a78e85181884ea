//! Dispatch of a request, by method and path, to the first route registered
//! for it.

use crate::path::{segments, segments_of, texts, chars_of};
use vstd::prelude::*;

verus! {

/// The request methods.
#[derive(Clone, Copy, Debug, PartialEq, Eq, Structural)]
pub enum Method {
    Head,
    Get,
    Post,
    Put,
    Patch,
    Delete,
    Options,
    Connect,
    Trace,
}

/// One segment of a route pattern.
#[derive(Debug)]
pub enum Segment {
    /// Accepts the segment that is spelled the same.
    Literal(String),
    /// Accepts any segment that is not empty, and binds it to this name.
    Placeholder(String),
}

/// What a `Segment` holds.
pub enum SegmentView {
    Literal(Seq<char>),
    Placeholder(Seq<char>),
}

impl View for Segment {
    type V = SegmentView;

    open spec fn view(&self) -> SegmentView {
        match self {
            Segment::Literal(text) => SegmentView::Literal(text@),
            Segment::Placeholder(name) => SegmentView::Placeholder(name@),
        }
    }
}

/// What each segment of `v` holds.
pub open spec fn segment_views(v: Seq<Segment>) -> Seq<SegmentView> {
    Seq::new(v.len(), |i: int| v[i]@)
}

/// The segment that a piece of a pattern's text stands for: a placeholder
/// where it begins with a colon, named by what follows the colon; a literal
/// otherwise.
pub open spec fn segment_of(piece: Seq<char>) -> SegmentView {
    if piece.len() > 0 && piece[0] == ':' {
        SegmentView::Placeholder(piece.skip(1))
    } else {
        SegmentView::Literal(piece)
    }
}

/// The segments that the pieces of a pattern's text stand for.
pub open spec fn segments_from(pieces: Seq<Seq<char>>) -> Seq<SegmentView> {
    Seq::new(pieces.len(), |i: int| segment_of(pieces[i]))
}

/// The pattern that `text` spells.
pub open spec fn pattern_of(text: Seq<char>) -> Seq<SegmentView> {
    segments_from(segments(text))
}

/// How many placeholders `pattern` has.
pub open spec fn placeholders(pattern: Seq<SegmentView>) -> nat
    decreases pattern.len(),
{
    if pattern.len() == 0 {
        0
    } else {
        placeholders(pattern.drop_last()) + if pattern.last() is Placeholder {
            1nat
        } else {
            0nat
        }
    }
}

/// How many placeholders of `pattern` have no name.
pub open spec fn unnamed(pattern: Seq<SegmentView>) -> nat
    decreases pattern.len(),
{
    if pattern.len() == 0 {
        0
    } else {
        unnamed(pattern.drop_last()) + if pattern.last() == SegmentView::Placeholder(
            Seq::<char>::empty(),
        ) {
            1nat
        } else {
            0nat
        }
    }
}

/// A pattern has at most one placeholder, and that one has a name.
pub open spec fn well_formed(pattern: Seq<SegmentView>) -> bool {
    placeholders(pattern) <= 1 && unnamed(pattern) == 0
}

/// Whether `segment` accepts `piece`.
pub open spec fn segment_accepts(segment: SegmentView, piece: Seq<char>) -> bool {
    match segment {
        SegmentView::Literal(text) => piece == text,
        SegmentView::Placeholder(_) => piece.len() > 0,
    }
}

/// Whether `pattern` accepts a path with these segments: as many segments as
/// the pattern has, each accepted by the one in its place.
pub open spec fn pattern_accepts(pattern: Seq<SegmentView>, pieces: Seq<Seq<char>>) -> bool {
    &&& pattern.len() == pieces.len()
    &&& forall|i: int| 0 <= i < pattern.len() ==> segment_accepts(#[trigger] pattern[i], pieces[i])
}

/// The name of the first placeholder of `pattern` with the segment in its
/// place, if the pattern has a placeholder.
pub open spec fn binding(pattern: Seq<SegmentView>, pieces: Seq<Seq<char>>) -> Option<
    (Seq<char>, Seq<char>),
>
    decreases pattern.len(),
{
    if pattern.len() == 0 {
        None
    } else {
        match binding(pattern.drop_last(), pieces) {
            Some(found) => Some(found),
            None => match pattern.last() {
                SegmentView::Placeholder(name) => Some((name, pieces[pattern.len() - 1])),
                SegmentView::Literal(_) => None,
            },
        }
    }
}

/// Why a text is no pattern.
#[derive(Clone, Copy, Debug, PartialEq, Eq, Structural)]
pub enum PatternError {
    /// A placeholder has no name.
    UnnamedPlaceholder,
    /// There is more than one placeholder.
    SecondPlaceholder,
}

/// A route pattern: literal segments and at most one placeholder.
#[derive(Debug)]
pub struct Pattern {
    segments: Vec<Segment>,
}

impl View for Pattern {
    type V = Seq<SegmentView>;

    closed spec fn view(&self) -> Seq<SegmentView> {
        segment_views(self.segments@)
    }
}

/// A parameter that a route bound.
#[derive(Debug, PartialEq, Eq)]
pub struct Param {
    pub name: String,
    pub value: String,
}

impl Clone for Param {
    fn clone(&self) -> (param: Param)
        ensures
            param == *self,
    {
        Param { name: self.name.clone(), value: self.value.clone() }
    }
}

/// What an optional parameter holds.
pub open spec fn param_view(param: Option<Param>) -> Option<(Seq<char>, Seq<char>)> {
    match param {
        Some(p) => Some((p.name@, p.value@)),
        None => None,
    }
}

impl Pattern {
    #[verifier::type_invariant]
    spec fn valid(self) -> bool {
        well_formed(self@)
    }

    /// Reads a pattern from its text, such as `/:id/json`. The text is split
    /// as a path is.
    pub fn parse(text: &str) -> (r: Result<Pattern, PatternError>)
        ensures
            match r {
                Ok(pattern) => pattern@ == pattern_of(text@) && well_formed(pattern_of(text@)),
                Err(PatternError::UnnamedPlaceholder) => unnamed(pattern_of(text@)) > 0,
                Err(PatternError::SecondPlaceholder) => unnamed(pattern_of(text@)) == 0
                    && placeholders(pattern_of(text@)) > 1,
            },
    {
        let pieces = segments_of(text);
        let mut segs: Vec<Segment> = Vec::new();
        let mut count: usize = 0;
        let mut nameless: usize = 0;
        let mut i: usize = 0;
        assert(segments_from(texts(pieces@).take(0)) =~= segment_views(segs@));
        while i < pieces.len()
            invariant
                i <= pieces.len(),
                count <= i,
                nameless <= i,
                segment_views(segs@) == segments_from(texts(pieces@).take(i as int)),
                count == placeholders(segment_views(segs@)),
                nameless == unnamed(segment_views(segs@)),
            decreases pieces.len() - i,
        {
            let piece = &pieces[i];
            let chars = chars_of(piece.as_str());
            let ghost before = segs@;
            let ghost upto = texts(pieces@).take(i + 1);
            proof {
                assert(upto.drop_last() =~= texts(pieces@).take(i as int));
                assert(upto.last() == piece@);
            }
            if chars.len() > 0 && chars[0] == ':' {
                let name = piece.as_str().substring_char(1, chars.len()).to_owned();
                proof {
                    assert(name@ =~= piece@.skip(1));
                }
                if chars.len() == 1 {
                    nameless = nameless + 1;
                }
                count = count + 1;
                segs.push(Segment::Placeholder(name));
            } else {
                segs.push(Segment::Literal(piece.clone()));
            }
            proof {
                assert(segment_views(segs@).drop_last() =~= segment_views(before));
                assert(segment_views(segs@).last() == segment_of(piece@));
                assert forall|k: int| 0 <= k < i implies segment_views(segs@)[k]
                    == segments_from(upto)[k] by {
                    assert(segment_views(before)[k] == segments_from(
                        texts(pieces@).take(i as int),
                    )[k]);
                }
                assert(segment_views(segs@) =~= segments_from(upto));
                assert(segment_of(piece@) == SegmentView::Placeholder(Seq::<char>::empty())
                    <==> (chars@.len() == 1 && chars@[0] == ':')) by {
                    if piece@.len() > 0 && piece@[0] == ':' {
                        assert(piece@.skip(1).len() == piece@.len() - 1);
                        if piece@.len() == 1 {
                            assert(piece@.skip(1) =~= Seq::<char>::empty());
                        }
                    }
                }
            }
            i = i + 1;
        }
        assert(texts(pieces@).take(pieces.len() as int) =~= texts(pieces@));
        if nameless > 0 {
            Err(PatternError::UnnamedPlaceholder)
        } else if count > 1 {
            Err(PatternError::SecondPlaceholder)
        } else {
            Ok(Pattern { segments: segs })
        }
    }

    /// Holds the pattern against the segments of a path: `None` where the
    /// pattern does not accept them, otherwise what its placeholder binds.
    pub fn bind(&self, pieces: &Vec<String>) -> (r: Option<Option<Param>>)
        ensures
            r is Some <==> pattern_accepts(self@, texts(pieces@)),
            r matches Some(param) ==> param_view(param) == binding(self@, texts(pieces@)),
    {
        if self.segments.len() != pieces.len() {
            return None;
        }
        let mut found: Option<Param> = None;
        let mut i: usize = 0;
        assert(self@.take(0) =~= Seq::<SegmentView>::empty());
        while i < self.segments.len()
            invariant
                i <= self.segments.len(),
                self.segments.len() == pieces.len(),
                forall|j: int|
                    0 <= j < i ==> segment_accepts(#[trigger] self@[j], texts(pieces@)[j]),
                param_view(found) == binding(self@.take(i as int), texts(pieces@)),
            decreases self.segments.len() - i,
        {
            let ghost upto = self@.take(i + 1);
            proof {
                assert(upto.drop_last() =~= self@.take(i as int));
                assert(upto.last() == self.segments@[i as int]@);
                assert(texts(pieces@)[i as int] == pieces@[i as int]@);
            }
            match &self.segments[i] {
                Segment::Literal(text) => {
                    if *text != pieces[i] {
                        assert(!segment_accepts(self@[i as int], texts(pieces@)[i as int]));
                        return None;
                    }
                },
                Segment::Placeholder(name) => {
                    if pieces[i].as_str().is_empty() {
                        assert(!segment_accepts(self@[i as int], texts(pieces@)[i as int]));
                        return None;
                    }
                    if found.is_none() {
                        found = Some(Param { name: name.clone(), value: pieces[i].clone() });
                    }
                },
            }
            i = i + 1;
        }
        assert(self@.take(self.segments.len() as int) =~= self@);
        Some(found)
    }
}

/// A route: the method and the pattern that it serves, and the handler that
/// serves them.
#[derive(Debug)]
pub struct Route<H> {
    pub method: Method,
    pub pattern: Pattern,
    pub handler: H,
}

/// What a `Route` holds.
pub struct RouteView<H> {
    pub method: Method,
    pub pattern: Seq<SegmentView>,
    pub handler: H,
}

impl<H> View for Route<H> {
    type V = RouteView<H>;

    open spec fn view(&self) -> RouteView<H> {
        RouteView { method: self.method, pattern: self.pattern@, handler: self.handler }
    }
}

/// What each route of `v` holds.
pub open spec fn route_views<H>(v: Seq<Route<H>>) -> Seq<RouteView<H>> {
    Seq::new(v.len(), |i: int| v[i]@)
}

/// Whether `route` serves a request with this method and these segments. A
/// route for another method does not, whatever the path.
pub open spec fn route_accepts<H>(
    route: RouteView<H>,
    method: Method,
    pieces: Seq<Seq<char>>,
) -> bool {
    route.method == method && pattern_accepts(route.pattern, pieces)
}

/// The place of the first route, in the order of registration, that serves
/// the request.
pub open spec fn first_match<H>(
    routes: Seq<RouteView<H>>,
    method: Method,
    pieces: Seq<Seq<char>>,
) -> Option<int>
    decreases routes.len(),
{
    if routes.len() == 0 {
        None
    } else {
        match first_match(routes.drop_last(), method, pieces) {
            Some(i) => Some(i),
            None => if route_accepts(routes.last(), method, pieces) {
                Some(routes.len() - 1)
            } else {
                None
            },
        }
    }
}

/// The result of a dispatch: the handler of the route that matched, and
/// what the route made of the path.
#[derive(Debug)]
pub struct RouteMatch<H> {
    pub handler: H,
    pub method: Method,
    pub segments: Vec<String>,
    pub param: Option<Param>,
}

/// What a `RouteMatch` holds.
pub struct MatchView<H> {
    pub handler: H,
    pub method: Method,
    pub segments: Seq<Seq<char>>,
    pub param: Option<(Seq<char>, Seq<char>)>,
}

impl<H> View for RouteMatch<H> {
    type V = MatchView<H>;

    open spec fn view(&self) -> MatchView<H> {
        MatchView {
            handler: self.handler,
            method: self.method,
            segments: texts(self.segments@),
            param: param_view(self.param),
        }
    }
}

/// What an optional match holds.
pub open spec fn match_view<H>(found: Option<RouteMatch<H>>) -> Option<MatchView<H>> {
    match found {
        Some(m) => Some(m@),
        None => None,
    }
}

/// What dispatching a request over `routes` gives: the first route that
/// serves it, with the binding of its placeholder; nothing where no route
/// serves it.
pub open spec fn resolve<H>(routes: Seq<RouteView<H>>, method: Method, path: Seq<char>) -> Option<
    MatchView<H>,
> {
    let pieces = segments(path);
    match first_match(routes, method, pieces) {
        Some(i) => Some(
            MatchView {
                handler: routes[i].handler,
                method,
                segments: pieces,
                param: binding(routes[i].pattern, pieces),
            },
        ),
        None => None,
    }
}

/// The first match is a route that serves the request, and no route
/// registered before it does. Where there is none, no route serves it.
pub proof fn lemma_first_match<H>(
    routes: Seq<RouteView<H>>,
    method: Method,
    pieces: Seq<Seq<char>>,
)
    ensures
        match first_match(routes, method, pieces) {
            Some(i) => 0 <= i < routes.len() && route_accepts(routes[i], method, pieces)
                && forall|j: int| 0 <= j < i ==> !route_accepts(#[trigger] routes[j], method, pieces),
            None => forall|j: int|
                0 <= j < routes.len() ==> !route_accepts(#[trigger] routes[j], method, pieces),
        },
    decreases routes.len(),
{
    if routes.len() > 0 {
        lemma_first_match(routes.drop_last(), method, pieces);
        assert forall|j: int| 0 <= j < routes.len() - 1 implies routes.drop_last()[j]
            == routes[j] by {}
        match first_match(routes.drop_last(), method, pieces) {
            Some(i) => {
                assert(routes.drop_last()[i] == routes[i]);
                assert forall|j: int| 0 <= j < i implies !route_accepts(
                    #[trigger] routes[j],
                    method,
                    pieces,
                ) by {
                    assert(routes.drop_last()[j] == routes[j]);
                }
            },
            None => {
                assert forall|j: int| 0 <= j < routes.len() - 1 implies !route_accepts(
                    #[trigger] routes[j],
                    method,
                    pieces,
                ) by {
                    assert(routes.drop_last()[j] == routes[j]);
                }
            },
        }
    }
}

/// The routes of a site, in the order in which they were registered.
#[derive(Debug)]
pub struct Router<H> {
    routes: Vec<Route<H>>,
}

impl<H> View for Router<H> {
    type V = Seq<RouteView<H>>;

    closed spec fn view(&self) -> Seq<RouteView<H>> {
        route_views(self.routes@)
    }
}

impl<H: Copy> Router<H> {
    /// A router without routes.
    pub fn new() -> (router: Router<H>)
        ensures
            router@ == Seq::<RouteView<H>>::empty(),
    {
        let router = Router { routes: Vec::new() };
        assert(router@ =~= Seq::<RouteView<H>>::empty());
        router
    }

    /// Registers a route behind those that are there.
    pub fn route(self, method: Method, pattern: Pattern, handler: H) -> (router: Router<H>)
        ensures
            router@ == self@.push(RouteView { method, pattern: pattern@, handler }),
    {
        let mut routes = self.routes;
        routes.push(Route { method, pattern, handler });
        let router = Router { routes };
        assert(router@ =~= self@.push(RouteView { method, pattern: pattern@, handler }));
        router
    }

    /// The number of routes.
    pub fn len(&self) -> (n: usize)
        ensures
            n == self@.len(),
    {
        self.routes.len()
    }

    /// Finds the route that serves a request: the first one registered for
    /// its method whose pattern accepts its path. `None` says that there is
    /// no such route.
    pub fn dispatch(&self, method: Method, path: &str) -> (found: Option<RouteMatch<H>>)
        ensures
            match_view(found) == resolve(self@, method, path@),
    {
        let pieces = segments_of(path);
        let mut i: usize = 0;
        while i < self.routes.len()
            invariant
                i <= self.routes.len(),
                texts(pieces@) == segments(path@),
                forall|j: int|
                    0 <= j < i ==> !route_accepts(#[trigger] self@[j], method, texts(pieces@)),
            decreases self.routes.len() - i,
        {
            let route = &self.routes[i];
            assert(self@[i as int] == route@);
            if route.method == method {
                match route.pattern.bind(&pieces) {
                    Some(param) => {
                        proof {
                            lemma_first_match(self@, method, texts(pieces@));
                            assert(route_accepts(self@[i as int], method, texts(pieces@)));
                        }
                        return Some(
                            RouteMatch { handler: route.handler, method, segments: pieces, param },
                        );
                    },
                    None => {},
                }
            }
            i = i + 1;
        }
        proof {
            lemma_first_match(self@, method, texts(pieces@));
        }
        None
    }
}

} // verus!
