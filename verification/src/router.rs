//! Routes: patterns of path segments, each with the method it serves and the
//! callback it leads to. A router finds, for a request, the first of its routes
//! that matches, and hands the request what the route's variables bound.
//!
//! The callbacks are whatever the application registers: the router stores them
//! and hands them back, and never calls them.

use crate::headers::texts_view;
use crate::http::{same_text, Method, MethodView};
use crate::params::{map_of, Params};
use crate::request::{set_params, Request, RequestView};
use vstd::prelude::*;

verus! {

/// One segment of a pattern: a fixed text, or a variable with its name.
#[derive(Debug)]
pub enum Segment {
    Fixed(String),
    Variable(String),
}

/// Mathematical form of a [`Segment`].
pub enum SegmentView {
    Fixed(Seq<char>),
    Variable(Seq<char>),
}

impl View for Segment {
    type V = SegmentView;

    open spec fn view(&self) -> SegmentView {
        match *self {
            Segment::Fixed(text) => SegmentView::Fixed(text@),
            Segment::Variable(name) => SegmentView::Variable(name@),
        }
    }
}

impl Segment {
    /// Whether this is the fixed segment without text.
    pub fn is_empty(&self) -> (r: bool)
        ensures
            r == (self@ == SegmentView::Fixed(Seq::empty())),
    {
        match self {
            Segment::Fixed(fixed) => {
                let r = fixed.as_str().unicode_len() == 0;
                assert(r ==> fixed@ =~= Seq::<char>::empty());
                r
            },
            _ => false,
        }
    }
}

/// The segments of a list, each in its mathematical form.
pub open spec fn segments_view(segments: Vec<Segment>) -> Seq<SegmentView> {
    segments@.map_values(|segment: Segment| segment@)
}

/// The pieces of a text between its slashes. A text without a slash is one piece.
pub open spec fn split(text: Seq<char>) -> Seq<Seq<char>>
    decreases text.len(),
{
    if text.len() == 0 {
        seq![Seq::empty()]
    } else {
        let before = split(text.drop_last());
        if text.last() == '/' {
            before.push(Seq::empty())
        } else {
            before.drop_last().push(before.last().push(text.last()))
        }
    }
}

/// The segment that a piece of a pattern stands for: a variable where it begins
/// with a colon, named by what follows the colon.
pub open spec fn segment_of(piece: Seq<char>) -> SegmentView {
    if piece.len() > 0 && piece[0] == ':' {
        SegmentView::Variable(piece.skip(1))
    } else {
        SegmentView::Fixed(piece)
    }
}

/// Whether a text is a pattern: it begins with a slash.
pub open spec fn is_pattern(text: Seq<char>) -> bool {
    text.len() > 0 && text[0] == '/'
}

/// The segments of a pattern: the pieces behind its first slash.
pub open spec fn segments_of(pattern: Seq<char>) -> Seq<SegmentView> {
    split(pattern.skip(1)).map_values(|piece: Seq<char>| segment_of(piece))
}

/// Why a text is no pattern.
#[derive(Clone, Copy, Debug, PartialEq, Eq, Structural)]
pub enum PatternError {
    /// The text is empty.
    Empty,
    /// The text does not begin with a slash.
    NoLeadingSlash,
}

impl PatternError {
    /// The error in words.
    pub fn message(&self) -> (r: &'static str)
        ensures
            r@ == match *self {
                PatternError::Empty => "route must not be empty"@,
                PatternError::NoLeadingSlash => "route must begin with a slash"@,
            },
    {
        match self {
            PatternError::Empty => "route must not be empty",
            PatternError::NoLeadingSlash => "route must begin with a slash",
        }
    }
}

/// The segment that a piece of a pattern stands for.
fn make_segment(piece: &str) -> (r: Segment)
    ensures
        r@ == segment_of(piece@),
{
    let n = piece.unicode_len();
    if n > 0 && piece.get_char(0) == ':' {
        Segment::Variable(String::from_str(piece.substring_char(1, n)))
    } else {
        Segment::Fixed(String::from_str(piece))
    }
}

/// Takes a pattern apart into its segments.
pub fn get_segments(from: &str) -> (r: Result<Vec<Segment>, PatternError>)
    ensures
        match r {
            Ok(segments) => is_pattern(from@) && segments_view(segments) == segments_of(from@),
            Err(PatternError::Empty) => from@.len() == 0,
            Err(PatternError::NoLeadingSlash) => from@.len() > 0 && from@[0] != '/',
        },
{
    let n = from.unicode_len();
    if n == 0 {
        return Err(PatternError::Empty);
    }
    if from.get_char(0) != '/' {
        return Err(PatternError::NoLeadingSlash);
    }
    let mut segments: Vec<Segment> = Vec::new();
    let ghost mut pieces: Seq<Seq<char>> = Seq::empty();
    let mut start: usize = 1;
    let mut i: usize = 1;
    assert(from@.subrange(1, 1) =~= Seq::<char>::empty());
    assert(pieces.push(from@.subrange(1, 1)) =~= split(from@.subrange(1, 1)));
    assert(segments_view(segments) =~= pieces.map_values(|piece: Seq<char>| segment_of(piece)));
    while i < n
        invariant
            1 <= start <= i <= n,
            n == from@.len(),
            split(from@.subrange(1, i as int)) == pieces.push(
                from@.subrange(start as int, i as int),
            ),
            segments_view(segments) == pieces.map_values(|piece: Seq<char>| segment_of(piece)),
        decreases n - i,
    {
        let c = from.get_char(i);
        let ghost text = from@.subrange(1, i + 1);
        assert(text.drop_last() =~= from@.subrange(1, i as int));
        assert(text.last() == c);
        if c == '/' {
            let piece = from.substring_char(start, i);
            let ghost before = segments_view(segments);
            let segment = make_segment(piece);
            segments.push(segment);
            proof {
                pieces = pieces.push(piece@);
                assert(segments_view(segments) =~= before.push(segment_of(piece@)));
                assert(segments_view(segments) =~= pieces.map_values(
                    |piece: Seq<char>| segment_of(piece),
                ));
                assert(from@.subrange(i + 1, i + 1) =~= Seq::<char>::empty());
            }
            start = i + 1;
        } else {
            assert(from@.subrange(start as int, i as int).push(c) =~= from@.subrange(
                start as int,
                i + 1,
            ));
            assert(pieces.push(from@.subrange(start as int, i as int)).drop_last() =~= pieces);
        }
        i += 1;
    }
    let piece = from.substring_char(start, n);
    let ghost before = segments_view(segments);
    let segment = make_segment(piece);
    segments.push(segment);
    proof {
        assert(from@.subrange(1, n as int) =~= from@.skip(1));
        assert(segments_view(segments) =~= before.push(segment_of(piece@)));
        assert(segments_view(segments) =~= pieces.push(piece@).map_values(
            |piece: Seq<char>| segment_of(piece),
        ));
    }
    Ok(segments)
}

/// Whether a pattern matches a path: they have as many segments, and each fixed
/// segment of the pattern is the path's segment at its place.
pub open spec fn matches_path(pattern: Seq<SegmentView>, path: Seq<Seq<char>>) -> bool {
    &&& pattern.len() == path.len()
    &&& forall|i: int|
        0 <= i < pattern.len() ==> (#[trigger] pattern[i] matches SegmentView::Fixed(text)
            ==> text == path[i])
}

/// What the variables of a pattern bind on a path, in the order of the segments.
pub open spec fn bindings(pattern: Seq<SegmentView>, path: Seq<Seq<char>>) -> Seq<
    (Seq<char>, Seq<char>),
>
    decreases pattern.len(),
{
    if pattern.len() == 0 || path.len() == 0 {
        Seq::empty()
    } else {
        let before = bindings(pattern.drop_last(), path.drop_last());
        match pattern.last() {
            SegmentView::Variable(name) => before.push((name, path.last())),
            SegmentView::Fixed(_) => before,
        }
    }
}

/// Whether a path begins with a prefix: the prefix is not longer, and each of its
/// segments is fixed and is the path's segment at its place.
pub open spec fn has_prefix(prefix: Seq<SegmentView>, path: Seq<Seq<char>>) -> bool {
    &&& prefix.len() <= path.len()
    &&& forall|i: int| 0 <= i < prefix.len() ==> #[trigger] prefix[i] == SegmentView::Fixed(path[i])
}

/// A callback, as the application registered it: one that wants an instance of
/// the application, or one that stands alone.
pub enum Callback<F> {
    Instance(F),
    Static(F),
}

/// A pattern with the method it serves and the callback it leads to.
pub struct Route<F> {
    method: Method,
    segments: Vec<Segment>,
    callback: Callback<F>,
}

/// The method and the pattern of a route.
pub struct RouteView {
    pub method: MethodView,
    pub segments: Seq<SegmentView>,
}

impl<F> View for Route<F> {
    type V = RouteView;

    closed spec fn view(&self) -> RouteView {
        RouteView { method: self.method@, segments: segments_view(self.segments) }
    }
}

impl<F> Route<F> {
    /// The callback of the route.
    pub closed spec fn spec_callback(&self) -> Callback<F> {
        self.callback
    }

    /// A route for `method` and the pattern `from`.
    pub fn new(method: Method, from: &str, callback: Callback<F>) -> (r: Result<
        Route<F>,
        PatternError,
    >)
        ensures
            match r {
                Ok(route) => is_pattern(from@) && route@ == (RouteView {
                    method: method@,
                    segments: segments_of(from@),
                }) && route.spec_callback() == callback,
                Err(PatternError::Empty) => from@.len() == 0,
                Err(PatternError::NoLeadingSlash) => from@.len() > 0 && from@[0] != '/',
            },
    {
        match get_segments(from) {
            Ok(segments) => Ok(Route { method, segments, callback }),
            Err(e) => Err(e),
        }
    }

    /// The callback of the route.
    pub fn callback(&self) -> (r: &Callback<F>)
        ensures
            *r == self.spec_callback(),
    {
        &self.callback
    }
}

/// Whether a route serves `method` and its pattern matches `path`.
pub open spec fn serves(route: RouteView, method: MethodView, path: Seq<Seq<char>>) -> bool {
    route.method == method && matches_path(route.segments, path)
}

/// The index of the first route from `from` on that serves `method` and `path`.
pub open spec fn first_from(
    routes: Seq<RouteView>,
    method: MethodView,
    path: Seq<Seq<char>>,
    from: int,
) -> Option<int>
    decreases routes.len() - from,
{
    if from < 0 || from >= routes.len() {
        None
    } else if serves(routes[from], method, path) {
        Some(from)
    } else {
        first_from(routes, method, path, from + 1)
    }
}

/// Mathematical form of a router: its prefix, and its routes in the order of
/// their registration.
pub struct RouterView {
    pub prefix: Seq<SegmentView>,
    pub routes: Seq<RouteView>,
}

impl RouterView {
    /// The part of a path that the routes are matched against: what follows the
    /// prefix.
    pub open spec fn suffix(self, path: Seq<Seq<char>>) -> Seq<Seq<char>> {
        path.skip(self.prefix.len() as int)
    }

    /// The index of the route that answers a request for `method` and `path`: the
    /// first one that serves them, if the path begins with the prefix.
    pub open spec fn find(self, method: MethodView, path: Seq<Seq<char>>) -> Option<int> {
        if has_prefix(self.prefix, path) {
            first_from(self.routes, method, self.suffix(path), 0)
        } else {
            None
        }
    }
}

/// The routes of a list, each in its mathematical form.
pub open spec fn routes_view<F>(routes: Vec<Route<F>>) -> Seq<RouteView> {
    routes@.map_values(|route: Route<F>| route@)
}

/// A table of routes, mounted at a prefix. `F` is what the application registers
/// as a callback, `M` what it registers as middleware.
pub struct RouterAny<F, M> {
    prefix: Vec<Segment>,
    middleware: Vec<M>,
    routes: Vec<Route<F>>,
}

impl<F, M> View for RouterAny<F, M> {
    type V = RouterView;

    closed spec fn view(&self) -> RouterView {
        RouterView { prefix: segments_view(self.prefix), routes: routes_view(self.routes) }
    }
}

/// Whether the pattern matches the path from `skip` on, and what it binds there.
fn match_route(segments: &Vec<Segment>, path: &Vec<String>, skip: usize) -> (r: Option<Params>)
    requires
        skip <= path.len(),
    ensures
        match r {
            Some(params) => matches_path(segments_view(*segments), texts_view(*path).skip(skip as int))
                && params@ == map_of(
                bindings(segments_view(*segments), texts_view(*path).skip(skip as int)),
            ),
            None => !matches_path(segments_view(*segments), texts_view(*path).skip(skip as int)),
        },
{
    let ghost pattern = segments_view(*segments);
    let ghost rest = texts_view(*path).skip(skip as int);
    let n = segments.len();
    if path.len() - skip != n {
        return None;
    }
    let mut params = Params::new();
    let mut k: usize = 0;
    assert(bindings(pattern.take(0), rest.take(0)) =~= Seq::empty());
    while k < n
        invariant
            k <= n,
            n == segments.len(),
            n == path.len() - skip,
            pattern == segments_view(*segments),
            rest == texts_view(*path).skip(skip as int),
            forall|i: int|
                0 <= i < k ==> (#[trigger] pattern[i] matches SegmentView::Fixed(text) ==> text
                    == rest[i]),
            params@ == map_of(bindings(pattern.take(k as int), rest.take(k as int))),
        decreases n - k,
    {
        let actual = &path[skip + k];
        assert(actual@ == rest[k as int]);
        assert(pattern[k as int] == segments[k as int]@);
        proof {
            assert(pattern.take(k + 1).drop_last() =~= pattern.take(k as int));
            assert(rest.take(k + 1).drop_last() =~= rest.take(k as int));
            assert(pattern.take(k + 1).last() == pattern[k as int]);
            assert(rest.take(k + 1).last() == rest[k as int]);
        }
        match &segments[k] {
            Segment::Fixed(fixed) => {
                if !same_text(fixed, actual) {
                    return None;
                }
            },
            Segment::Variable(name) => {
                params.insert(name.clone(), actual.clone());
                assert(bindings(pattern.take(k + 1), rest.take(k + 1)).drop_last() =~= bindings(
                    pattern.take(k as int),
                    rest.take(k as int),
                ));
            },
        }
        k += 1;
    }
    assert(pattern.take(n as int) =~= pattern);
    assert(rest.take(n as int) =~= rest);
    Some(params)
}

impl<F, M> RouterAny<F, M> {
    /// The callback of the route at index `i`.
    pub closed spec fn callback_at(&self, i: int) -> Callback<F> {
        self.routes[i].spec_callback()
    }

    /// What was registered as middleware, in the order of registration.
    pub closed spec fn spec_middleware(&self) -> Seq<M> {
        self.middleware@
    }

    /// A table without routes, mounted at the root.
    pub fn new() -> (r: RouterAny<F, M>)
        ensures
            r@ == (RouterView { prefix: Seq::empty(), routes: Seq::empty() }),
            r.spec_middleware() == Seq::<M>::empty(),
    {
        let r = RouterAny { prefix: Vec::new(), middleware: Vec::new(), routes: Vec::new() };
        assert(segments_view(r.prefix) =~= Seq::empty());
        assert(routes_view(r.routes) =~= Seq::empty());
        r
    }

    /// Whether the path begins with the prefix that the table is mounted at.
    pub fn match_prefix(&self, path: &Vec<String>) -> (r: bool)
        ensures
            r == has_prefix(self@.prefix, texts_view(*path)),
    {
        let ghost prefix = segments_view(self.prefix);
        let ghost texts = texts_view(*path);
        if path.len() < self.prefix.len() {
            return false;
        }
        let mut i: usize = 0;
        while i < self.prefix.len()
            invariant
                i <= self.prefix.len() <= path.len(),
                prefix == segments_view(self.prefix),
                texts == texts_view(*path),
                forall|k: int| 0 <= k < i ==> #[trigger] prefix[k] == SegmentView::Fixed(texts[k]),
            decreases self.prefix.len() - i,
        {
            assert(prefix[i as int] == self.prefix[i as int]@);
            assert(texts[i as int] == path[i as int]@);
            match &self.prefix[i] {
                Segment::Fixed(value) => {
                    if !same_text(value, &path[i]) {
                        return false;
                    }
                },
                Segment::Variable(_) => {
                    return false;
                },
            }
            i += 1;
        }
        true
    }

    /// Finds the first route that serves the request's method and matches what
    /// follows the prefix in its path. The request gets what that route's variables
    /// bind; where no route is found, it stays as it is.
    pub fn find_callback(&self, req: &mut Request) -> (r: Option<&Callback<F>>)
        ensures
            match self@.find(old(req)@.method, old(req)@.path) {
                Some(i) => r == Some(&self.callback_at(i)) && final(req)@ == (RequestView {
                    params: Some(
                        map_of(
                            bindings(self@.routes[i].segments, self@.suffix(old(req)@.path)),
                        ),
                    ),
                    ..old(req)@
                }),
                None => r.is_none() && final(req)@ == old(req)@,
            },
    {
        if !self.match_prefix(req.path()) {
            return None;
        }
        let ghost routes = routes_view(self.routes);
        let ghost method = req@.method;
        let ghost rest = self@.suffix(req@.path);
        let skip = self.prefix.len();
        let mut i: usize = 0;
        while i < self.routes.len()
            invariant
                i <= self.routes.len(),
                routes == routes_view(self.routes),
                *req == *old(req),
                method == req@.method,
                rest == self@.suffix(req@.path),
                skip == self.prefix.len(),
                skip <= req@.path.len(),
                has_prefix(self@.prefix, req@.path),
                first_from(routes, method, rest, 0) == first_from(routes, method, rest, i as int),
            decreases self.routes.len() - i,
        {
            let route = &self.routes[i];
            assert(routes[i as int] == route@);
            if route.method.same(req.method()) {
                let path = req.path();
                assert(texts_view(*path).len() == path.len());
                let found = match_route(&route.segments, path, skip);
                match found {
                    Some(params) => {
                        set_params(req, params);
                        return Some(&route.callback);
                    },
                    None => {},
                }
            }
            i += 1;
        }
        None
    }

    /// Mounts the table at `prefix`. The root, `/`, is no prefix at all.
    pub fn set_prefix(&mut self, prefix: &str)
        requires
            is_pattern(prefix@),
        ensures
            final(self)@ == (RouterView {
                prefix: if segments_of(prefix@) == seq![SegmentView::Fixed(Seq::empty())] {
                    old(self)@.prefix
                } else {
                    segments_of(prefix@)
                },
                ..old(self)@
            }),
            final(self).spec_middleware() == old(self).spec_middleware(),
            forall|i: int| final(self).callback_at(i) == old(self).callback_at(i),
    {
        match get_segments(prefix) {
            Ok(segments) => {
                assert(segments_view(segments).len() == segments.len());
                let ghost root = seq![SegmentView::Fixed(Seq::empty())];
                if !(segments.len() == 1 && segments[0].is_empty()) {
                    assert(segments_view(segments) != root) by {
                        if segments.len() == 1 {
                            assert(segments_view(segments)[0] == segments[0]@);
                            assert(root[0] == SegmentView::Fixed(Seq::empty()));
                        }
                    }
                    self.prefix = segments;
                } else {
                    assert(segments_view(segments)[0] == segments[0]@);
                    assert(segments_view(segments) =~= root);
                }
            },
            Err(_) => {},
        }
    }

    /// What was registered as middleware, in the order of registration.
    pub fn middleware(&self) -> (r: &Vec<M>)
        ensures
            r@ == self.spec_middleware(),
    {
        &self.middleware
    }

    /// Adds a route behind those that are there.
    fn push_route(&mut self, route: Route<F>)
        ensures
            final(self)@ == (RouterView {
                routes: old(self)@.routes.push(route@),
                ..old(self)@
            }),
            final(self).spec_middleware() == old(self).spec_middleware(),
            final(self).callback_at(old(self)@.routes.len() as int) == route.spec_callback(),
            forall|i: int|
                0 <= i < old(self)@.routes.len() ==> final(self).callback_at(i) == old(
                    self,
                ).callback_at(i),
    {
        let ghost before = routes_view(self.routes);
        self.routes.push(route);
        assert(routes_view(self.routes) =~= before.push(route@));
    }
}

/// The first route found is the first in the order of registration that serves
/// the request: it serves it, and none before it does.
pub proof fn lemma_first_match_wins(
    router: RouterView,
    method: MethodView,
    path: Seq<Seq<char>>,
)
    ensures
        match router.find(method, path) {
            Some(i) => {
                &&& has_prefix(router.prefix, path)
                &&& 0 <= i < router.routes.len()
                &&& serves(router.routes[i], method, router.suffix(path))
                &&& forall|j: int| 0 <= j < i ==> !serves(#[trigger] router.routes[j], method, router.suffix(path))
            },
            None => has_prefix(router.prefix, path) ==> forall|j: int|
                0 <= j < router.routes.len() ==> !serves(
                    #[trigger] router.routes[j],
                    method,
                    router.suffix(path),
                ),
        },
{
    lemma_first_from(router.routes, method, router.suffix(path), 0);
}

/// What `first_from` finds is the least index from `from` on whose route serves
/// the request.
proof fn lemma_first_from(
    routes: Seq<RouteView>,
    method: MethodView,
    path: Seq<Seq<char>>,
    from: int,
)
    requires
        0 <= from,
    ensures
        match first_from(routes, method, path, from) {
            Some(i) => {
                &&& from <= i < routes.len()
                &&& serves(routes[i], method, path)
                &&& forall|j: int| from <= j < i ==> !serves(#[trigger] routes[j], method, path)
            },
            None => forall|j: int|
                from <= j < routes.len() ==> !serves(#[trigger] routes[j], method, path),
        },
    decreases routes.len() - from,
{
    if from < routes.len() && !serves(routes[from], method, path) {
        lemma_first_from(routes, method, path, from + 1);
    }
}

/// A router under construction: routes are added to it by method and pattern.
pub struct Router<F, M> {
    inner: RouterAny<F, M>,
}

impl<F, M> View for Router<F, M> {
    type V = RouterView;

    closed spec fn view(&self) -> RouterView {
        self.inner@
    }
}

impl<F, M> Router<F, M> {
    /// The callback of the route at index `i`.
    pub closed spec fn callback_at(&self, i: int) -> Callback<F> {
        self.inner.callback_at(i)
    }

    /// What was registered as middleware, in the order of registration.
    pub closed spec fn spec_middleware(&self) -> Seq<M> {
        self.inner.spec_middleware()
    }

    /// Whether `after` is `before` with one more route, for `method` and `path`
    /// and with `callback`, behind the others.
    pub open spec fn added(
        before: Router<F, M>,
        after: Router<F, M>,
        method: MethodView,
        path: Seq<char>,
        callback: Callback<F>,
    ) -> bool {
        &&& after@ == RouterView {
            routes: before@.routes.push(RouteView { method, segments: segments_of(path) }),
            ..before@
        }
        &&& after.spec_middleware() == before.spec_middleware()
        &&& after.callback_at(before@.routes.len() as int) == callback
        &&& forall|i: int|
            0 <= i < before@.routes.len() ==> after.callback_at(i) == before.callback_at(i)
    }

    /// A router without routes.
    pub fn new() -> (r: Router<F, M>)
        ensures
            r@ == (RouterView { prefix: Seq::empty(), routes: Seq::empty() }),
            r.spec_middleware() == Seq::<M>::empty(),
    {
        Router { inner: RouterAny::new() }
    }

    /// Registers middleware behind what is registered.
    pub fn add_middleware(&mut self, middleware: M)
        ensures
            final(self).spec_middleware() == old(self).spec_middleware().push(middleware),
            final(self)@ == old(self)@,
            forall|i: int| final(self).callback_at(i) == old(self).callback_at(i),
    {
        self.inner.middleware.push(middleware);
    }

    /// Registers a callback for GET requests of a pattern.
    pub fn get(&mut self, path: &str, callback: F)
        requires
            is_pattern(path@),
        ensures
            Self::added(*old(self), *final(self), MethodView::Get, path@, Callback::Instance(callback)),
    {
        self.insert(Method::Get, path, callback)
    }

    /// Registers a callback for POST requests of a pattern.
    pub fn post(&mut self, path: &str, callback: F)
        requires
            is_pattern(path@),
        ensures
            Self::added(*old(self), *final(self), MethodView::Post, path@, Callback::Instance(callback)),
    {
        self.insert(Method::Post, path, callback)
    }

    /// Registers a callback for PUT requests of a pattern.
    pub fn put(&mut self, path: &str, callback: F)
        requires
            is_pattern(path@),
        ensures
            Self::added(*old(self), *final(self), MethodView::Put, path@, Callback::Instance(callback)),
    {
        self.insert(Method::Put, path, callback)
    }

    /// Registers a callback for DELETE requests of a pattern.
    pub fn delete(&mut self, path: &str, callback: F)
        requires
            is_pattern(path@),
        ensures
            Self::added(
                *old(self),
                *final(self),
                MethodView::Delete,
                path@,
                Callback::Instance(callback),
            ),
    {
        self.insert(Method::Delete, path, callback)
    }

    /// Registers a callback for HEAD requests of a pattern.
    pub fn head(&mut self, path: &str, callback: F)
        requires
            is_pattern(path@),
        ensures
            Self::added(*old(self), *final(self), MethodView::Head, path@, Callback::Instance(callback)),
    {
        self.insert(Method::Head, path, callback)
    }

    /// Registers a callback that needs no instance for GET requests of a pattern.
    pub fn get_static(&mut self, path: &str, callback: F)
        requires
            is_pattern(path@),
        ensures
            Self::added(*old(self), *final(self), MethodView::Get, path@, Callback::Static(callback)),
    {
        self.insert_static(Method::Get, path, callback)
    }

    /// Registers a callback for requests of a method and a pattern.
    pub fn insert(&mut self, method: Method, path: &str, callback: F)
        requires
            is_pattern(path@),
        ensures
            Self::added(*old(self), *final(self), method@, path@, Callback::Instance(callback)),
    {
        self.insert_callback(method, path, Callback::Instance(callback))
    }

    /// Registers a callback that needs no instance for requests of a method and a
    /// pattern.
    pub fn insert_static(&mut self, method: Method, path: &str, callback: F)
        requires
            is_pattern(path@),
        ensures
            Self::added(*old(self), *final(self), method@, path@, Callback::Static(callback)),
    {
        self.insert_callback(method, path, Callback::Static(callback))
    }

    /// Adds a route behind those that are there.
    fn insert_callback(&mut self, method: Method, path: &str, callback: Callback<F>)
        requires
            is_pattern(path@),
        ensures
            Self::added(*old(self), *final(self), method@, path@, callback),
    {
        match Route::new(method, path, callback) {
            Ok(route) => {
                self.inner.push_route(route);
            },
            Err(_) => {},
        }
    }
}

/// The table of a router.
pub fn get_inner<F, M>(router: Router<F, M>) -> (r: RouterAny<F, M>)
    ensures
        r@ == router@,
        r.spec_middleware() == router.spec_middleware(),
        forall|i: int| r.callback_at(i) == router.callback_at(i),
{
    router.inner
}

} // verus!
