//! Route listings, the table of registered handlers, and the dispatch of
//! each listing to the handler of its rendering strategy.

use crate::mode::{Method, SsrMode};
use vstd::prelude::*;

verus! {

/// A set of HTTP methods.
#[derive(Clone, Copy, Debug, PartialEq, Eq, Structural)]
pub struct MethodSet {
    pub get: bool,
    pub post: bool,
    pub put: bool,
    pub delete: bool,
    pub patch: bool,
}

impl View for MethodSet {
    type V = Set<Method>;

    open spec fn view(&self) -> Set<Method> {
        Set::new(|m: Method| self.spec_contains(m))
    }
}

/// `seq![m]` where `present`, else nothing.
pub open spec fn only_if(present: bool, m: Method) -> Seq<Method> {
    if present {
        seq![m]
    } else {
        Seq::empty()
    }
}

impl MethodSet {
    /// Whether `m` is in the set.
    pub open spec fn spec_contains(&self, m: Method) -> bool {
        match m {
            Method::Get => self.get,
            Method::Post => self.post,
            Method::Put => self.put,
            Method::Delete => self.delete,
            Method::Patch => self.patch,
        }
    }

    /// The members in the order GET, POST, PUT, DELETE, PATCH.
    pub open spec fn listed(&self) -> Seq<Method> {
        only_if(self.get, Method::Get) + only_if(self.post, Method::Post) + only_if(
            self.put,
            Method::Put,
        ) + only_if(self.delete, Method::Delete) + only_if(self.patch, Method::Patch)
    }

    /// The set without members.
    pub fn empty() -> (s: MethodSet)
        ensures
            s == MethodSet::holding(Seq::empty()),
            s@ == Set::<Method>::empty(),
    {
        let s = MethodSet { get: false, post: false, put: false, delete: false, patch: false };
        assert(s@ =~= Set::<Method>::empty());
        s
    }

    /// Whether `m` is in the set.
    #[verifier::when_used_as_spec(spec_contains)]
    pub fn contains(&self, m: Method) -> (b: bool)
        ensures
            b == self.spec_contains(m),
            b == self@.contains(m),
    {
        match m {
            Method::Get => self.get,
            Method::Post => self.post,
            Method::Put => self.put,
            Method::Delete => self.delete,
            Method::Patch => self.patch,
        }
    }

    /// The set with `m` in it.
    pub open spec fn spec_with(self, m: Method) -> MethodSet {
        match m {
            Method::Get => MethodSet { get: true, ..self },
            Method::Post => MethodSet { post: true, ..self },
            Method::Put => MethodSet { put: true, ..self },
            Method::Delete => MethodSet { delete: true, ..self },
            Method::Patch => MethodSet { patch: true, ..self },
        }
    }

    /// The set of the methods that occur in `methods`.
    pub open spec fn holding(methods: Seq<Method>) -> MethodSet {
        MethodSet {
            get: methods.contains(Method::Get),
            post: methods.contains(Method::Post),
            put: methods.contains(Method::Put),
            delete: methods.contains(Method::Delete),
            patch: methods.contains(Method::Patch),
        }
    }

    /// The set with `m` in it.
    #[verifier::when_used_as_spec(spec_with)]
    pub fn with(self, m: Method) -> (s: MethodSet)
        ensures
            s == self.spec_with(m),
            s@ == self@.insert(m),
    {
        let s = match m {
            Method::Get => MethodSet { get: true, ..self },
            Method::Post => MethodSet { post: true, ..self },
            Method::Put => MethodSet { put: true, ..self },
            Method::Delete => MethodSet { delete: true, ..self },
            Method::Patch => MethodSet { patch: true, ..self },
        };
        assert(s@ =~= self@.insert(m));
        s
    }

    /// The set of the methods in `methods`.
    pub fn of(methods: &Vec<Method>) -> (s: MethodSet)
        ensures
            s == MethodSet::holding(methods@),
            s@ == methods@.to_set(),
    {
        let mut s = MethodSet::empty();
        let n: usize = methods.len();
        let mut i: usize = 0;
        while i < n
            invariant
                n == methods.len(),
                i <= n,
                s@ == methods@.take(i as int).to_set(),
                s == MethodSet::holding(methods@.take(i as int)),
            decreases n - i,
        {
            s = s.with(methods[i]);
            proof {
                let seen = methods@.take(i as int);
                let more = methods@.take(i + 1);
                assert(more =~= seen.push(methods@[i as int]));
                assert forall|m: Method| more.contains(m) <==> (seen.contains(m) || m
                    == methods@[i as int]) by {
                    if more.contains(m) {
                        let k = choose|k: int| 0 <= k < more.len() && more[k] == m;
                        if k < i {
                            assert(seen[k] == m);
                        }
                    }
                    if seen.contains(m) {
                        let k = choose|k: int| 0 <= k < seen.len() && seen[k] == m;
                        assert(more[k] == m);
                    }
                    assert(more[i as int] == methods@[i as int]);
                }
            }
            proof {
                let before = methods@.take(i as int);
                let after = methods@.take(i + 1);
                assert(after =~= before.push(methods@[i as int]));
                assert forall|m: Method| after.to_set().contains(m) <==> before.to_set().insert(
                    methods@[i as int],
                ).contains(m) by {
                    if after.contains(m) {
                        let k = choose|k: int| 0 <= k < after.len() && after[k] == m;
                        if k < i {
                            assert(before[k] == m);
                        }
                    }
                    if before.contains(m) {
                        let k = choose|k: int| 0 <= k < before.len() && before[k] == m;
                        assert(after[k] == m);
                    }
                    assert(after[i as int] == methods@[i as int]);
                }
                assert(after.to_set() =~= before.to_set().insert(methods@[i as int]));
            }
            i = i + 1;
        }
        assert(methods@.take(n as int) =~= methods@);
        s
    }

    /// The members, each once, in the order GET, POST, PUT, DELETE, PATCH.
    pub fn to_vec(&self) -> (v: Vec<Method>)
        ensures
            v@ == self.listed(),
    {
        let mut v: Vec<Method> = Vec::new();
        if self.get {
            v.push(Method::Get);
        }
        if self.post {
            v.push(Method::Post);
        }
        if self.put {
            v.push(Method::Put);
        }
        if self.delete {
            v.push(Method::Delete);
        }
        if self.patch {
            v.push(Method::Patch);
        }
        assert(v@ =~= self.listed());
        v
    }
}

/// How a statically generated route is built. Carried along, not acted on.
#[derive(Clone, Copy, Debug, PartialEq, Eq, Structural)]
pub enum StaticMode {
    Upfront,
    Incremental,
}

/// One route of the application: where it is served, how it is rendered, and
/// under which methods.
#[derive(Clone, Debug, PartialEq, Eq)]
pub struct RouteListing {
    path: String,
    leptos_path: String,
    mode: SsrMode,
    methods: MethodSet,
    static_mode: Option<StaticMode>,
}

/// A route listing as mathematics.
pub struct RouteListingView {
    pub path: Seq<char>,
    pub leptos_path: Seq<char>,
    pub mode: SsrMode,
    pub methods: MethodSet,
    pub static_mode: Option<StaticMode>,
}

impl View for RouteListing {
    type V = RouteListingView;

    closed spec fn view(&self) -> RouteListingView {
        RouteListingView {
            path: self.path@,
            leptos_path: self.leptos_path@,
            mode: self.mode,
            methods: self.methods,
            static_mode: self.static_mode,
        }
    }
}

/// The views of a sequence of listings.
pub open spec fn listings(v: Seq<RouteListing>) -> Seq<RouteListingView> {
    Seq::new(v.len(), |i: int| v[i]@)
}

impl RouteListing {
    /// A listing from its parts.
    pub fn new(
        path: String,
        leptos_path: String,
        mode: SsrMode,
        methods: &Vec<Method>,
        static_mode: Option<StaticMode>,
    ) -> (l: RouteListing)
        ensures
            l@.path == path@,
            l@.leptos_path == leptos_path@,
            l@.mode == mode,
            l@.methods == MethodSet::holding(methods@),
            l@.static_mode == static_mode,
    {
        RouteListing { path, leptos_path, mode, methods: MethodSet::of(methods), static_mode }
    }

    /// The path the route is served under.
    pub fn path(&self) -> (p: &str)
        ensures
            p@ == self@.path,
    {
        self.path.as_str()
    }

    /// The path as the application's router wrote it.
    pub fn leptos_path(&self) -> (p: &str)
        ensures
            p@ == self@.leptos_path,
    {
        self.leptos_path.as_str()
    }

    /// The rendering strategy.
    pub fn mode(&self) -> (m: SsrMode)
        ensures
            m == self@.mode,
    {
        self.mode
    }

    /// The permitted methods.
    pub fn methods(&self) -> (s: MethodSet)
        ensures
            s == self@.methods,
    {
        self.methods
    }

    /// How the route is generated statically, if it is.
    pub fn static_mode(&self) -> (s: Option<StaticMode>)
        ensures
            s == self@.static_mode,
    {
        self.static_mode
    }

    /// A copy of the listing.
    pub fn duplicate(&self) -> (l: RouteListing)
        ensures
            l@ == self@,
    {
        RouteListing {
            path: self.path.clone(),
            leptos_path: self.leptos_path.clone(),
            mode: self.mode,
            methods: self.methods,
            static_mode: self.static_mode,
        }
    }
}

/// One registered handler: requests of `method` for `path` are rendered by
/// the strategy `mode`.
#[derive(Clone, Debug, PartialEq, Eq)]
pub struct Registration {
    pub method: Method,
    pub path: String,
    pub mode: SsrMode,
}

/// A registration as mathematics.
pub struct RegistrationView {
    pub method: Method,
    pub path: Seq<char>,
    pub mode: SsrMode,
}

impl View for Registration {
    type V = RegistrationView;

    open spec fn view(&self) -> RegistrationView {
        RegistrationView { method: self.method, path: self.path@, mode: self.mode }
    }
}

/// The views of a sequence of registrations.
pub open spec fn registrations(v: Seq<Registration>) -> Seq<RegistrationView> {
    Seq::new(v.len(), |i: int| v[i]@)
}

/// The table of registered handlers, in the order of registration.
#[derive(Clone, Debug, PartialEq, Eq)]
pub struct Router {
    routes: Vec<Registration>,
}

impl View for Router {
    type V = Seq<RegistrationView>;

    closed spec fn view(&self) -> Seq<RegistrationView> {
        registrations(self.routes@)
    }
}

impl Router {
    /// A table without registrations.
    pub fn new() -> (r: Router)
        ensures
            r@ == Seq::<RegistrationView>::empty(),
    {
        let r = Router { routes: Vec::new() };
        assert(r@ =~= Seq::<RegistrationView>::empty());
        r
    }

    /// The registrations, in order.
    pub fn routes(&self) -> (v: &Vec<Registration>)
        ensures
            registrations(v@) == self@,
    {
        &self.routes
    }

    fn register(self, method: Method, path: &str, mode: SsrMode) -> (r: Router)
        ensures
            r@ == self@.push(RegistrationView { method, path: path@, mode }),
    {
        let ghost before = self@;
        let mut routes = self.routes;
        routes.push(Registration { method, path: path.to_owned(), mode });
        let r = Router { routes };
        assert(r@ =~= before.push(RegistrationView { method, path: path@, mode }));
        r
    }
}

/// Registers the out-of-order streaming handler for `method` and `path`.
pub fn render_app_to_stream_with_context(method: Method, path: &str, router: Router) -> (r: Router)
    ensures
        r@ == router@.push(RegistrationView { method, path: path@, mode: SsrMode::OutOfOrder }),
{
    router.register(method, path, SsrMode::OutOfOrder)
}

/// Registers the streaming handler that has blocking sections replaced
/// inline, for `method` and `path`.
pub fn render_app_to_stream_with_context_and_replace_blocks(
    method: Method,
    path: &str,
    router: Router,
) -> (r: Router)
    ensures
        r@ == router@.push(
            RegistrationView { method, path: path@, mode: SsrMode::PartiallyBlocked },
        ),
{
    router.register(method, path, SsrMode::PartiallyBlocked)
}

/// Registers the handler that sends the whole document in one piece, for
/// `method` and `path`.
pub fn render_app_async_with_context(method: Method, path: &str, router: Router) -> (r: Router)
    ensures
        r@ == router@.push(RegistrationView { method, path: path@, mode: SsrMode::Async }),
{
    router.register(method, path, SsrMode::Async)
}

/// Registers the in-order streaming handler for `method` and `path`.
pub fn render_app_to_stream_in_order_with_context(
    method: Method,
    path: &str,
    router: Router,
) -> (r: Router)
    ensures
        r@ == router@.push(RegistrationView { method, path: path@, mode: SsrMode::InOrder }),
{
    router.register(method, path, SsrMode::InOrder)
}

/// Registers the handler of strategy `mode` for `method` and `path`.
pub fn dispatch(mode: SsrMode, method: Method, path: &str, router: Router) -> (r: Router)
    ensures
        r@ == router@.push(RegistrationView { method, path: path@, mode }),
{
    match mode {
        SsrMode::OutOfOrder => render_app_to_stream_with_context(method, path, router),
        SsrMode::PartiallyBlocked => render_app_to_stream_with_context_and_replace_blocks(
            method,
            path,
            router,
        ),
        SsrMode::Async => render_app_async_with_context(method, path, router),
        SsrMode::InOrder => render_app_to_stream_in_order_with_context(method, path, router),
    }
}

/// The registrations that one listing asks for: one for each of its methods,
/// in the order GET, POST, PUT, DELETE, PATCH, all with its path and strategy.
pub open spec fn wanted_by(l: RouteListingView) -> Seq<RegistrationView> {
    l.methods.listed().map_values(
        |m: Method| RegistrationView { method: m, path: l.path, mode: l.mode },
    )
}

/// The registrations that a list of listings asks for, listing by listing.
pub open spec fn wanted(ls: Seq<RouteListingView>) -> Seq<RegistrationView>
    decreases ls.len(),
{
    if ls.len() == 0 {
        Seq::empty()
    } else {
        wanted(ls.drop_last()) + wanted_by(ls.last())
    }
}

/// A router that application routes can be registered with.
pub trait LeptosRoutes: Sized {
    /// The registrations that the router holds.
    spec fn table(&self) -> Seq<RegistrationView>;

    /// Registers, behind what is there, a handler for each method of each
    /// listing, chosen by the listing's strategy.
    fn leptos_routes(self, paths: Vec<RouteListing>) -> (r: Self)
        ensures
            r.table() == self.table() + wanted(listings(paths@)),
    ;
}

impl LeptosRoutes for Router {
    open spec fn table(&self) -> Seq<RegistrationView> {
        self@
    }

    fn leptos_routes(self, paths: Vec<RouteListing>) -> (r: Router) {
        let ghost start = self@;
        let ghost all = listings(paths@);
        let mut router = self;
        let n: usize = paths.len();
        let mut i: usize = 0;
        assert(all.take(0) =~= Seq::<RouteListingView>::empty());
        while i < n
            invariant
                n == paths.len(),
                all == listings(paths@),
                i <= n,
                router@ == start + wanted(all.take(i as int)),
            decreases n - i,
        {
            let listing = &paths[i];
            let methods = listing.methods().to_vec();
            let ghost base = router@;
            let ghost want = wanted_by(listing@);
            let k: usize = methods.len();
            let mut j: usize = 0;
            while j < k
                invariant
                    k == methods.len(),
                    j <= k,
                    methods@ == listing@.methods.listed(),
                    want == wanted_by(listing@),
                    router@ == base + want.take(j as int),
                decreases k - j,
            {
                router = dispatch(listing.mode(), methods[j], listing.path(), router);
                proof {
                    assert(want[j as int] == RegistrationView {
                        method: methods@[j as int],
                        path: listing@.path,
                        mode: listing@.mode,
                    });
                    assert(want.take(j + 1) =~= want.take(j as int).push(want[j as int]));
                    assert(router@ =~= base + want.take(j + 1));
                }
                j = j + 1;
            }
            proof {
                assert(want.take(k as int) =~= want);
                assert(all.take(i + 1).drop_last() =~= all.take(i as int));
                assert(all.take(i + 1).last() == listing@);
                assert(router@ =~= start + wanted(all.take(i + 1)));
            }
            i = i + 1;
        }
        assert(all.take(n as int) =~= all);
        router
    }
}

/// The listing that stands for an application without routes: the root path,
/// rendered out of order, under GET.
pub open spec fn root_listing() -> RouteListingView {
    RouteListingView {
        path: "/"@,
        leptos_path: Seq::empty(),
        mode: SsrMode::OutOfOrder,
        methods: MethodSet { get: true, post: false, put: false, delete: false, patch: false },
        static_mode: None,
    }
}

/// A listing with an empty path is served under the root path and keeps the
/// empty path as the one that the application's router wrote; any other is
/// left as it is.
pub open spec fn rooted(l: RouteListingView) -> RouteListingView {
    if l.path.len() == 0 {
        RouteListingView { path: "/"@, leptos_path: l.path, ..l }
    } else {
        l
    }
}

/// Selects the listings whose path is not among `excluded`.
pub open spec fn kept(excluded: Seq<Seq<char>>) -> spec_fn(RouteListingView) -> bool {
    |l: RouteListingView| !excluded.contains(l.path)
}

/// The route list of an application whose router declares `routes`: every
/// empty path becomes the root path; an application without routes gets the
/// root listing; else the listings whose path is excluded are dropped.
pub open spec fn route_list(routes: Seq<RouteListingView>, excluded: Option<Seq<Seq<char>>>) -> Seq<
    RouteListingView,
> {
    if routes.len() == 0 {
        seq![root_listing()]
    } else {
        match excluded {
            Some(ex) => routes.map_values(|l: RouteListingView| rooted(l)).filter(kept(ex)),
            None => routes.map_values(|l: RouteListingView| rooted(l)),
        }
    }
}

/// The texts of a sequence of strings.
pub open spec fn paths_of(v: Seq<String>) -> Seq<Seq<char>> {
    Seq::new(v.len(), |i: int| v[i]@)
}

/// The texts of the excluded paths, where there are any.
pub open spec fn excluded_paths(excluded: Option<Vec<String>>) -> Option<Seq<Seq<char>>> {
    match excluded {
        Some(v) => Some(paths_of(v@)),
        None => None,
    }
}

/// Whether `path` is one of `excluded`.
pub fn is_excluded(excluded: &Vec<String>, path: &str) -> (b: bool)
    ensures
        b == paths_of(excluded@).contains(path@),
{
    let wanted_path = path.to_owned();
    let n: usize = excluded.len();
    let mut i: usize = 0;
    while i < n
        invariant
            n == excluded.len(),
            i <= n,
            wanted_path@ == path@,
            forall|j: int| 0 <= j < i ==> paths_of(excluded@)[j] != path@,
        decreases n - i,
    {
        if excluded[i] == wanted_path {
            assert(paths_of(excluded@)[i as int] == path@);
            return true;
        }
        i = i + 1;
    }
    false
}

/// The listing as it enters the route list: with the root path in place of
/// an empty one.
pub fn root_if_empty(listing: &RouteListing) -> (l: RouteListing)
    ensures
        l@ == rooted(listing@),
{
    if listing.path().is_empty() {
        RouteListing {
            path: "/".to_owned(),
            leptos_path: listing.path.clone(),
            mode: listing.mode,
            methods: listing.methods,
            static_mode: listing.static_mode,
        }
    } else {
        listing.duplicate()
    }
}

/// The route list of an application whose router declares `routes`.
pub fn generate_route_list(routes: Vec<RouteListing>) -> (list: Vec<RouteListing>)
    ensures
        listings(list@) == route_list(listings(routes@), None),
{
    generate_route_list_with_exclusions(routes, None)
}

/// The route list of an application whose router declares `routes`, without
/// the routes whose path is in `excluded_routes`: those are left to handlers
/// of the caller's own.
pub fn generate_route_list_with_exclusions(
    routes: Vec<RouteListing>,
    excluded_routes: Option<Vec<String>>,
) -> (list: Vec<RouteListing>)
    ensures
        listings(list@) == route_list(listings(routes@), excluded_paths(excluded_routes)),
{
    let ghost all = listings(routes@);
    let ghost mapped = all.map_values(|l: RouteListingView| rooted(l));
    let n: usize = routes.len();
    let mut list: Vec<RouteListing> = Vec::new();
    if n == 0 {
        let root = RouteListing {
            path: "/".to_owned(),
            leptos_path: String::new(),
            mode: SsrMode::OutOfOrder,
            methods: MethodSet { get: true, post: false, put: false, delete: false, patch: false },
            static_mode: None,
        };
        list.push(root);
        assert(listings(list@) =~= seq![root_listing()]);
        return list;
    }
    let mut i: usize = 0;
    assert(mapped.take(0) =~= Seq::<RouteListingView>::empty());
    while i < n
        invariant
            n == routes.len(),
            all == listings(routes@),
            mapped == all.map_values(|l: RouteListingView| rooted(l)),
            i <= n,
            match excluded_routes {
                Some(ex) => listings(list@) == mapped.take(i as int).filter(kept(paths_of(ex@))),
                None => listings(list@) == mapped.take(i as int),
            },
        decreases n - i,
    {
        let listing = root_if_empty(&routes[i]);
        let ghost prev = listings(list@);
        let ghost seen = mapped.take(i as int);
        proof {
            assert(mapped.take(i + 1) =~= seen.push(listing@));
        }
        let keep = match &excluded_routes {
            Some(ex) => {
                proof {
                    crate::sequences::lemma_filter_push(seen, listing@, kept(paths_of(ex@)));
                }
                !is_excluded(ex, listing.path())
            },
            None => true,
        };
        if keep {
            list.push(listing);
            assert(listings(list@) =~= prev.push(listing@));
        }
        i = i + 1;
    }
    assert(mapped.take(n as int) =~= mapped);
    list
}

} // verus!
