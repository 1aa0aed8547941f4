//! The navigation and request handlers of the web view, and the overrides
//! that the application may install in front of them.
use vstd::prelude::*;

verus! {

/// The overrides installed in front of the handlers: one for navigations
/// (`N`) and one for requests (`R`), each possibly absent.
pub struct HandlerOverrides<N, R> {
    navigation: Option<N>,
    request: Option<R>,
}

impl<N, R> View for HandlerOverrides<N, R> {
    type V = (Option<N>, Option<R>);

    closed spec fn view(&self) -> (Option<N>, Option<R>) {
        (self.navigation, self.request)
    }
}

impl<N, R> HandlerOverrides<N, R> {
    /// No override installed.
    pub fn new() -> (r: Self)
        ensures
            r@ == (None::<N>, None::<R>),
    {
        HandlerOverrides { navigation: None, request: None }
    }

    /// The navigation override, if one is installed.
    pub fn navigation(&self) -> (r: Option<&N>)
        ensures
            match r {
                Some(h) => self@.0 == Some(*h),
                None => self@.0 is None,
            },
    {
        self.navigation.as_ref()
    }

    /// The request override, if one is installed.
    pub fn request(&self) -> (r: Option<&R>)
        ensures
            match r {
                Some(h) => self@.1 == Some(*h),
                None => self@.1 is None,
            },
    {
        self.request.as_ref()
    }
}

/// Installs `handler` as the navigation override, replacing any earlier one.
pub fn override_navigation_handler<N, R>(overrides: &mut HandlerOverrides<N, R>, handler: N)
    ensures
        final(overrides)@ == with_navigation(old(overrides)@, handler),
{
    overrides.navigation = Some(handler);
}

/// Installs `handler` as the request override, replacing any earlier one.
pub fn override_request_handler<N, R>(overrides: &mut HandlerOverrides<N, R>, handler: R)
    ensures
        final(overrides)@ == (old(overrides)@.0, Some(handler)),
{
    overrides.request = Some(handler);
}

/// Removes the navigation override.
pub fn clear_navigation_handler_override<N, R>(overrides: &mut HandlerOverrides<N, R>)
    ensures
        final(overrides)@ == without_navigation(old(overrides)@),
{
    overrides.navigation = None;
}

/// Removes the request override.
pub fn clear_request_handler_override<N, R>(overrides: &mut HandlerOverrides<N, R>)
    ensures
        final(overrides)@ == (old(overrides)@.0, None::<R>),
{
    overrides.request = None;
}

/// The navigation handler of the web view: the one the application gave,
/// or one that allows every navigation.
pub struct NavigationHandler<B> {
    base: Option<B>,
}

impl<B> NavigationHandler<B> {
    /// The handler the application gave, if any.
    pub closed spec fn base(&self) -> Option<B> {
        self.base
    }
}

/// The navigation handler built on the one the application gives (always present).
pub fn get_navigation_handler<B>(navigation_handler: Option<B>) -> (r: Option<NavigationHandler<B>>)
    ensures
        r matches Some(h) && h.base() == navigation_handler,
{
    Some(NavigationHandler { base: navigation_handler })
}

impl<B: Fn(String) -> bool> NavigationHandler<B> {
    /// What the handler itself answers: the given handler's answer, or `true`
    /// when none was given.
    pub fn allows(&self, url: String) -> (r: bool)
        requires
            self.base() matches Some(b) ==> call_requires(b, (url,)),
        ensures
            match self.base() {
                Some(b) => call_ensures(b, (url,), r),
                None => r,
            },
    {
        match &self.base {
            Some(b) => b(url),
            None => true,
        }
    }

    /// Answers a navigation: the installed override decides, with this
    /// handler at hand, or this handler decides when no override is installed.
    pub fn handle<N: Fn(String, &NavigationHandler<B>) -> bool, R>(
        &self,
        overrides: &HandlerOverrides<N, R>,
        url: String,
    ) -> (r: bool)
        requires
            overrides@.0 matches Some(o) ==> call_requires(o, (url, self)),
            overrides@.0 is None ==> (self.base() matches Some(b) ==> call_requires(b, (url,))),
        ensures
            match overrides@.0 {
                Some(o) => call_ensures(o, (url, self), r),
                None => match self.base() {
                    Some(b) => call_ensures(b, (url,), r),
                    None => r,
                },
            },
    {
        match overrides.navigation() {
            Some(o) => o(url, self),
            None => self.allows(url),
        }
    }
}


/// The request handler of the web view: the one the application gave.
pub struct RequestHandler<H> {
    base: H,
}

impl<H> RequestHandler<H> {
    /// The handler the application gave.
    pub closed spec fn base(&self) -> H {
        self.base
    }
}

/// The request handler built on the one the application gives.
pub fn get_request_handler<H>(request_handler: H) -> (r: RequestHandler<H>)
    ensures
        r.base() == request_handler,
{
    RequestHandler { base: request_handler }
}

impl<H> RequestHandler<H> {
    /// Answers a request of web view `webview_id`: the installed override
    /// decides, with the given handler at hand, or the given handler decides
    /// when no override is installed.
    pub fn handle<Q, P, N, O>(
        &self,
        overrides: &HandlerOverrides<N, O>,
        webview_id: &str,
        request: Q,
        is_document_start_script_enabled: bool,
    ) -> (r: Option<P>) where
        H: Fn(&str, Q, bool) -> Option<P>,
        O: Fn(&str, Q, bool, &H) -> Option<P>,

        requires
            overrides@.1 matches Some(o) ==> call_requires(
                o,
                (webview_id, request, is_document_start_script_enabled, &self.base()),
            ),
            overrides@.1 is None ==> call_requires(
                self.base(),
                (webview_id, request, is_document_start_script_enabled),
            ),
        ensures
            match overrides@.1 {
                Some(o) => call_ensures(
                    o,
                    (webview_id, request, is_document_start_script_enabled, &self.base()),
                    r,
                ),
                None => call_ensures(
                    self.base(),
                    (webview_id, request, is_document_start_script_enabled),
                    r,
                ),
            },
    {
        match overrides.request() {
            Some(o) => o(webview_id, request, is_document_start_script_enabled, &self.base),
            None => (self.base)(webview_id, request, is_document_start_script_enabled),
        }
    }
}


/// The overrides after installing `handler` as the navigation override.
pub open spec fn with_navigation<N, R>(v: (Option<N>, Option<R>), handler: N) -> (Option<N>, Option<R>) {
    (Some(handler), v.1)
}

/// The overrides after clearing the navigation override.
pub open spec fn without_navigation<N, R>(v: (Option<N>, Option<R>)) -> (Option<N>, Option<R>) {
    (None, v.1)
}

/// Clearing the navigation override after installing one leaves the
/// overrides as clearing alone does: the request override is untouched and
/// no navigation override remains.
pub proof fn law_clear_undoes_override<N, R>(v: (Option<N>, Option<R>), handler: N)
    ensures
        without_navigation(with_navigation(v, handler)) == without_navigation(v),
        without_navigation(with_navigation(v, handler)).1 == v.1,
{
}

/// Installing a navigation override puts it in place, clearing one removes
/// it, and neither touches the request override.
pub proof fn law_navigation_override_install_and_clear<N, R>(v: (Option<N>, Option<R>), handler: N)
    ensures
        with_navigation(v, handler).0 == Some(handler),
        with_navigation(v, handler).1 == v.1,
        without_navigation(v).0 is None,
        without_navigation(v).1 == v.1,
{
}

} // verus!
