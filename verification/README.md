# webview_custom

Request interception for an embedded map viewer, verified with Verus.

`src/` is the verified library:

- `text` — searching, prefix/suffix tests, replacement, splitting, decimal
  numbers, each specified over `Seq<char>`.
- `ads`, `mapgenie`, `custom` — which intercepted URLs are served locally,
  how each endpoint of the map site is answered, and the rewrite of the map
  page.
- `request`, `response`, `client` — what is read from a request, what is
  answered, and where a fetched page is requested from.
- `handlers` — the navigation and request handlers and their overrides.
- `webview` — the web view's own handling: refused hosts, the saved set of
  found locations, and the map page served with them.

`app/` holds the side effects: the global override slots, the responder,
the calls into the native map-data layer, page fetches, and the Windows
WebView2 integration.
