//! Request interception for an embedded map viewer: which URLs are handled
//! locally, how intercepted requests are answered, how the map page is
//! rewritten before it is shown, and the saved set of found locations.
pub mod ads;
pub mod client;
pub mod custom;
pub mod handlers;
pub mod mapgenie;
pub mod request;
pub mod response;
pub mod text;
pub mod webview;
