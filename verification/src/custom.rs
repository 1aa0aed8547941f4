//! Which intercepted requests are served locally, and where they go.
use vstd::prelude::*;
use crate::ads;
use crate::mapgenie::{self, route_spec, site_prefix, MapGenieRoute};
use crate::text::has_prefix;

verus! {

/// Whether a URL is served by the library: a map-site URL or an advertising one.
pub fn is_custom_uri(uri: &String) -> (r: bool)
    ensures
        r == (has_prefix(uri@, site_prefix()) || ads::is_ad_uri(uri@)),
{
    mapgenie::is_match(uri) || ads::is_match(uri)
}

/// Where an intercepted request goes.
#[derive(Debug, PartialEq, Eq)]
pub enum NetworkRoute {
    /// To the map-site handlers, by `route`.
    MapGenie(MapGenieRoute),
    /// Answered with `ads::override_network_404`.
    NotFound,
}

/// Routes an intercepted request: map-site URLs to their handlers, all
/// others to 404.
pub fn override_network(url: &String) -> (r: NetworkRoute)
    ensures
        (r is MapGenie) == has_prefix(url@, site_prefix()),
        r matches NetworkRoute::MapGenie(route) ==> route_spec(url@, route),
{
    if mapgenie::is_match(url) {
        NetworkRoute::MapGenie(mapgenie::override_network(url))
    } else {
        NetworkRoute::NotFound
    }
}

/// The URL patterns that the web view is asked to hand over: those of the
/// advertising hosts, then those of the map site.
pub open spec fn filter_patterns() -> Seq<Seq<char>> {
    seq![
        "https://*.doubleclick.net/*"@,
        "https://*.fastclick.net/*"@,
        "https://www.googletagmanager.com/*"@,
        "https://cdn.ampproject.org/*"@,
        "https://*.scorecardresearch.com/*"@,
        "https://*.2mdn.net/*"@,
        "https://*.doubleverify.com/*"@,
        "https://*.ignimgs.com/*"@,
        "https://*.amazon-adsystem.com/*"@,
        "https://*.confiant-integrations.net/*"@,
        "https://*.jsdelivr.net/*"@,
        "https://*.ziffstatic.com/*"@,
        "https://*.adnxs.com/*"@,
        "https://*.chartbeat.net/*"@,
        "https://static.chartbeat.com/*"@,
        "https://zdbb.net/*"@,
        "https://*.zdbb.net/*"@,
        "https://*.liadm.com/*"@,
        "https://mapgenie.io/*/maps/*"@,
        "https://mapgenie.io/api/*"@,
        "https://mapgenie.io/inject/*"@,
    ]
}

/// The URL patterns that the web view is asked to hand over (see `filter_patterns`).
pub fn setup_custom_protocol_handler() -> (r: Vec<String>)
    ensures
        r@.len() == filter_patterns().len(),
        forall|k: int| 0 <= k < r@.len() ==> #[trigger] r@[k]@ == filter_patterns()[k],
{
    let lits: Vec<&'static str> = vec![
        "https://*.doubleclick.net/*",
        "https://*.fastclick.net/*",
        "https://www.googletagmanager.com/*",
        "https://cdn.ampproject.org/*",
        "https://*.scorecardresearch.com/*",
        "https://*.2mdn.net/*",
        "https://*.doubleverify.com/*",
        "https://*.ignimgs.com/*",
        "https://*.amazon-adsystem.com/*",
        "https://*.confiant-integrations.net/*",
        "https://*.jsdelivr.net/*",
        "https://*.ziffstatic.com/*",
        "https://*.adnxs.com/*",
        "https://*.chartbeat.net/*",
        "https://static.chartbeat.com/*",
        "https://zdbb.net/*",
        "https://*.zdbb.net/*",
        "https://*.liadm.com/*",
        "https://mapgenie.io/*/maps/*",
        "https://mapgenie.io/api/*",
        "https://mapgenie.io/inject/*",
    ];
    let n = lits.len();
    let mut out: Vec<String> = Vec::new();
    for i in 0..n
        invariant
            n == lits@.len(),
            n == filter_patterns().len(),
            forall|k: int| 0 <= k < n ==> #[trigger] lits@[k]@ == filter_patterns()[k],
            out@.len() == i,
            forall|k: int| 0 <= k < i ==> #[trigger] out@[k]@ == filter_patterns()[k],
    {
        out.push(lits[i].to_owned());
    }
    out
}

} // verus!
