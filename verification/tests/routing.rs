use webview_custom::ads;
use webview_custom::custom::{is_custom_uri, override_network, setup_custom_protocol_handler, NetworkRoute};
use webview_custom::mapgenie::{self, ApiRoute, InjectAsset, MapGenieRoute};
use webview_custom::request::{Method, RequestFault};

fn s(x: &str) -> String {
    x.to_string()
}

#[test]
fn ads_match_known_hosts() {
    assert!(ads::is_match(&s("https://securepubads.g.doubleclick.net/tag/js/gpt.js")));
    assert!(ads::is_match(&s("https://cdn.ampproject.org")));
    assert!(ads::is_match(&s("https://c.amazon-adsystem.com/aax2/apstag.js")));
    assert!(ads::is_match(&s("https://d.liadm.com/x")));
}

#[test]
fn ads_do_not_match_other_hosts() {
    assert!(!ads::is_match(&s("https://mapgenie.io/elden-ring/maps/the-lands-between")));
    assert!(!ads::is_match(&s("https://example.com/")));
    // the marker needs its trailing slash
    assert!(!ads::is_match(&s("https://doubleclick.net")));
    assert!(!ads::is_match(&s("")));
}

#[test]
fn ads_not_found_is_empty_404() {
    let r = ads::override_network_404();
    assert_eq!(r.status, 404);
    assert_eq!(r.content_type, None);
    assert_eq!(r.body, "");
}

#[test]
fn mapgenie_match_is_prefix() {
    assert!(mapgenie::is_match(&s("https://mapgenie.io/")));
    assert!(mapgenie::is_match(&s("https://mapgenie.io/api/v1/user/notes")));
    assert!(!mapgenie::is_match(&s("http://mapgenie.io/")));
    assert!(!mapgenie::is_match(&s("https://mapgenie.io")));
    assert!(!mapgenie::is_match(&s("https://example.com/https://mapgenie.io/")));
}

#[test]
fn custom_uri_is_either() {
    assert!(is_custom_uri(&s("https://mapgenie.io/x")));
    assert!(is_custom_uri(&s("https://x.zdbb.net/y")));
    assert!(!is_custom_uri(&s("https://example.com/")));
}

#[test]
fn network_routes() {
    assert_eq!(override_network(&s("https://example.com/")), NetworkRoute::NotFound);
    assert_eq!(
        override_network(&s("https://mapgenie.io/inject/mapgenie_script.js")),
        NetworkRoute::MapGenie(MapGenieRoute::Inject { name: s("mapgenie_script.js") })
    );
    assert_eq!(override_network(&s("https://mapgenie.io/api/v1/user/notes")), NetworkRoute::MapGenie(MapGenieRoute::Api));
    assert_eq!(
        override_network(&s("https://mapgenie.io/elden-ring/maps/the-lands-between")),
        NetworkRoute::MapGenie(MapGenieRoute::HtmlMaps)
    );
}

#[test]
fn inject_name_drops_every_prefix_occurrence() {
    assert_eq!(
        mapgenie::override_network(&s("https://mapgenie.io/inject/https://mapgenie.io/inject/a.css")),
        MapGenieRoute::Inject { name: s("a.css") }
    );
}

#[test]
fn inject_assets() {
    assert_eq!(mapgenie::inject_data(&s("mapgenie_script.js")), Some(InjectAsset::Script));
    assert_eq!(mapgenie::inject_data(&s("mapgenie_script.css")), Some(InjectAsset::Style));
    assert_eq!(mapgenie::inject_data(&s("other.js")), None);
    assert_eq!(mapgenie::inject_data(&s("")), None);
    assert_eq!(InjectAsset::Script.content_type(), "application/javascript");
    assert_eq!(InjectAsset::Style.content_type(), "text/css");
    assert_eq!(InjectAsset::Style.file_name(), "mapgenie_script.css");
    let r = mapgenie::inject_response(InjectAsset::Style, s("body{}"));
    assert_eq!(r.status, 200);
    assert_eq!(r.content_type, Some(s("text/css")));
    assert_eq!(r.body, "body{}");
}

#[test]
fn api_routes() {
    assert_eq!(
        mapgenie::mapgenie_api(&s("https://mapgenie.io/api/v1/user/locations/12345")),
        Ok(ApiRoute::Locations { location_id: 12345 })
    );
    assert_eq!(
        mapgenie::mapgenie_api(&s("https://mapgenie.io/api/v1/user/locations/+7")),
        Ok(ApiRoute::Locations { location_id: 7 })
    );
    assert_eq!(
        mapgenie::mapgenie_api(&s("https://mapgenie.io/api/v1/user/locations/abc")),
        Err(RequestFault::InvalidNumber)
    );
    assert_eq!(
        mapgenie::mapgenie_api(&s("https://mapgenie.io/api/v1/user/locations/")),
        Err(RequestFault::InvalidNumber)
    );
    assert_eq!(
        mapgenie::mapgenie_api(&s("https://mapgenie.io/api/v1/user/locations/18446744073709551616")),
        Err(RequestFault::InvalidNumber)
    );
    assert_eq!(
        mapgenie::mapgenie_api(&s("https://mapgenie.io/api/v1/user/locations/18446744073709551615")),
        Ok(ApiRoute::Locations { location_id: u64::MAX })
    );
    assert_eq!(mapgenie::mapgenie_api(&s("https://mapgenie.io/api/v1/user/notes/5")), Ok(ApiRoute::Notes));
    assert_eq!(
        mapgenie::mapgenie_api(&s("https://mapgenie.io/api/local/map-data/12/34")),
        Ok(ApiRoute::LocalMapData { game_id: 12, map_id: 34 })
    );
    assert_eq!(
        mapgenie::mapgenie_api(&s("https://mapgenie.io/api/local/map-data/12")),
        Err(RequestFault::MissingIdentifier)
    );
    assert_eq!(
        mapgenie::mapgenie_api(&s("https://mapgenie.io/api/local/map-data/12/34/")),
        Err(RequestFault::InvalidNumber)
    );
    assert_eq!(mapgenie::mapgenie_api(&s("https://mapgenie.io/api/v2/other")), Ok(ApiRoute::Unhandled));
}

#[test]
fn html_maps_fetches_only_get() {
    assert!(mapgenie::mapgenie_html_maps(Method::Get));
    assert!(!mapgenie::mapgenie_html_maps(Method::Post));
    assert!(!mapgenie::mapgenie_html_maps(Method::Other));
}

#[test]
fn filters_are_ads_then_site() {
    let f = setup_custom_protocol_handler();
    assert_eq!(f.len(), 21);
    assert_eq!(f[0], "https://*.doubleclick.net/*");
    assert_eq!(f[17], "https://*.liadm.com/*");
    assert_eq!(f[18], "https://mapgenie.io/*/maps/*");
    assert_eq!(f[20], "https://mapgenie.io/inject/*");
}
