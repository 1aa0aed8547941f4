use webview_custom::handlers::{
    clear_navigation_handler_override, clear_request_handler_override, get_navigation_handler,
    get_request_handler, override_navigation_handler, override_request_handler, HandlerOverrides,
    NavigationHandler,
};
use webview_custom::webview::{
    location_toggled_response, map_page_response, render_map, Custom, LocationStore, RequestPlan,
};

fn store_with(ids: &[&str]) -> LocationStore {
    let mut s = LocationStore::new();
    s.load(&ids.join(","));
    s
}

fn ids(s: &LocationStore) -> Vec<String> {
    s.locations().clone()
}

#[test]
fn request_plans() {
    let c = Custom {};
    assert_eq!(c.handle_request("https://static.chartbeat.net/x"), Some(RequestPlan::Blocked));
    assert_eq!(c.handle_request("https://www.google-analytics.com/collect"), Some(RequestPlan::Blocked));
    assert_eq!(
        c.handle_request("https://mapgenie.io/api/v1/user/locations/77"),
        Some(RequestPlan::ToggleLocation { id: "77".to_string() })
    );
    assert_eq!(
        c.handle_request("https://mapgenie.io/elden-ring/maps/the-lands-between"),
        Some(RequestPlan::RenderMap)
    );
    assert_eq!(c.handle_request("https://mapgenie.io/elden-ring/maps/other"), Some(RequestPlan::PassThrough));
    assert_eq!(c.handle_request("https:/"), None);
    assert_eq!(c.custom_filter("anything"), "*");
}

#[test]
fn store_loads_once() {
    let mut s = LocationStore::new();
    assert!(!s.is_loaded());
    s.load("1,2,3");
    assert!(s.is_loaded());
    assert_eq!(ids(&s), vec!["1", "2", "3"]);
    s.load("9");
    assert_eq!(ids(&s), vec!["1", "2", "3"]);
    let mut e = LocationStore::new();
    e.load("");
    assert!(e.is_loaded());
    assert!(ids(&e).is_empty());
}

#[test]
fn toggle_adds_and_removes() {
    let mut s = store_with(&["1", "2", "1"]);
    s.toggle("1");
    assert_eq!(ids(&s), vec!["2"]);
    s.toggle("5");
    assert_eq!(ids(&s), vec!["2", "5"]);
    s.toggle("5");
    assert_eq!(ids(&s), vec!["2"]);
}

#[test]
fn save_then_load_gives_same_set() {
    let s = store_with(&["a", "", "b"]);
    let text = s.save();
    assert_eq!(text, "a,,b");
    let mut t = LocationStore::new();
    t.load(&text);
    assert_eq!(ids(&t), ids(&s));
}

#[test]
fn user_script_text() {
    let s = store_with(&["10", "20"]);
    assert_eq!(
        s.user_script(),
        "window.user = {\"id\":6557285,\"role\":\"user\",\"locations\":{\"10\":true,\"20\":true},\"gameLocationsCount\":2,\"hasPro\":true,\"trackedCategoryIds\":[],\"suggestions\":[],\"presets\":[]};"
    );
    let e = LocationStore::new();
    assert_eq!(
        e.user_script(),
        "window.user = {\"id\":6557285,\"role\":\"user\",\"locations\":{},\"gameLocationsCount\":0,\"hasPro\":true,\"trackedCategoryIds\":[],\"suggestions\":[],\"presets\":[]};"
    );
}

#[test]
fn map_page_is_rendered() {
    let s = store_with(&["7"]);
    let out = "H: 1=======<html><head></head><script>window.user = null;</script></html>=======tail";
    let m = render_map(out, &s).unwrap();
    assert_eq!(m.headers, "H: 1");
    assert_eq!(
        m.html,
        format!(
            "<html><head><style>#blobby-left {{ display: none; }}</style></head><script>{}</script></html>",
            s.user_script()
        )
    );
    assert!(render_map("no separator", &s).is_none());
    let only = render_map("h=======page", &s).unwrap();
    assert_eq!((only.headers.as_str(), only.html.as_str()), ("h", "page"));
    let r = map_page_response(m);
    assert_eq!((r.status, r.reason.as_str()), (200, "OK"));
    assert_eq!(r.headers.as_deref(), Some("H: 1"));
}

#[test]
fn toggled_answer() {
    let r = location_toggled_response();
    assert_eq!((r.status, r.reason.as_str(), r.body.as_str()), (200, "OK", "{}"));
    assert!(r.headers.is_none());
}

#[test]
fn navigation_dispatch() {
    let deny = |url: String| !url.contains("evil");
    let h = get_navigation_handler(Some(deny)).unwrap();
    let mut o: HandlerOverrides<fn(String, &NavigationHandler<_>) -> bool, ()> = HandlerOverrides::new();
    assert!(h.handle(&o, "https://ok".to_string()));
    assert!(!h.handle(&o, "https://evil".to_string()));
    fn allow_all<B: Fn(String) -> bool>(_: String, _: &NavigationHandler<B>) -> bool {
        true
    }
    override_navigation_handler(&mut o, allow_all);
    assert!(h.handle(&o, "https://evil".to_string()));
    clear_navigation_handler_override(&mut o);
    assert!(!h.handle(&o, "https://evil".to_string()));
}

#[test]
fn default_navigation_allows_everything() {
    let h = get_navigation_handler::<fn(String) -> bool>(None).unwrap();
    let o: HandlerOverrides<fn(String, &NavigationHandler<fn(String) -> bool>) -> bool, ()> = HandlerOverrides::new();
    assert!(h.handle(&o, "anything".to_string()));
    assert!(h.allows("x".to_string()));
}

#[test]
fn request_dispatch() {
    let base = |id: &str, req: u32, _: bool| Some(format!("{}:{}", id, req));
    let h = get_request_handler(base);
    let mut o: HandlerOverrides<(), Box<dyn Fn(&str, u32, bool, &_) -> Option<String>>> = HandlerOverrides::new();
    assert_eq!(h.handle(&o, "w", 1, false), Some("w:1".to_string()));
    override_request_handler(&mut o, Box::new(|_: &str, req: u32, _: bool, _: &_| if req > 5 { None } else { Some("o".to_string()) }));
    assert_eq!(h.handle(&o, "w", 1, false), Some("o".to_string()));
    assert_eq!(h.handle(&o, "w", 9, false), None);
    clear_request_handler_override(&mut o);
    assert_eq!(h.handle(&o, "w", 9, true), Some("w:9".to_string()));
}
