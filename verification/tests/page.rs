use webview_custom::mapgenie::{edit_html_maps, mapgenie_html_maps_page, EditError, PageRefusal};

#[test]
fn edit_rewrites_configuration_script() {
    let html = "<html><head></head><body><script>window.mapUrl = 'x'; window.game = {};</script><p>end</p></body></html>".to_string();
    let expected = "<html><head></head><body>\n\
<link rel=\"stylesheet\" href=\"https://mapgenie.io/inject/mapgenie_script.css\" />\
<script type=\"application/javascript\" src=\"https://mapgenie.io/inject/mapgenie_script.js\"></script>\n\
<script>const w = {};w.mapUrl = 'x'; w.game = {};injectInputs(w);</script><p>end</p></body></html>";
    assert_eq!(edit_html_maps(&html).unwrap(), expected);
}

#[test]
fn edit_uses_first_closing_tag_after_script() {
    let html = "</script><script>window.mapUrl=1</script><script>window.b=2</script>".to_string();
    let out = edit_html_maps(&html).unwrap();
    assert!(out.starts_with("</script>\n<link"));
    assert!(out.ends_with("const w = {};w.mapUrl=1injectInputs(w);</script><script>window.b=2</script>"));
}

#[test]
fn edit_replacement_is_not_repeated() {
    let html = "<script>window.mapUrl;windowindow.x</script>".to_string();
    let out = edit_html_maps(&html).unwrap();
    assert!(out.ends_with("const w = {};w.mapUrl;window.xinjectInputs(w);</script>"));
}

#[test]
fn edit_errors() {
    assert_eq!(edit_html_maps(&"<html></html>".to_string()), Err(EditError::StartNotFound));
    assert_eq!(edit_html_maps(&"<script>window.mapUrl = 1;".to_string()), Err(EditError::EndNotFound));
    assert_eq!(EditError::StartNotFound.message(), "Start Not Found");
    assert_eq!(EditError::EndNotFound.message(), "End Not Found");
}

#[test]
fn edit_keeps_non_ascii_text() {
    let html = "é<script>window.mapUrl='ü'</script>ß".to_string();
    let out = edit_html_maps(&html).unwrap();
    assert!(out.starts_with("é\n<link"));
    assert!(out.ends_with("const w = {};w.mapUrl='ü'injectInputs(w);</script>ß"));
}

#[test]
fn fetched_page_outcomes() {
    assert_eq!(mapgenie_html_maps_page(None), Err(PageRefusal::FetchFailed));
    let plain = "<html></html>".to_string();
    assert_eq!(mapgenie_html_maps_page(Some(&plain)), Err(PageRefusal::Edit(EditError::StartNotFound)));
    let page = "<script>window.mapUrl=1</script>".to_string();
    assert_eq!(mapgenie_html_maps_page(Some(&page)), edit_html_maps(&page).map_err(PageRefusal::Edit));
}
