use webview_custom::client::{process, request_target, ClientError, UrlParseError};
use webview_custom::mapgenie::{
    location_saved, mapgenie_api_locations, mapgenie_api_notes, note_deleted, LocationsStep, NotesStep,
};
use webview_custom::request::{header_id, Method, RequestFault};
use webview_custom::response::json_or_not_found;

const JSON: &str = "application/json; charset=utf-8";

#[test]
fn header_ids() {
    assert_eq!(header_id(Some(b"42"), RequestFault::MissingMapId), Ok(42));
    assert_eq!(header_id(None, RequestFault::MissingGameId), Err(RequestFault::MissingGameId));
    assert_eq!(header_id(Some(b"4\x012"), RequestFault::MissingMapId), Err(RequestFault::HeaderNotText));
    assert_eq!(header_id(Some("4é".as_bytes()), RequestFault::MissingMapId), Err(RequestFault::HeaderNotText));
    assert_eq!(header_id(Some(b"4 2"), RequestFault::MissingMapId), Err(RequestFault::InvalidNumber));
    assert_eq!(header_id(Some(b"\t7"), RequestFault::MissingMapId), Err(RequestFault::InvalidNumber));
    assert_eq!(header_id(Some(b""), RequestFault::MissingMapId), Err(RequestFault::InvalidNumber));
}

#[test]
fn location_requests() {
    assert_eq!(
        mapgenie_api_locations(9, Method::Put, Some(b"3"), Some(b"5")),
        Ok(LocationsStep::Add { game_id: 5, map_id: 3, location_id: 9 })
    );
    assert_eq!(
        mapgenie_api_locations(9, Method::Delete, Some(b"3"), Some(b"5")),
        Ok(LocationsStep::Remove { game_id: 5, map_id: 3, location_id: 9 })
    );
    match mapgenie_api_locations(9, Method::Get, Some(b"3"), Some(b"5")) {
        Ok(LocationsStep::Respond(r)) => {
            assert_eq!(r.status, 405);
            assert_eq!(r.content_type.as_deref(), Some(JSON));
            assert_eq!(r.body, "{}");
        }
        other => panic!("unexpected {:?}", other),
    }
    assert_eq!(mapgenie_api_locations(9, Method::Put, None, Some(b"5")), Err(RequestFault::MissingMapId));
    assert_eq!(mapgenie_api_locations(9, Method::Put, Some(b"3"), None), Err(RequestFault::MissingGameId));
    assert_eq!(mapgenie_api_locations(9, Method::Other, None, None), Err(RequestFault::MissingMapId));
    let r = location_saved();
    assert_eq!((r.status, r.body.as_str()), (200, "{}"));
}

#[test]
fn note_requests() {
    assert_eq!(
        mapgenie_api_notes(Method::Post, Some(b"1"), Some(b"2"), "/api/v1/user/notes", b"{\"a\":1}"),
        Ok(NotesStep::Add { game_id: 2, map_id: 1, body: "{\"a\":1}".to_string(), body_len: 7 })
    );
    assert_eq!(
        mapgenie_api_notes(Method::Put, Some(b"1"), Some(b"2"), "/api/v1/user/notes/abc-é", "ü".as_bytes()),
        Ok(NotesStep::Update {
            game_id: 2,
            map_id: 1,
            body: "ü".to_string(),
            body_len: 2,
            note_id: "abc-é".to_string(),
            note_id_len: 6,
        })
    );
    assert_eq!(
        mapgenie_api_notes(Method::Delete, Some(b"1"), Some(b"2"), "/api/v1/user/notes/n1", b""),
        Ok(NotesStep::Delete { game_id: 2, map_id: 1, note_id: "n1".to_string(), note_id_len: 2 })
    );
    assert_eq!(
        mapgenie_api_notes(Method::Post, Some(b"1"), Some(b"2"), "/", &[0xff, 0x00]),
        Err(RequestFault::BodyNotUtf8)
    );
    assert_eq!(
        mapgenie_api_notes(Method::Post, Some(b"1"), Some(b"2"), "/", b"a\0b"),
        Err(RequestFault::InteriorNul)
    );
    assert_eq!(
        mapgenie_api_notes(Method::Delete, Some(b"1"), Some(b"2"), "/notes/a\0", b""),
        Err(RequestFault::InteriorNul)
    );
    assert_eq!(
        mapgenie_api_notes(Method::Post, Some(b"x"), Some(b"2"), "/", b""),
        Err(RequestFault::InvalidNumber)
    );
    match mapgenie_api_notes(Method::Get, Some(b"1"), Some(b"2"), "/", b"") {
        Ok(NotesStep::Respond(r)) => assert_eq!((r.status, r.body.as_str()), (405, "{}")),
        other => panic!("unexpected {:?}", other),
    }
    let d = note_deleted();
    assert_eq!((d.status, d.body.as_str(), d.content_type.as_deref()), (204, "", Some(JSON)));
    assert_eq!(RequestFault::MissingMapId.message(), "X-Map-ID not found");
}

#[test]
fn json_answers() {
    let ok = json_or_not_found(Some("[1]".to_string()));
    assert_eq!((ok.status, ok.body.as_str(), ok.content_type.as_deref()), (200, "[1]", Some(JSON)));
    let missing = json_or_not_found(None);
    assert_eq!((missing.status, missing.body.as_str(), missing.content_type), (404, "", None));
}

#[test]
fn request_urls_are_normalised() {
    assert_eq!(process("HTTPS://MapGenie.io/a b"), Ok("https://mapgenie.io/a%20b".to_string()));
    assert_eq!(process("not a url"), Err(ClientError::InvalidUrl(UrlParseError::RelativeUrlWithoutBase)));
    assert_eq!(process("/relative/path"), Err(ClientError::InvalidUrl(UrlParseError::RelativeUrlWithoutBase)));
    assert_eq!(process("http://host:99999/"), Err(ClientError::InvalidUrl(UrlParseError::InvalidPort)));
    assert_eq!(process("http://[::1/"), Err(ClientError::InvalidUrl(UrlParseError::InvalidIpv6Address)));
    assert_eq!(process("http:///"), Err(ClientError::InvalidUrl(UrlParseError::EmptyHost)));
    assert_eq!(
        request_target(Err(UrlParseError::Overflow)),
        Err(ClientError::InvalidUrl(UrlParseError::Overflow))
    );
    assert_eq!(request_target(Ok("x".to_string())), Ok("x".to_string()));
}
