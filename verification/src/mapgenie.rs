//! Requests to the map site: routing, the injected assets, the local API and
//! the rewrite of the map page.
use vstd::prelude::*;
use crate::request::{has_nul_byte, has_nul_char, header_id, header_number, utf8_text, Method, RequestFault};
use vstd::utf8::{decode_utf8, encode_utf8, valid_utf8};
use crate::response::{json_response, json_view, ResponsePlan, ResponseView};
use crate::text::{
    chars_of, parse_u64, parse_u64_spec, split_exec, split_on, extend_chars, extend_str, find_first, find_first_exec, find_from, find_from_exec,
    has_prefix, has_suffix, lemma_find_from, matches_at, replace_all, replace_all_exec, starts_with_exec,
    string_of,
};

verus! {

/// The URL prefix of the map site.
pub open spec fn site_prefix() -> Seq<char> {
    "https://mapgenie.io/"@
}

/// Whether `uri` belongs to the map site.
pub fn is_match(uri: &String) -> (r: bool)
    ensures
        r == has_prefix(uri@, site_prefix()),
{
    let s = chars_of(uri.as_str());
    let p = chars_of("https://mapgenie.io/");
    starts_with_exec(s.as_slice(), p.as_slice())
}

/// Why the map page could not be rewritten.
#[derive(Debug, Clone, Copy, PartialEq, Eq, Structural)]
pub enum EditError {
    /// The page holds no `<script>window.mapUrl`.
    StartNotFound,
    /// No `</script>` follows it.
    EndNotFound,
}

impl EditError {
    /// The text that describes the error.
    pub fn message(&self) -> (r: String)
        ensures
            self is StartNotFound ==> r@ == "Start Not Found"@,
            self is EndNotFound ==> r@ == "End Not Found"@,
    {
        match self {
            EditError::StartNotFound => "Start Not Found".to_owned(),
            EditError::EndNotFound => "End Not Found".to_owned(),
        }
    }
}

/// The inline script that the map page configures itself with.
pub open spec fn script_open_marker() -> Seq<char> {
    "<script>window.mapUrl"@
}

/// The tag that closes it.
pub open spec fn script_close_marker() -> Seq<char> {
    "</script>"@
}

/// What is inserted in front of the rewritten script.
pub open spec fn page_head_insert() -> Seq<char> {
    "\n"@ + "<link rel=\"stylesheet\" href=\"https://mapgenie.io/inject/mapgenie_script.css\" />"@
        + "<script type=\"application/javascript\" src=\"https://mapgenie.io/inject/mapgenie_script.js\"></script>"@
        + "\n<script>"@ + "const w = {};"@
}

/// The rewritten map page: the configuration script that starts at the first
/// `<script>window.mapUrl` and ends at the first `</script>` after it is
/// moved behind the injected stylesheet and script, with every `window.`
/// in it renamed to `w.`, and a call of `injectInputs(w)` after it.
pub open spec fn edit_html_maps_spec(html: Seq<char>) -> Result<Seq<char>, EditError> {
    match find_first(html, script_open_marker()) {
        None => Err(EditError::StartNotFound),
        Some(start) => match find_from(html, script_close_marker(), start) {
            None => Err(EditError::EndNotFound),
            Some(end) => Ok(
                html.take(start) + page_head_insert() + replace_all(
                    html.subrange(start + 8, end),
                    "window."@,
                    "w."@,
                ) + "injectInputs(w);"@ + html.skip(end),
            ),
        },
    }
}

/// A closing tag found at or after the opening marker starts after the whole marker.
proof fn lemma_close_after_open(html: Seq<char>, start: int, end: int)
    requires
        matches_at(html, script_open_marker(), start),
        matches_at(html, script_close_marker(), end),
        start <= end,
    ensures
        start + 21 <= end,
{
    reveal_strlit("<script>window.mapUrl");
    reveal_strlit("</script>");
    let open = html.subrange(start, start + 21);
    let close = html.subrange(end, end + 9);
    if end < start + 21 {
        assert(close[0] == '<');
        assert(close[0] == html[end]);
        assert(open[end - start] == html[end]);
        if end == start {
            assert(close[1] == html[end + 1]);
            assert(open[1] == html[end + 1]);
        }
    }
}

/// Rewrites the map page so that it loads the injected assets and hands its
/// configuration to them.
pub fn edit_html_maps(html: &String) -> (r: Result<String, EditError>)
    ensures
        match r {
            Ok(page) => edit_html_maps_spec(html@) == Ok::<Seq<char>, EditError>(page@),
            Err(e) => edit_html_maps_spec(html@) == Err::<Seq<char>, EditError>(e),
        },
{
    let h = chars_of(html.as_str());
    let open = chars_of("<script>window.mapUrl");
    let start = match find_first_exec(h.as_slice(), open.as_slice()) {
        None => return Err(EditError::StartNotFound),
        Some(i) => i,
    };
    let close = chars_of("</script>");
    let end = match find_from_exec(h.as_slice(), close.as_slice(), start) {
        None => return Err(EditError::EndNotFound),
        Some(j) => j,
    };
    proof {
        lemma_find_from(h@, open@, 0);
        lemma_find_from(h@, close@, start as int);
        lemma_close_after_open(h@, start as int, end as int);
    }
    let from = chars_of("window.");
    let to = chars_of("w.");
    proof {
        reveal_strlit("window.");
    }
    let script = replace_all_exec(&h[start + 8..end], from.as_slice(), to.as_slice());
    let mut out: Vec<char> = Vec::new();
    extend_chars(&mut out, &h[0..start]);
    extend_str(&mut out, "\n");
    extend_str(
        &mut out,
        "<link rel=\"stylesheet\" href=\"https://mapgenie.io/inject/mapgenie_script.css\" />",
    );
    extend_str(
        &mut out,
        "<script type=\"application/javascript\" src=\"https://mapgenie.io/inject/mapgenie_script.js\"></script>",
    );
    extend_str(&mut out, "\n<script>");
    extend_str(&mut out, "const w = {};");
    extend_chars(&mut out, script.as_slice());
    extend_str(&mut out, "injectInputs(w);");
    extend_chars(&mut out, &h[end..h.len()]);
    assert(out@ =~= h@.take(start as int) + page_head_insert() + replace_all(
        h@.subrange(start + 8, end as int),
        "window."@,
        "w."@,
    ) + "injectInputs(w);"@ + h@.skip(end as int));
    Ok(string_of(out.as_slice()))
}


/// Tests whether `s` begins with the literal `p`.
fn begins_with(s: &[char], p: &str) -> (r: bool)
    ensures
        r == has_prefix(s@, p@),
{
    let pc = chars_of(p);
    starts_with_exec(s, pc.as_slice())
}

/// Where the injected assets are served.
pub open spec fn inject_prefix() -> Seq<char> {
    "https://mapgenie.io/inject/"@
}

/// Where the site's API is.
pub open spec fn api_prefix() -> Seq<char> {
    "https://mapgenie.io/api/"@
}

/// How a request to the map site is served.
#[derive(Debug, PartialEq, Eq)]
pub enum MapGenieRoute {
    /// One of the injected assets, by name.
    Inject { name: String },
    /// The site's API (see `mapgenie_api`).
    Api,
    /// A map page, fetched and rewritten (see `mapgenie_html_maps`).
    HtmlMaps,
}

/// `r` is how a request for `url` is served: the injected assets under
/// `inject/` (named by the URL with every occurrence of that prefix removed),
/// the API under `api/`, and the map pages otherwise.
pub open spec fn route_spec(url: Seq<char>, r: MapGenieRoute) -> bool {
    &&& (r is Inject) == has_prefix(url, inject_prefix())
    &&& r matches MapGenieRoute::Inject { name } ==> name@ == replace_all(
        url,
        inject_prefix(),
        Seq::<char>::empty(),
    )
    &&& (r is Api) == (!has_prefix(url, inject_prefix()) && has_prefix(url, api_prefix()))
    &&& (r is HtmlMaps) == (!has_prefix(url, inject_prefix()) && !has_prefix(url, api_prefix()))
}

/// Chooses how a request to the map site is served: the injected assets
/// under `inject/` (named by the URL with every occurrence of that prefix
/// removed), the API under `api/`, and the map pages otherwise.
pub fn override_network(url: &String) -> (r: MapGenieRoute)
    ensures
        route_spec(url@, r),
{
    let u = chars_of(url.as_str());
    if begins_with(u.as_slice(), "https://mapgenie.io/inject/") {
        let prefix = chars_of("https://mapgenie.io/inject/");
        proof {
            reveal_strlit("https://mapgenie.io/inject/");
        }
        let empty: Vec<char> = Vec::new();
        let name = replace_all_exec(u.as_slice(), prefix.as_slice(), empty.as_slice());
        assert(empty@ =~= Seq::<char>::empty());
        MapGenieRoute::Inject { name: string_of(name.as_slice()) }
    } else if begins_with(u.as_slice(), "https://mapgenie.io/api/") {
        MapGenieRoute::Api
    } else {
        MapGenieRoute::HtmlMaps
    }
}

/// The assets that are injected into the map page.
#[derive(Debug, Clone, Copy, PartialEq, Eq, Structural)]
pub enum InjectAsset {
    Script,
    Style,
}

impl InjectAsset {
    /// The name the asset is requested by.
    pub open spec fn name_spec(self) -> Seq<char> {
        match self {
            InjectAsset::Script => "mapgenie_script.js"@,
            InjectAsset::Style => "mapgenie_script.css"@,
        }
    }

    /// The `content-type` the asset is served with.
    pub open spec fn content_type_spec(self) -> Seq<char> {
        match self {
            InjectAsset::Script => "application/javascript"@,
            InjectAsset::Style => "text/css"@,
        }
    }

    /// The name the asset is requested by.
    pub fn file_name(&self) -> (r: &'static str)
        ensures
            r@ == self.name_spec(),
    {
        match self {
            InjectAsset::Script => "mapgenie_script.js",
            InjectAsset::Style => "mapgenie_script.css",
        }
    }

    /// The `content-type` the asset is served with.
    pub fn content_type(&self) -> (r: &'static str)
        ensures
            r@ == self.content_type_spec(),
    {
        match self {
            InjectAsset::Script => "application/javascript",
            InjectAsset::Style => "text/css",
        }
    }
}

/// Which asset a name asks for; `None` is answered with 404.
pub fn inject_data(name: &String) -> (r: Option<InjectAsset>)
    ensures
        r == (if name@ == InjectAsset::Script.name_spec() {
            Some(InjectAsset::Script)
        } else if name@ == InjectAsset::Style.name_spec() {
            Some(InjectAsset::Style)
        } else {
            None::<InjectAsset>
        }),
{
    let n = chars_of(name.as_str());
    let js = chars_of("mapgenie_script.js");
    if crate::text::same_chars(n.as_slice(), js.as_slice()) {
        return Some(InjectAsset::Script);
    }
    let css = chars_of("mapgenie_script.css");
    if crate::text::same_chars(n.as_slice(), css.as_slice()) {
        return Some(InjectAsset::Style);
    }
    None
}

/// The answer that serves an asset: 200, its `content-type`, and its content.
pub fn inject_response(asset: InjectAsset, content: String) -> (r: ResponsePlan)
    ensures
        r@ == (ResponseView {
            status: 200,
            content_type: Some(asset.content_type_spec()),
            body: content@,
        }),
{
    ResponsePlan { status: 200, content_type: Some(asset.content_type().to_owned()), body: content }
}

/// Where the found locations are marked and unmarked.
pub open spec fn locations_prefix() -> Seq<char> {
    "https://mapgenie.io/api/v1/user/locations/"@
}

/// Where notes are kept.
pub open spec fn notes_prefix() -> Seq<char> {
    "https://mapgenie.io/api/v1/user/notes"@
}

/// Where the local map data is served.
pub open spec fn map_data_prefix() -> Seq<char> {
    "https://mapgenie.io/api/local/map-data/"@
}

/// Which API endpoint a request is for.
#[derive(Debug, Clone, Copy, PartialEq, Eq, Structural)]
pub enum ApiRoute {
    /// Mark or unmark a location (see `mapgenie_api_locations`).
    Locations { location_id: u64 },
    /// Add, update or delete a note (see `mapgenie_api_notes`).
    Notes,
    /// The local data of one map of one game.
    LocalMapData { game_id: u64, map_id: u64 },
    /// An endpoint that is not served; the request gets no answer.
    Unhandled,
}

/// Every piece parses as a `u64`.
pub open spec fn all_numbers(pieces: Seq<Seq<char>>) -> bool {
    forall|i: int| 0 <= i < pieces.len() ==> (#[trigger] parse_u64_spec(pieces[i])) is Some
}

/// The game and map a map-data URL names: the URL with every occurrence of
/// the map-data prefix removed, split at `/`; every piece must be a number,
/// and there must be at least two.
pub open spec fn map_data_ids(url: Seq<char>) -> Result<(u64, u64), RequestFault> {
    let pieces = split_on(replace_all(url, map_data_prefix(), Seq::<char>::empty()), '/');
    if !all_numbers(pieces) {
        Err(RequestFault::InvalidNumber)
    } else if pieces.len() < 2 {
        Err(RequestFault::MissingIdentifier)
    } else {
        Ok((parse_u64_spec(pieces[0]).unwrap(), parse_u64_spec(pieces[1]).unwrap()))
    }
}

/// Which endpoint an API URL is for. A location URL names its location by
/// the number after its last `/`.
pub open spec fn mapgenie_api_spec(url: Seq<char>) -> Result<ApiRoute, RequestFault> {
    if has_prefix(url, locations_prefix()) {
        match parse_u64_spec(split_on(url, '/').last()) {
            Some(id) => Ok(ApiRoute::Locations { location_id: id }),
            None => Err(RequestFault::InvalidNumber),
        }
    } else if has_prefix(url, notes_prefix()) {
        Ok(ApiRoute::Notes)
    } else if has_prefix(url, map_data_prefix()) {
        match map_data_ids(url) {
            Ok((g, m)) => Ok(ApiRoute::LocalMapData { game_id: g, map_id: m }),
            Err(e) => Err(e),
        }
    } else {
        Ok(ApiRoute::Unhandled)
    }
}

/// Reads the game and map of a map-data URL (see `map_data_ids`).
fn mapgenie_api_locations_local(u: &[char]) -> (r: Result<(u64, u64), RequestFault>)
    ensures
        r == map_data_ids(u@),
{
    let prefix = chars_of("https://mapgenie.io/api/local/map-data/");
    proof {
        reveal_strlit("https://mapgenie.io/api/local/map-data/");
    }
    let empty: Vec<char> = Vec::new();
    let rest = replace_all_exec(u, prefix.as_slice(), empty.as_slice());
    assert(empty@ =~= Seq::<char>::empty());
    assert(rest@ == replace_all(u@, map_data_prefix(), Seq::<char>::empty()));
    let pieces = split_exec(rest.as_slice(), '/');
    let ghost spec_pieces = split_on(rest@, '/');
    let n = pieces.len();
    let mut numbers: Vec<u64> = Vec::new();
    for i in 0..n
        invariant
            n == spec_pieces.len(),
            spec_pieces == split_on(replace_all(u@, map_data_prefix(), Seq::<char>::empty()), '/'),
            pieces@.len() == n,
            forall|k: int| 0 <= k < n ==> #[trigger] pieces@[k]@ == spec_pieces[k],
            numbers@.len() == i,
            forall|k: int| 0 <= k < i ==> parse_u64_spec(#[trigger] spec_pieces[k]) == Some(numbers@[k]),
    {
        match parse_u64(pieces[i].as_slice()) {
            Some(v) => {
                numbers.push(v);
            },
            None => {
                assert(parse_u64_spec(spec_pieces[i as int]) is None);
                assert(!all_numbers(spec_pieces));
                return Err(RequestFault::InvalidNumber);
            },
        }
    }
    assert(all_numbers(spec_pieces));
    if n < 2 {
        return Err(RequestFault::MissingIdentifier);
    }
    Ok((numbers[0], numbers[1]))
}

/// Chooses the API endpoint a request is for (see `mapgenie_api_spec`).
pub fn mapgenie_api(url: &String) -> (r: Result<ApiRoute, RequestFault>)
    ensures
        r == mapgenie_api_spec(url@),
{
    let u = chars_of(url.as_str());
    if begins_with(u.as_slice(), "https://mapgenie.io/api/v1/user/locations/") {
        let pieces = split_exec(u.as_slice(), '/');
        proof {
            crate::text::lemma_split_nonempty(u@, '/');
        }
        let last = pieces.len() - 1;
        match parse_u64(pieces[last].as_slice()) {
            Some(id) => Ok(ApiRoute::Locations { location_id: id }),
            None => Err(RequestFault::InvalidNumber),
        }
    } else if begins_with(u.as_slice(), "https://mapgenie.io/api/v1/user/notes") {
        Ok(ApiRoute::Notes)
    } else if begins_with(u.as_slice(), "https://mapgenie.io/api/local/map-data/") {
        match mapgenie_api_locations_local(u.as_slice()) {
            Ok((g, m)) => Ok(ApiRoute::LocalMapData { game_id: g, map_id: m }),
            Err(e) => Err(e),
        }
    } else {
        Ok(ApiRoute::Unhandled)
    }
}


/// What to do with a location request.
#[derive(Debug, PartialEq, Eq)]
pub enum LocationsStep {
    /// Mark the location as found, then answer with `location_saved`.
    Add { game_id: u64, map_id: u64, location_id: u64 },
    /// Unmark the location, then answer with `location_saved`.
    Remove { game_id: u64, map_id: u64, location_id: u64 },
    /// Answer at once.
    Respond(ResponsePlan),
}

/// The answer to a method that an endpoint does not serve: 405 with `{}`.
pub open spec fn method_not_allowed_view() -> ResponseView {
    json_view(405, "{}"@)
}

/// A location request: the map (`X-Map-ID`) and the game (`X-Game-ID`) are
/// read from the headers, in that order; `PUT` marks the location, `DELETE`
/// unmarks it, and any other method is refused with 405.
pub fn mapgenie_api_locations(
    location_id: u64,
    method: Method,
    map_id: Option<&[u8]>,
    game_id: Option<&[u8]>,
) -> (r: Result<LocationsStep, RequestFault>)
    ensures
        ({
            let m = header_number(opt_bytes(map_id), RequestFault::MissingMapId);
            let g = header_number(opt_bytes(game_id), RequestFault::MissingGameId);
            match (m, g) {
                (Err(e), _) => r == Err::<LocationsStep, RequestFault>(e),
                (Ok(_), Err(e)) => r == Err::<LocationsStep, RequestFault>(e),
                (Ok(map), Ok(game)) => match method {
                    Method::Put => r == Ok::<LocationsStep, RequestFault>(
                        LocationsStep::Add { game_id: game, map_id: map, location_id },
                    ),
                    Method::Delete => r == Ok::<LocationsStep, RequestFault>(
                        LocationsStep::Remove { game_id: game, map_id: map, location_id },
                    ),
                    _ => r matches Ok(LocationsStep::Respond(p)) && p@ == method_not_allowed_view(),
                },
            }
        }),
{
    let map = match header_id(map_id, RequestFault::MissingMapId) {
        Ok(v) => v,
        Err(e) => return Err(e),
    };
    let game = match header_id(game_id, RequestFault::MissingGameId) {
        Ok(v) => v,
        Err(e) => return Err(e),
    };
    match method {
        Method::Put => Ok(LocationsStep::Add { game_id: game, map_id: map, location_id }),
        Method::Delete => Ok(LocationsStep::Remove { game_id: game, map_id: map, location_id }),
        _ => Ok(LocationsStep::Respond(json_response(405, "{}".to_owned()))),
    }
}

/// The answer after a location was marked or unmarked: 200 with `{}`.
pub fn location_saved() -> (r: ResponsePlan)
    ensures
        r@ == json_view(200, "{}"@),
{
    json_response(200, "{}".to_owned())
}

/// A borrowed byte slice as a sequence.
pub open spec fn opt_bytes(b: Option<&[u8]>) -> Option<Seq<u8>> {
    match b {
        Some(x) => Some(x@),
        None => None,
    }
}


/// What to do with a note request.
#[derive(Debug, PartialEq, Eq)]
pub enum NotesStep {
    /// Store a new note, then answer with `json_or_not_found`.
    Add { game_id: u64, map_id: u64, body: String, body_len: i32 },
    /// Replace a note, then answer with `json_or_not_found`.
    Update {
        game_id: u64,
        map_id: u64,
        body: String,
        body_len: i32,
        note_id: String,
        note_id_len: i32,
    },
    /// Delete a note, then answer with `note_deleted`.
    Delete { game_id: u64, map_id: u64, note_id: String, note_id_len: i32 },
    /// Answer at once.
    Respond(ResponsePlan),
}

/// What a note request comes to, as plain values.
pub enum NotesView {
    Fault(RequestFault),
    Add { game_id: u64, map_id: u64, body: Seq<char>, body_len: i32 },
    Update {
        game_id: u64,
        map_id: u64,
        body: Seq<char>,
        body_len: i32,
        note_id: Seq<char>,
        note_id_len: i32,
    },
    Delete { game_id: u64, map_id: u64, note_id: Seq<char>, note_id_len: i32 },
    Respond(ResponseView),
}

/// The view of the outcome of `mapgenie_api_notes`.
pub open spec fn notes_view(r: Result<NotesStep, RequestFault>) -> NotesView {
    match r {
        Err(e) => NotesView::Fault(e),
        Ok(NotesStep::Add { game_id, map_id, body, body_len }) => NotesView::Add {
            game_id,
            map_id,
            body: body@,
            body_len,
        },
        Ok(NotesStep::Update { game_id, map_id, body, body_len, note_id, note_id_len }) => {
            NotesView::Update { game_id, map_id, body: body@, body_len, note_id: note_id@, note_id_len }
        },
        Ok(NotesStep::Delete { game_id, map_id, note_id, note_id_len }) => NotesView::Delete {
            game_id,
            map_id,
            note_id: note_id@,
            note_id_len,
        },
        Ok(NotesStep::Respond(p)) => NotesView::Respond(p@),
    }
}

/// The note a `PUT` or `DELETE` is about: the last `/`-separated piece of the path.
pub open spec fn note_id_of(path: Seq<char>) -> Seq<char> {
    split_on(path, '/').last()
}

/// A length that converts to `i32`.
pub open spec fn fits_i32(n: int) -> bool {
    n <= 2147483647
}

/// What is wrong with a note body, if anything: not UTF-8, or holding a NUL.
pub open spec fn body_fault(body: Seq<u8>) -> Option<RequestFault> {
    if !valid_utf8(body) {
        Some(RequestFault::BodyNotUtf8)
    } else if body.contains(0u8) {
        Some(RequestFault::InteriorNul)
    } else {
        None
    }
}

/// What a note request comes to. The headers are read as for locations.
/// `POST` adds the body as a note; `PUT` replaces the note named by the
/// path with the body; `DELETE` deletes that note; any other method is
/// refused with 405. The body must be UTF-8 without NUL, the note name must
/// hold no NUL, and the byte lengths handed on must fit in `i32`; these are
/// checked in the order body text, body NUL, note NUL, body length, note length.
pub open spec fn notes_spec(
    method: Method,
    map_id: Option<Seq<u8>>,
    game_id: Option<Seq<u8>>,
    path: Seq<char>,
    body: Seq<u8>,
) -> NotesView {
    let note = note_id_of(path);
    let note_len = encode_utf8(note).len();
    match (
        header_number(map_id, RequestFault::MissingMapId),
        header_number(game_id, RequestFault::MissingGameId),
    ) {
        (Err(e), _) => NotesView::Fault(e),
        (Ok(_), Err(e)) => NotesView::Fault(e),
        (Ok(map), Ok(game)) => match method {
            Method::Post => match body_fault(body) {
                Some(e) => NotesView::Fault(e),
                None => if !fits_i32(body.len() as int) {
                    NotesView::Fault(RequestFault::TooLong)
                } else {
                    NotesView::Add {
                        game_id: game,
                        map_id: map,
                        body: decode_utf8(body),
                        body_len: body.len() as i32,
                    }
                },
            },
            Method::Put => match body_fault(body) {
                Some(e) => NotesView::Fault(e),
                None => if note.contains('\0') {
                    NotesView::Fault(RequestFault::InteriorNul)
                } else if !fits_i32(body.len() as int) || !fits_i32(note_len as int) {
                    NotesView::Fault(RequestFault::TooLong)
                } else {
                    NotesView::Update {
                        game_id: game,
                        map_id: map,
                        body: decode_utf8(body),
                        body_len: body.len() as i32,
                        note_id: note,
                        note_id_len: note_len as i32,
                    }
                },
            },
            Method::Delete => if note.contains('\0') {
                NotesView::Fault(RequestFault::InteriorNul)
            } else if !fits_i32(note_len as int) {
                NotesView::Fault(RequestFault::TooLong)
            } else {
                NotesView::Delete {
                    game_id: game,
                    map_id: map,
                    note_id: note,
                    note_id_len: note_len as i32,
                }
            },
            _ => NotesView::Respond(method_not_allowed_view()),
        },
    }
}

/// Reads a note body: UTF-8 without NUL.
fn note_body(body: &[u8]) -> (r: Result<String, RequestFault>)
    ensures
        match r {
            Ok(s) => body_fault(body@) is None && s@ == decode_utf8(body@),
            Err(e) => body_fault(body@) == Some(e),
        },
{
    let text = match utf8_text(body) {
        Some(s) => s,
        None => return Err(RequestFault::BodyNotUtf8),
    };
    if has_nul_byte(body) {
        return Err(RequestFault::InteriorNul);
    }
    proof {
        vstd::utf8::encode_utf8_decode_utf8(text@);
    }
    Ok(text)
}

/// Reads the note named by a path, with its byte length.
fn note_name(path: &str) -> (r: (String, usize))
    ensures
        r.0@ == note_id_of(path@),
        r.1 == encode_utf8(note_id_of(path@)).len(),
{
    let p = chars_of(path);
    let pieces = split_exec(p.as_slice(), '/');
    proof {
        crate::text::lemma_split_nonempty(p@, '/');
    }
    let last = pieces.len() - 1;
    let name = string_of(pieces[last].as_slice());
    let len = name.as_str().as_bytes().len();
    (name, len)
}

/// Decides what a note request comes to (see `notes_spec`).
pub fn mapgenie_api_notes(
    method: Method,
    map_id: Option<&[u8]>,
    game_id: Option<&[u8]>,
    path: &str,
    body: &[u8],
) -> (r: Result<NotesStep, RequestFault>)
    ensures
        notes_view(r) == notes_spec(method, opt_bytes(map_id), opt_bytes(game_id), path@, body@),
{
    let map = match header_id(map_id, RequestFault::MissingMapId) {
        Ok(v) => v,
        Err(e) => return Err(e),
    };
    let game = match header_id(game_id, RequestFault::MissingGameId) {
        Ok(v) => v,
        Err(e) => return Err(e),
    };
    match method {
        Method::Post => {
            let text = match note_body(body) {
                Ok(s) => s,
                Err(e) => return Err(e),
            };
            if body.len() > 2147483647 {
                return Err(RequestFault::TooLong);
            }
            Ok(NotesStep::Add { game_id: game, map_id: map, body: text, body_len: body.len() as i32 })
        },
        Method::Put => {
            let (note, note_len) = note_name(path);
            let text = match note_body(body) {
                Ok(s) => s,
                Err(e) => return Err(e),
            };
            let nc = chars_of(note.as_str());
            if has_nul_char(nc.as_slice()) {
                return Err(RequestFault::InteriorNul);
            }
            if body.len() > 2147483647 || note_len > 2147483647 {
                return Err(RequestFault::TooLong);
            }
            Ok(
                NotesStep::Update {
                    game_id: game,
                    map_id: map,
                    body: text,
                    body_len: body.len() as i32,
                    note_id: note,
                    note_id_len: note_len as i32,
                },
            )
        },
        Method::Delete => {
            let (note, note_len) = note_name(path);
            let nc = chars_of(note.as_str());
            if has_nul_char(nc.as_slice()) {
                return Err(RequestFault::InteriorNul);
            }
            if note_len > 2147483647 {
                return Err(RequestFault::TooLong);
            }
            Ok(
                NotesStep::Delete {
                    game_id: game,
                    map_id: map,
                    note_id: note,
                    note_id_len: note_len as i32,
                },
            )
        },
        _ => Ok(NotesStep::Respond(json_response(405, "{}".to_owned()))),
    }
}

/// The answer after a note was deleted: 204 with an empty JSON body.
pub fn note_deleted() -> (r: ResponsePlan)
    ensures
        r@ == json_view(204, Seq::<char>::empty()),
{
    json_response(204, String::new())
}


/// Whether a map page request is fetched from the site (only `GET` is;
/// any other method is answered with 404).
pub fn mapgenie_html_maps(method: Method) -> (fetch: bool)
    ensures
        fetch == (method == Method::Get),
{
    method == Method::Get
}

/// Why a map page is not served (it is answered with 404 instead).
#[derive(Debug, Clone, Copy, PartialEq, Eq, Structural)]
pub enum PageRefusal {
    /// The page could not be fetched from the site.
    FetchFailed,
    /// The fetched page could not be rewritten.
    Edit(EditError),
}

/// What is served for a map page, given the body fetched from the site
/// (`None` when the fetch failed): the rewritten page, or the refusal.
pub fn mapgenie_html_maps_page(fetched: Option<&String>) -> (r: Result<String, PageRefusal>)
    ensures
        match fetched {
            None => r == Err::<String, PageRefusal>(PageRefusal::FetchFailed),
            Some(body) => match edit_html_maps_spec(body@) {
                Ok(page) => r matches Ok(s) && s@ == page,
                Err(e) => r == Err::<String, PageRefusal>(PageRefusal::Edit(e)),
            },
        },
{
    match fetched {
        None => Err(PageRefusal::FetchFailed),
        Some(body) => match edit_html_maps(body) {
            Ok(page) => Ok(page),
            Err(e) => Err(PageRefusal::Edit(e)),
        },
    }
}


/// A page without the configuration script is refused with `StartNotFound`.
pub proof fn law_page_without_script_refused(html: Seq<char>)
    requires
        !crate::text::contains_seq(html, script_open_marker()),
    ensures
        edit_html_maps_spec(html) == Err::<Seq<char>, EditError>(EditError::StartNotFound),
{
    crate::text::lemma_find_first_contains(html, script_open_marker());
}

/// Renaming `window.` in a script that begins with `window.` renames that
/// first one and goes on with the rest.
proof fn lemma_rename_leading_window(script: Seq<char>)
    requires
        has_prefix(script, "window."@),
    ensures
        replace_all(script, "window."@, "w."@) == "w."@ + replace_all(script.skip(7), "window."@, "w."@),
{
    reveal_strlit("window.");
}

/// The marker at `start` and the closing tag at `end` that the rewrite of a
/// page works from, with the script between them beginning with `window.`.
proof fn lemma_script_bounds(html: Seq<char>, start: int, end: int)
    requires
        find_first(html, "<script>window.mapUrl"@) == Some(start),
        find_from(html, "</script>"@, start) == Some(end),
    ensures
        0 <= start,
        start + 21 <= end,
        end + 9 <= html.len(),
        has_prefix(html.subrange(start + 8, end), "window."@),
        html.subrange(start + 8, end).skip(7) == html.subrange(start + 15, end),
{
    reveal_strlit("<script>window.mapUrl");
    reveal_strlit("</script>");
    reveal_strlit("window.");
    lemma_find_from(html, "<script>window.mapUrl"@, 0);
    lemma_find_from(html, "</script>"@, start);
    lemma_close_after_open(html, start, end);
    let open = html.subrange(start, start + 21);
    let script = html.subrange(start + 8, end);
    assert forall|i: int| 0 <= i < 7 implies #[trigger] script.take(7)[i] == "window."@[i] by {
        assert(script[i] == html[start + 8 + i]);
        assert(open[8 + i] == html[start + 8 + i]);
    }
    assert(script.take(7) =~= "window."@);
    assert(script.skip(7) =~= html.subrange(start + 15, end));
}

/// The rewrite of a page that holds the configuration script leaves
/// everything before the script as it was, and everything from its closing
/// tag on; in between come the injected stylesheet and script and the
/// configuration, whose leading `window.` is renamed to `w.`.
pub proof fn law_page_rewrite_keeps_the_rest(html: Seq<char>, start: int, end: int)
    requires
        find_first(html, "<script>window.mapUrl"@) == Some(start),
        find_from(html, "</script>"@, start) == Some(end),
    ensures
        edit_html_maps_spec(html) matches Ok(page) && {
            &&& page.take(start) == html.take(start)
            &&& has_suffix(page, "injectInputs(w);"@ + html.skip(end))
            &&& has_prefix(
                page.skip(start),
                "\n"@ + "<link rel=\"stylesheet\" href=\"https://mapgenie.io/inject/mapgenie_script.css\" />"@
                    + "<script type=\"application/javascript\" src=\"https://mapgenie.io/inject/mapgenie_script.js\"></script>"@
                    + "\n<script>const w = {};w."@,
            )
        },
{
    lemma_script_bounds(html, start, end);
    let script = html.subrange(start + 8, end);
    lemma_rename_leading_window(script);
    let rest = replace_all(script.skip(7), "window."@, "w."@);
    let tail = "injectInputs(w);"@ + html.skip(end);
    let lead = "\n"@ + "<link rel=\"stylesheet\" href=\"https://mapgenie.io/inject/mapgenie_script.css\" />"@
        + "<script type=\"application/javascript\" src=\"https://mapgenie.io/inject/mapgenie_script.js\"></script>"@
        + "\n<script>const w = {};w."@;
    reveal_strlit("\n<script>const w = {};w.");
    reveal_strlit("\n<script>");
    reveal_strlit("const w = {};");
    reveal_strlit("w.");
    let tags = "\n"@
        + "<link rel=\"stylesheet\" href=\"https://mapgenie.io/inject/mapgenie_script.css\" />"@
        + "<script type=\"application/javascript\" src=\"https://mapgenie.io/inject/mapgenie_script.js\"></script>"@;
    assert("\n<script>const w = {};w."@ =~= "\n<script>"@ + "const w = {};"@ + "w."@);
    assert(page_head_insert() == tags + "\n<script>"@ + "const w = {};"@);
    assert(lead == tags + "\n<script>const w = {};w."@);
    assert(page_head_insert() + "w."@ =~= lead);
    let page = html.take(start) + lead + rest + tail;
    assert(edit_html_maps_spec(html) == Ok::<Seq<char>, EditError>(page)) by {
        assert(html.take(start) + page_head_insert() + ("w."@ + rest) + "injectInputs(w);"@ + html.skip(end)
            =~= page);
    }
    assert(page.take(start) =~= html.take(start));
    assert(page.skip(page.len() - tail.len()) =~= tail);
    assert(page.skip(start).take(lead.len() as int) =~= lead);
}

/// A page whose configuration script is never closed is refused with
/// `EndNotFound`.
pub proof fn law_unclosed_script_refused(html: Seq<char>, start: int)
    requires
        find_first(html, "<script>window.mapUrl"@) == Some(start),
        !crate::text::contains_seq(html.skip(start), "</script>"@),
    ensures
        edit_html_maps_spec(html) == Err::<Seq<char>, EditError>(EditError::EndNotFound),
{
    reveal_strlit("</script>");
    lemma_find_from(html, "<script>window.mapUrl"@, 0);
    lemma_find_from(html, "</script>"@, start);
    if let Some(end) = find_from(html, "</script>"@, start) {
        assert(html.skip(start).subrange(end - start, end - start + 9) =~= html.subrange(end, end + 9));
        assert(matches_at(html.skip(start), "</script>"@, end - start));
    }
}

/// A configuration script that uses no `window.` beyond its leading one is
/// moved over with only that one renamed.
pub proof fn law_script_without_window_kept(html: Seq<char>, start: int, end: int)
    requires
        find_first(html, "<script>window.mapUrl"@) == Some(start),
        find_from(html, "</script>"@, start) == Some(end),
        !crate::text::contains_seq(html.subrange(start + 15, end), "window."@),
    ensures
        edit_html_maps_spec(html) == Ok::<Seq<char>, EditError>(
            html.take(start) + page_head_insert() + "w."@ + html.subrange(start + 15, end)
                + "injectInputs(w);"@ + html.skip(end),
        ),
{
    reveal_strlit("window.");
    lemma_script_bounds(html, start, end);
    lemma_rename_leading_window(html.subrange(start + 8, end));
    crate::text::law_replace_without_occurrence(html.subrange(start + 15, end), "window."@, "w."@);
    assert(html.take(start) + page_head_insert() + ("w."@ + html.subrange(start + 15, end))
        + "injectInputs(w);"@ + html.skip(end) =~= html.take(start) + page_head_insert() + "w."@
        + html.subrange(start + 15, end) + "injectInputs(w);"@ + html.skip(end));
}

/// Every URL under the notes endpoint is a note request, the bare endpoint
/// (where new notes are posted) among them.
pub proof fn law_notes_urls_are_notes(url: Seq<char>)
    requires
        has_prefix(url, "https://mapgenie.io/api/v1/user/notes"@),
    ensures
        mapgenie_api_spec(url) == Ok::<ApiRoute, RequestFault>(ApiRoute::Notes),
{
    reveal_strlit("https://mapgenie.io/api/v1/user/notes");
    reveal_strlit("https://mapgenie.io/api/v1/user/locations/");
    assert(url[32] == url.take(37)[32]);
    if has_prefix(url, locations_prefix()) {
        assert(url[32] == url.take(42)[32]);
    }
}

/// Every URL under the site's `api/` is served by the API, whatever
/// endpoint follows.
pub proof fn law_api_urls_route_to_api(url: Seq<char>, r: MapGenieRoute)
    requires
        route_spec(url, r),
        has_prefix(url, "https://mapgenie.io/api/"@),
    ensures
        r is Api,
{
    reveal_strlit("https://mapgenie.io/api/");
    reveal_strlit("https://mapgenie.io/inject/");
    assert(url[20] == url.take(24)[20]);
    if has_prefix(url, inject_prefix()) {
        assert(url[20] == url.take(27)[20]);
    }
}

/// A map-data URL that names a game and a map in decimal is served by the
/// API, which reads those two numbers back from it.
pub proof fn law_map_data_url_names_game_and_map(game: u64, map: u64, r: MapGenieRoute)
    requires
        route_spec(
            "https://mapgenie.io/api/local/map-data/"@ + crate::text::decimal(game as nat) + "/"@
                + crate::text::decimal(map as nat),
            r,
        ),
    ensures
        r is Api,
        mapgenie_api_spec(
            "https://mapgenie.io/api/local/map-data/"@ + crate::text::decimal(game as nat) + "/"@
                + crate::text::decimal(map as nat),
        ) == Ok::<ApiRoute, RequestFault>(ApiRoute::LocalMapData { game_id: game, map_id: map }),
{
    let dg = crate::text::decimal(game as nat);
    let dm = crate::text::decimal(map as nat);
    let prefix = "https://mapgenie.io/api/local/map-data/"@;
    let rest = dg + "/"@ + dm;
    let url = prefix + dg + "/"@ + dm;
    reveal_strlit("https://mapgenie.io/api/local/map-data/");
    reveal_strlit("https://mapgenie.io/api/v1/user/notes");
    reveal_strlit("https://mapgenie.io/api/v1/user/locations/");
    reveal_strlit("https://mapgenie.io/api/");
    reveal_strlit("/");
    crate::text::lemma_decimal_digits(game as nat);
    crate::text::lemma_decimal_digits(map as nat);
    assert(url.take(39) =~= prefix);
    assert(url.take(24) =~= "https://mapgenie.io/api/"@);
    law_api_urls_route_to_api(url, r);
    assert(url[24] == prefix[24]);
    if has_prefix(url, locations_prefix()) {
        assert(url[24] == url.take(42)[24]);
    }
    if has_prefix(url, notes_prefix()) {
        assert(url[24] == url.take(37)[24]);
    }
    assert(has_prefix(url, map_data_prefix()));
    // The prefix is taken off once, and the rest holds no copy of it.
    assert(url.skip(39) =~= rest);
    assert forall|i: int| !matches_at(rest, prefix, i) by {
        if matches_at(rest, prefix, i) {
            assert(rest[i] == rest.subrange(i, i + 39)[0]);
            if i < dg.len() {
                assert(rest[i] == dg[i]);
            } else if i > dg.len() {
                assert(rest[i] == dm[i - dg.len() - 1]);
            }
        }
    }
    crate::text::law_replace_without_occurrence(rest, prefix, Seq::<char>::empty());
    assert(replace_all(url, prefix, Seq::<char>::empty()) =~= rest);
    // The rest splits into the two numbers.
    assert(!dm.contains('/')) by {
        if dm.contains('/') {
            let k = choose|k: int| 0 <= k < dm.len() && dm[k] == '/';
            assert(crate::text::is_digit(dm[k]));
        }
    }
    assert(!dg.contains('/')) by {
        if dg.contains('/') {
            let k = choose|k: int| 0 <= k < dg.len() && dg[k] == '/';
            assert(crate::text::is_digit(dg[k]));
        }
    }
    assert("/"@ =~= seq!['/']);
    crate::text::lemma_split_append(dg, '/', dm);
    crate::text::lemma_split_single(dg, '/');
    let pieces = split_on(rest, '/');
    assert(pieces =~= seq![dg, dm]);
    crate::text::law_decimal_parses_back(game);
    crate::text::law_decimal_parses_back(map);
    assert(all_numbers(pieces)) by {
        assert forall|i: int| 0 <= i < pieces.len() implies (#[trigger] parse_u64_spec(pieces[i])) is Some by {
            if i == 0 {
                assert(pieces[i] == dg);
            } else {
                assert(pieces[i] == dm);
            }
        }
    }
}

/// The lengths a note request hands on are byte counts: a body's length is
/// the number of bytes the request carried, and the text handed on encodes
/// back to exactly those bytes; a note name's length is the number of bytes
/// of its UTF-8 encoding.
pub proof fn law_note_lengths_are_byte_counts(
    method: Method,
    map_id: Option<Seq<u8>>,
    game_id: Option<Seq<u8>>,
    path: Seq<char>,
    body: Seq<u8>,
)
    ensures
        match notes_spec(method, map_id, game_id, path, body) {
            NotesView::Add { body: text, body_len, .. } => {
                &&& body_len == body.len()
                &&& encode_utf8(text) == body
            },
            NotesView::Update { body: text, body_len, note_id, note_id_len, .. } => {
                &&& body_len == body.len()
                &&& encode_utf8(text) == body
                &&& note_id_len == encode_utf8(note_id).len()
            },
            NotesView::Delete { note_id, note_id_len, .. } => note_id_len == encode_utf8(note_id).len(),
            _ => true,
        },
{
    if valid_utf8(body) {
        vstd::utf8::decode_utf8_encode_utf8(body);
    }
}

/// A location URL that names a location in decimal is a location request
/// for that location.
pub proof fn law_location_url_names_location(id: u64)
    ensures
        mapgenie_api_spec("https://mapgenie.io/api/v1/user/locations/"@ + crate::text::decimal(id as nat))
            == Ok::<ApiRoute, RequestFault>(ApiRoute::Locations { location_id: id }),
{
    let d = crate::text::decimal(id as nat);
    let url = "https://mapgenie.io/api/v1/user/locations/"@ + d;
    reveal_strlit("https://mapgenie.io/api/v1/user/locations/");
    reveal_strlit("https://mapgenie.io/api/v1/user/locations");
    assert(url.take(42) =~= "https://mapgenie.io/api/v1/user/locations/"@);
    crate::text::lemma_decimal_digits(id as nat);
    assert(!d.contains('/')) by {
        if d.contains('/') {
            let k = choose|k: int| 0 <= k < d.len() && d[k] == '/';
            assert(crate::text::is_digit(d[k]));
        }
    }
    assert(url =~= "https://mapgenie.io/api/v1/user/locations"@ + seq!['/'] + d);
    crate::text::lemma_split_append("https://mapgenie.io/api/v1/user/locations"@, '/', d);
    crate::text::law_decimal_parses_back(id);
}

} // verus!
