//! The web view's own request handling: refused hosts, the saved set of
//! found locations, and the map page served with them.
use vstd::prelude::*;
use crate::text::{
    chars_of, decimal, extend_str, find_first, find_first_exec, has_prefix,
    has_suffix, join_strings, join_with, push_decimal, replace_all, replace_all_exec,
    split_exec, split_on, starts_with_exec, ends_with_exec, string_of, views_of,
};

verus! {

/// The hosts whose requests the web view refuses, by suffix.
pub open spec fn blocked_host_suffixes() -> Seq<Seq<char>> {
    seq![
        "chartbeat.net"@,
        "doubleclick.net"@,
        "google-analytics.com"@,
        "googletagmanager.com"@,
        "scorecardresearch.com"@,
        "ziffstatic.com"@,
        "zdbb.net"@,
    ]
}

/// `host` ends with one of the refused suffixes.
pub open spec fn is_blocked_host(host: Seq<char>) -> bool {
    exists|k: int|
        0 <= k < blocked_host_suffixes().len() && has_suffix(host, #[trigger] blocked_host_suffixes()[k])
}

/// Where found locations are marked and unmarked.
pub open spec fn location_toggle_prefix() -> Seq<char> {
    "https://mapgenie.io/api/v1/user/locations/"@
}

/// The map page that is served with the saved locations.
pub open spec fn served_map_uri() -> Seq<char> {
    "https://mapgenie.io/elden-ring/maps/the-lands-between"@
}

/// What the web view does with a request.
#[derive(Debug, PartialEq, Eq)]
pub enum RequestPlan {
    /// Refuse it (an error for the web view).
    Blocked,
    /// Toggle the location `id` in the saved set and answer with
    /// `location_toggled_response`.
    ToggleLocation { id: String },
    /// Serve the map page built by `render_map`.
    RenderMap,
    /// Leave it to the web view.
    PassThrough,
}

/// What a `RequestPlan` says, as plain values.
pub enum PlanView {
    Blocked,
    ToggleLocation(Seq<char>),
    RenderMap,
    PassThrough,
}

/// The view of a plan.
pub open spec fn plan_view(p: RequestPlan) -> PlanView {
    match p {
        RequestPlan::Blocked => PlanView::Blocked,
        RequestPlan::ToggleLocation { id } => PlanView::ToggleLocation(id@),
        RequestPlan::RenderMap => PlanView::RenderMap,
        RequestPlan::PassThrough => PlanView::PassThrough,
    }
}

/// What the web view does with a request for `uri`. The host is the third
/// `/`-separated piece of the URI; a URI without one has no plan. Refused
/// hosts come first; then a location URI toggles the location named by the
/// rest of the URI; then the served map page is built; anything else passes.
pub open spec fn request_plan_spec(uri: Seq<char>) -> Option<PlanView> {
    let pieces = split_on(uri, '/');
    if pieces.len() < 3 {
        None
    } else if is_blocked_host(pieces[2]) {
        Some(PlanView::Blocked)
    } else if has_prefix(uri, location_toggle_prefix()) {
        Some(PlanView::ToggleLocation(uri.skip(location_toggle_prefix().len() as int)))
    } else if uri == served_map_uri() {
        Some(PlanView::RenderMap)
    } else {
        Some(PlanView::PassThrough)
    }
}

/// The customisation of the web view.
pub struct Custom {}

impl Custom {
    /// The filter the web view hands requests over by: every URI.
    pub fn custom_filter(&self, source: &str) -> (r: String)
        ensures
            r@ == "*"@,
    {
        "*".to_owned()
    }

    /// Decides what the web view does with a request (see `request_plan_spec`).
    pub fn handle_request(&self, uri: &str) -> (r: Option<RequestPlan>)
        ensures
            match r {
                Some(p) => request_plan_spec(uri@) == Some(plan_view(p)),
                None => request_plan_spec(uri@) is None,
            },
    {
        let u = chars_of(uri);
        let pieces = split_exec(u.as_slice(), '/');
        if pieces.len() < 3 {
            return None;
        }
        if blocked_host(pieces[2].as_slice()) {
            return Some(RequestPlan::Blocked);
        }
        let prefix = chars_of("https://mapgenie.io/api/v1/user/locations/");
        if starts_with_exec(u.as_slice(), prefix.as_slice()) {
            let id = string_of(&u[prefix.len()..u.len()]);
            assert(u@.subrange(prefix@.len() as int, u@.len() as int) =~= u@.skip(
                location_toggle_prefix().len() as int,
            ));
            return Some(RequestPlan::ToggleLocation { id });
        }
        let page = chars_of("https://mapgenie.io/elden-ring/maps/the-lands-between");
        if crate::text::same_chars(u.as_slice(), page.as_slice()) {
            return Some(RequestPlan::RenderMap);
        }
        Some(RequestPlan::PassThrough)
    }
}

/// Tests whether `host` is refused.
fn blocked_host(host: &[char]) -> (r: bool)
    ensures
        r == is_blocked_host(host@),
{
    let suffixes: Vec<&'static str> = vec![
        "chartbeat.net",
        "doubleclick.net",
        "google-analytics.com",
        "googletagmanager.com",
        "scorecardresearch.com",
        "ziffstatic.com",
        "zdbb.net",
    ];
    let n = suffixes.len();
    for k in 0..n
        invariant
            n == blocked_host_suffixes().len(),
            suffixes@.len() == n,
            forall|j: int| 0 <= j < n ==> #[trigger] suffixes@[j]@ == blocked_host_suffixes()[j],
            forall|j: int| 0 <= j < k ==> !has_suffix(host@, #[trigger] blocked_host_suffixes()[j]),
    {
        let s = chars_of(suffixes[k]);
        if ends_with_exec(host, s.as_slice()) {
            assert(has_suffix(host@, blocked_host_suffixes()[k as int]));
            return true;
        }
    }
    false
}


/// `locs` without any entry equal to `id`.
pub open spec fn remove_all(locs: Seq<Seq<char>>, id: Seq<char>) -> Seq<Seq<char>>
    decreases locs.len(),
{
    if locs.len() == 0 {
        locs
    } else {
        let rest = remove_all(locs.drop_last(), id);
        if locs.last() == id {
            rest
        } else {
            rest.push(locs.last())
        }
    }
}

/// The saved locations after toggling `id`: every entry equal to it is
/// removed if there is one, else it is appended.
pub open spec fn toggled(locs: Seq<Seq<char>>, id: Seq<char>) -> Seq<Seq<char>> {
    if locs.contains(id) {
        remove_all(locs, id)
    } else {
        locs.push(id)
    }
}

/// The saved locations after reading the file text `data`: the text split
/// at `,`, or the earlier ones when the text is empty.
pub open spec fn loaded_locations(prev: Seq<Seq<char>>, data: Seq<char>) -> Seq<Seq<char>> {
    if data.len() == 0 {
        prev
    } else {
        split_on(data, ',')
    }
}

/// The saved set of found locations, read from its file at most once.
pub struct LocationStore {
    locations: Vec<String>,
    loaded: bool,
}

impl View for LocationStore {
    type V = (Seq<Seq<char>>, bool);

    closed spec fn view(&self) -> (Seq<Seq<char>>, bool) {
        (views_of(self.locations@), self.loaded)
    }
}

impl LocationStore {
    /// No location, not read yet.
    pub fn new() -> (r: Self)
        ensures
            r@ == (Seq::<Seq<char>>::empty(), false),
    {
        let r = LocationStore { locations: Vec::new(), loaded: false };
        assert(views_of(r.locations@) =~= Seq::<Seq<char>>::empty());
        r
    }

    /// Whether the file has been read.
    pub fn is_loaded(&self) -> (r: bool)
        ensures
            r == self@.1,
    {
        self.loaded
    }

    /// The saved locations.
    pub fn locations(&self) -> (r: &Vec<String>)
        ensures
            views_of(r@) == self@.0,
    {
        &self.locations
    }

    /// Takes in the text of the file, unless it was read before.
    pub fn load(&mut self, data: &str)
        ensures
            final(self)@ == (if old(self)@.1 {
                old(self)@
            } else {
                (loaded_locations(old(self)@.0, data@), true)
            }),
    {
        if self.loaded {
            return;
        }
        let d = chars_of(data);
        if d.len() > 0 {
            let pieces = split_exec(d.as_slice(), ',');
            let n = pieces.len();
            let mut locs: Vec<String> = Vec::new();
            for i in 0..n
                invariant
                    n == split_on(d@, ',').len(),
                    pieces@.len() == n,
                    forall|k: int| 0 <= k < n ==> #[trigger] pieces@[k]@ == split_on(d@, ',')[k],
                    locs@.len() == i,
                    forall|k: int| 0 <= k < i ==> #[trigger] locs@[k]@ == split_on(d@, ',')[k],
            {
                locs.push(string_of(pieces[i].as_slice()));
            }
            assert(views_of(locs@) =~= split_on(d@, ','));
            self.locations = locs;
        }
        self.loaded = true;
    }

    /// Toggles the location `id` (see `toggled`).
    pub fn toggle(&mut self, id: &str)
        ensures
            final(self)@ == (toggled(old(self)@.0, id@), old(self)@.1),
    {
        let target = id.to_owned();
        let n = self.locations.len();
        let ghost all = views_of(self.locations@);
        let mut found = false;
        for i in 0..n
            invariant
                n == self.locations@.len(),
                all == views_of(self.locations@),
                found == all.take(i as int).contains(id@),
                target@ == id@,
        {
            assert(all[i as int] == self.locations@[i as int]@);
            assert(all.take(i + 1).contains(id@) == (all.take(i as int).contains(id@) || all[i as int]
                == id@)) by {
                if all.take(i as int).contains(id@) {
                    let k = choose|k: int| 0 <= k < i && #[trigger] all.take(i as int)[k] == id@;
                    assert(all.take(i + 1)[k] == id@);
                }
                if all[i as int] == id@ {
                    assert(all.take(i + 1)[i as int] == id@);
                }
                if all.take(i + 1).contains(id@) {
                    let k = choose|k: int| 0 <= k < i + 1 && #[trigger] all.take(i + 1)[k] == id@;
                    if k < i {
                        assert(all.take(i as int)[k] == id@);
                    }
                }
            }
            if self.locations[i] == target {
                found = true;
            }
        }
        assert(all.take(n as int) =~= all);
        if found {
            let mut kept: Vec<String> = Vec::new();
            for i in 0..n
                invariant
                    n == self.locations@.len(),
                    all == views_of(self.locations@),
                    views_of(kept@) == remove_all(all.take(i as int), id@),
                    target@ == id@,
            {
                assert(all.take(i + 1).drop_last() =~= all.take(i as int));
                assert(all.take(i + 1).last() == self.locations@[i as int]@);
                if self.locations[i] != target {
                    let ghost before = views_of(kept@);
                    kept.push(self.locations[i].clone());
                    assert(views_of(kept@) =~= before.push(self.locations@[i as int]@));
                }
            }
            self.locations = kept;
        } else {
            let ghost before = views_of(self.locations@);
            self.locations.push(target);
            assert(views_of(self.locations@) =~= before.push(id@));
        }
    }

    /// The text the saved set is written to its file as: the locations joined with `,`.
    pub fn save(&self) -> (r: String)
        ensures
            r@ == join_with(self@.0, ","@),
    {
        let v = join_strings(&self.locations, ",");
        string_of(v.as_slice())
    }
}


/// The user record entry of one found location: `"<id>":true`.
pub open spec fn location_entry(id: Seq<char>) -> Seq<char> {
    "\""@ + id + "\":true"@
}

/// The entries of the found locations, in order.
pub open spec fn location_entries(ids: Seq<Seq<char>>) -> Seq<Seq<char>> {
    ids.map_values(|id: Seq<char>| location_entry(id))
}

/// The script that sets the page's user record: a signed-in user with the
/// given found locations, their count, and no tracked categories,
/// suggestions or presets; its fields joined with `,`.
pub open spec fn user_script(ids: Seq<Seq<char>>) -> Seq<char> {
    "window.user = {"@ + "\"id\":6557285"@ + ","@ + "\"role\":\"user\""@ + ","@
        + "\"locations\":{"@ + join_with(location_entries(ids), ","@) + "}"@ + ","@
        + "\"gameLocationsCount\":"@ + decimal(ids.len()) + ","@ + "\"hasPro\":true"@ + ","@
        + "\"trackedCategoryIds\":[]"@ + ","@ + "\"suggestions\":[]"@ + ","@ + "\"presets\":[]"@
        + "};"@
}

/// Appends the entries of the found locations, joined with `,`.
fn push_location_entries(out: &mut Vec<char>, ids: &Vec<String>)
    ensures
        final(out)@ == old(out)@ + join_with(location_entries(views_of(ids@)), ","@),
{
    let n = ids.len();
    let ghost all = location_entries(views_of(ids@));
    let ghost start = out@;
    for i in 0..n
        invariant
            n == ids@.len(),
            all == location_entries(views_of(ids@)),
            out@ == start + join_with(all.take(i as int), ","@),
    {
        assert(all.take(i + 1).drop_last() =~= all.take(i as int));
        assert(all.take(i + 1).last() == location_entry(ids@[i as int]@));
        let ghost before = out@;
        if i > 0 {
            extend_str(out, ",");
        }
        extend_str(out, "\"");
        extend_str(out, ids[i].as_str());
        extend_str(out, "\":true");
        proof {
            if i == 0 {
                assert(join_with(all.take(i as int), ","@) =~= Seq::<char>::empty());
                assert(out@ =~= start + join_with(all.take(i + 1), ","@));
            } else {
                assert(out@ =~= start + join_with(all.take(i + 1), ","@));
            }
        }
    }
    assert(all.take(n as int) =~= all);
}

impl LocationStore {
    /// The script that sets the page's user record (see `user_script`).
    pub fn user_script(&self) -> (r: String)
        ensures
            r@ == user_script(self@.0),
    {
        let mut out = chars_of("window.user = {");
        extend_str(&mut out, "\"id\":6557285");
        extend_str(&mut out, ",");
        extend_str(&mut out, "\"role\":\"user\"");
        extend_str(&mut out, ",");
        extend_str(&mut out, "\"locations\":{");
        push_location_entries(&mut out, &self.locations);
        extend_str(&mut out, "}");
        extend_str(&mut out, ",");
        extend_str(&mut out, "\"gameLocationsCount\":");
        push_decimal(&mut out, self.locations.len() as u64);
        extend_str(&mut out, ",");
        extend_str(&mut out, "\"hasPro\":true");
        extend_str(&mut out, ",");
        extend_str(&mut out, "\"trackedCategoryIds\":[]");
        extend_str(&mut out, ",");
        extend_str(&mut out, "\"suggestions\":[]");
        extend_str(&mut out, ",");
        extend_str(&mut out, "\"presets\":[]");
        extend_str(&mut out, "};");
        string_of(out.as_slice())
    }
}

/// The separator between the header block and the page in the output of
/// the page builder.
pub open spec fn output_separator() -> Seq<char> {
    "======="@
}

/// The header block and the page in the output of the page builder: the
/// text before the first separator, and the text between it and the next
/// one (or the end). Without a separator there is no page.
pub open spec fn output_parts(out: Seq<char>) -> Option<(Seq<char>, Seq<char>)> {
    match find_first(out, output_separator()) {
        None => None,
        Some(i) => {
            let rest = out.skip(i + output_separator().len());
            Some(
                (
                    out.take(i),
                    match find_first(rest, output_separator()) {
                        Some(j) => rest.take(j),
                        None => rest,
                    },
                ),
            )
        },
    }
}

/// The served map page: the user record set to the saved locations, and
/// the left-hand advertising column hidden.
pub open spec fn served_page(page: Seq<char>, ids: Seq<Seq<char>>) -> Seq<char> {
    replace_all(
        replace_all(page, "window.user = null;"@, user_script(ids)),
        "</head>"@,
        "<style>#blobby-left { display: none; }</style></head>"@,
    )
}

/// The map page to serve: its header block and its text.
#[derive(Debug, PartialEq, Eq)]
pub struct RenderedMap {
    pub headers: String,
    pub html: String,
}

/// Builds the map page from the output of the page builder and the saved
/// locations; `None` when the output holds no separator.
pub fn render_map(output: &str, store: &LocationStore) -> (r: Option<RenderedMap>)
    ensures
        match output_parts(output@) {
            None => r is None,
            Some((h, page)) => r matches Some(m) && m.headers@ == h && m.html@ == served_page(
                page,
                store@.0,
            ),
        },
{
    let o = chars_of(output);
    let olen = o.len();
    let sep = chars_of("=======");
    proof {
        reveal_strlit("=======");
    }
    let i = match find_first_exec(o.as_slice(), sep.as_slice()) {
        None => return None,
        Some(i) => i,
    };
    proof {
        crate::text::lemma_find_from(o@, sep@, 0);
        assert(sep@.len() == 7);
        assert(crate::text::matches_at(o@, sep@, i as int));
        assert(i + 7 <= o@.len());
    }
    let rest = &o[i + 7..olen];
    assert(rest@ =~= o@.skip(i + output_separator().len()));
    let page: &[char] = match find_first_exec(rest, sep.as_slice()) {
        Some(j) => {
            proof {
                crate::text::lemma_find_from(rest@, sep@, 0);
            }
            let p = &rest[0..j];
            assert(p@ =~= rest@.take(j as int));
            p
        },
        None => rest,
    };
    let headers = string_of(&o[0..i]);
    assert(o@.subrange(0, i as int) =~= o@.take(i as int));
    let script = store.user_script();
    let script_chars = chars_of(script.as_str());
    let marker = chars_of("window.user = null;");
    proof {
        reveal_strlit("window.user = null;");
        reveal_strlit("</head>");
    }
    let step = replace_all_exec(page, marker.as_slice(), script_chars.as_slice());
    let head = chars_of("</head>");
    let style = chars_of("<style>#blobby-left { display: none; }</style></head>");
    let html = replace_all_exec(step.as_slice(), head.as_slice(), style.as_slice());
    Some(RenderedMap { headers, html: string_of(html.as_slice()) })
}

/// The standard reason phrase of a status code, as the `http` crate gives it.
pub uninterp spec fn canonical_reason(code: u16) -> Option<Seq<char>>;

/// `http::StatusCode::from_u16` followed by `StatusCode::canonical_reason`.
/// The contract claims that the result is the crate's phrase for `code`,
/// absent for codes it refuses or has no phrase for, and that the phrase for
/// 200 is `OK` (the crate's table entry `(200, OK, "OK")`); the rest of the
/// table is not stated.
#[verifier::external_body]
fn reason_phrase(code: u16) -> (r: Option<String>)
    ensures
        match r {
            Some(s) => canonical_reason(code) == Some(s@),
            None => canonical_reason(code) is None,
        },
        r is Some || code != 200,
        r matches Some(s) ==> (code == 200 ==> s@ == "OK"@),
{
    match http::StatusCode::from_u16(code) {
        Ok(status) => match status.canonical_reason() {
            Some(phrase) => Some(phrase.to_string()),
            None => None,
        },
        Err(_) => None,
    }
}

/// The reason phrase sent with a status: the standard one, or `OK` when
/// there is none.
pub fn reason_or_ok(reason: Option<String>) -> (r: String)
    ensures
        r@ == match reason {
            Some(s) => s@,
            None => "OK"@,
        },
{
    match reason {
        Some(s) => s,
        None => "OK".to_owned(),
    }
}

/// An answer of the web view: status, reason phrase, optional header block, body.
#[derive(Debug, PartialEq, Eq)]
pub struct WebResponse {
    pub status: u16,
    pub reason: String,
    pub headers: Option<String>,
    pub body: String,
}

/// The answer after a location was toggled: 200 with `{}` and no header block.
pub fn location_toggled_response() -> (r: WebResponse)
    ensures
        r.status == 200,
        r.reason@ == "OK"@,
        r.headers is None,
        r.body@ == "{}"@,
{
    WebResponse {
        status: 200,
        reason: reason_or_ok(reason_phrase(200)),
        headers: None,
        body: "{}".to_owned(),
    }
}

/// The answer that serves the map page: 200 with its header block and text.
pub fn map_page_response(map: RenderedMap) -> (r: WebResponse)
    ensures
        r.status == 200,
        r.reason@ == "OK"@,
        r.headers matches Some(h) && h@ == map.headers@,
        r.body@ == map.html@,
{
    WebResponse {
        status: 200,
        reason: reason_or_ok(reason_phrase(200)),
        headers: Some(map.headers),
        body: map.html,
    }
}


proof fn lemma_remove_all_absent(locs: Seq<Seq<char>>, id: Seq<char>)
    ensures
        !remove_all(locs, id).contains(id),
    decreases locs.len(),
{
    if locs.len() > 0 {
        lemma_remove_all_absent(locs.drop_last(), id);
        let rest = remove_all(locs.drop_last(), id);
        if locs.last() != id {
            assert(!rest.push(locs.last()).contains(id)) by {
                if rest.push(locs.last()).contains(id) {
                    let k = choose|k: int| 0 <= k < rest.len() + 1 && #[trigger] rest.push(locs.last())[k] == id;
                    if k < rest.len() {
                        assert(rest[k] == id);
                    }
                }
            }
        }
    }
}

proof fn lemma_remove_all_missing(locs: Seq<Seq<char>>, id: Seq<char>)
    requires
        !locs.contains(id),
    ensures
        remove_all(locs, id) == locs,
    decreases locs.len(),
{
    if locs.len() > 0 {
        assert(!locs.drop_last().contains(id)) by {
            if locs.drop_last().contains(id) {
                let k = choose|k: int| 0 <= k < locs.len() - 1 && #[trigger] locs.drop_last()[k] == id;
                assert(locs[k] == id);
            }
        }
        lemma_remove_all_missing(locs.drop_last(), id);
        assert(locs.last() != id) by {
            assert(locs[locs.len() - 1] == locs.last());
        }
        assert(locs.drop_last().push(locs.last()) =~= locs);
    }
}

/// Toggling a location flips whether it is saved.
pub proof fn law_toggle_flips_membership(locs: Seq<Seq<char>>, id: Seq<char>)
    ensures
        toggled(locs, id).contains(id) == !locs.contains(id),
{
    if locs.contains(id) {
        lemma_remove_all_absent(locs, id);
    } else {
        assert(locs.push(id)[locs.len() as int] == id);
    }
}

/// Toggling a location that is not saved, twice, gives the saved set back.
pub proof fn law_toggle_twice_restores(locs: Seq<Seq<char>>, id: Seq<char>)
    requires
        !locs.contains(id),
    ensures
        toggled(toggled(locs, id), id) == locs,
{
    let pushed = locs.push(id);
    assert(pushed[locs.len() as int] == id);
    assert(pushed.drop_last() =~= locs);
    lemma_remove_all_missing(locs, id);
}

/// The saved text of a set of locations, read into an empty store, gives
/// the set back, when no location holds a `,` and the set is not a single
/// empty location.
pub proof fn law_saved_locations_load_back(locs: Seq<Seq<char>>)
    requires
        forall|i: int| 0 <= i < locs.len() ==> !(#[trigger] locs[i]).contains(','),
        locs != seq![Seq::<char>::empty()],
    ensures
        loaded_locations(Seq::<Seq<char>>::empty(), join_with(locs, ","@)) == locs,
{
    reveal_strlit(",");
    assert(","@ =~= seq![',']);
    if locs.len() == 0 {
        assert(locs =~= Seq::<Seq<char>>::empty());
    } else {
        crate::text::lemma_split_join(locs, ',');
        if join_with(locs, ","@).len() == 0 {
            if locs.len() == 1 {
                assert(locs[0] =~= Seq::<char>::empty());
                assert(locs =~= seq![Seq::<char>::empty()]);
            } else {
                assert(join_with(locs, ","@).len() >= 1);
            }
        }
    }
}

/// A request to a refused host is refused, whether the host is one of the
/// refused names itself or lies under one of them.
pub proof fn law_refused_hosts_are_blocked(uri: Seq<char>, suffix: Seq<char>)
    requires
        split_on(uri, '/').len() >= 3,
        suffix == "chartbeat.net"@
            || suffix == "doubleclick.net"@
            || suffix == "google-analytics.com"@
            || suffix == "googletagmanager.com"@
            || suffix == "scorecardresearch.com"@
            || suffix == "ziffstatic.com"@
            || suffix == "zdbb.net"@,
        has_suffix(split_on(uri, '/')[2], suffix),
    ensures
        request_plan_spec(uri) == Some(PlanView::Blocked),
{
    if suffix == "chartbeat.net"@ {
        assert(blocked_host_suffixes()[0] == suffix);
    }
    if suffix == "doubleclick.net"@ {
        assert(blocked_host_suffixes()[1] == suffix);
    }
    if suffix == "google-analytics.com"@ {
        assert(blocked_host_suffixes()[2] == suffix);
    }
    if suffix == "googletagmanager.com"@ {
        assert(blocked_host_suffixes()[3] == suffix);
    }
    if suffix == "scorecardresearch.com"@ {
        assert(blocked_host_suffixes()[4] == suffix);
    }
    if suffix == "ziffstatic.com"@ {
        assert(blocked_host_suffixes()[5] == suffix);
    }
    if suffix == "zdbb.net"@ {
        assert(blocked_host_suffixes()[6] == suffix);
    }
}

/// A request to mark or unmark a location toggles the location named by
/// what follows the location prefix.
pub proof fn law_location_uris_toggle(id: Seq<char>)
    ensures
        request_plan_spec("https://mapgenie.io/api/v1/user/locations/"@ + id)
            == Some(PlanView::ToggleLocation(id)),
{
    let uri = "https://mapgenie.io/api/v1/user/locations/"@ + id;
    reveal_strlit("https://mapgenie.io/api/v1/user/locations/");
    reveal_strlit("https:");
    reveal_strlit("mapgenie.io");
    reveal_strlit("api/v1/user/locations/");
    reveal_strlit("chartbeat.net");
    reveal_strlit("doubleclick.net");
    reveal_strlit("google-analytics.com");
    reveal_strlit("googletagmanager.com");
    reveal_strlit("scorecardresearch.com");
    reveal_strlit("ziffstatic.com");
    reveal_strlit("zdbb.net");
    let empty = Seq::<char>::empty();
    let a0 = "https:"@;
    let a1 = a0 + seq!['/'] + empty;
    let a2 = a1 + seq!['/'] + "mapgenie.io"@;
    let a3 = a2 + seq!['/'] + empty;
    crate::text::lemma_split_single(a0, '/');
    crate::text::lemma_split_append(a0, '/', empty);
    crate::text::lemma_split_append(a1, '/', "mapgenie.io"@);
    crate::text::lemma_split_append(a2, '/', empty);
    let rest = "api/v1/user/locations/"@ + id;
    assert(uri =~= a3 + rest);
    crate::text::lemma_split_prefix(a3, rest, '/', 2);
    let host = split_on(uri, '/')[2];
    assert(host == "mapgenie.io"@);
    assert(!is_blocked_host(host)) by {
        assert(host.skip(3)[0] == 'g');
        assert("zdbb.net"@[0] == 'z');
    }
    assert(uri.take(42) =~= "https://mapgenie.io/api/v1/user/locations/"@);
    assert(uri.skip(42) =~= id);
}

/// The first separator in text made of `a`, the separator and `b` is the
/// one after `a`, when `a` holds none and does not end in `=`.
proof fn lemma_first_separator(a: Seq<char>, b: Seq<char>)
    requires
        !crate::text::contains_seq(a, "======="@),
        a.len() == 0 || a.last() != '=',
    ensures
        find_first(a + "======="@ + b, "======="@) == Some(a.len() as int),
{
    reveal_strlit("=======");
    let sep = "======="@;
    let s = a + sep + b;
    crate::text::lemma_find_from(s, sep, 0);
    assert(s.subrange(a.len() as int, (a.len() + 7) as int) =~= sep);
    assert(crate::text::matches_at(s, sep, a.len() as int));
    if let Some(k) = find_first(s, sep) {
        if k < a.len() {
            assert(s.subrange(k, k + 7) == sep);
            if k + 7 <= a.len() {
                assert(a.subrange(k, k + 7) =~= s.subrange(k, k + 7));
                assert(crate::text::matches_at(a, sep, k));
            } else {
                assert(s.subrange(k, k + 7)[a.len() - 1 - k] == s[a.len() - 1]);
                assert(a.last() == s[a.len() - 1]);
            }
        }
    }
}

/// The page builder's output splits at its separators: the header block is
/// what comes before the first, and the page what lies between it and the
/// next one, when neither part holds a separator or ends in `=`.
pub proof fn law_output_splits_at_separators(headers: Seq<char>, page: Seq<char>, tail: Seq<char>)
    requires
        !crate::text::contains_seq(headers, "======="@),
        headers.len() == 0 || headers.last() != '=',
        !crate::text::contains_seq(page, "======="@),
        page.len() == 0 || page.last() != '=',
    ensures
        output_parts(headers + "======="@ + page + "======="@ + tail) == Some((headers, page)),
        output_parts(headers + "======="@ + page) == Some((headers, page)),
{
    reveal_strlit("=======");
    let sep = "======="@;
    let out = headers + sep + page + sep + tail;
    lemma_first_separator(headers, page + sep + tail);
    assert(headers + sep + (page + sep + tail) =~= out);
    assert(out.take(headers.len() as int) =~= headers);
    assert(out.skip((headers.len() + 7) as int) =~= page + sep + tail);
    lemma_first_separator(page, tail);
    assert((page + sep + tail).take(page.len() as int) =~= page);
    let short = headers + sep + page;
    lemma_first_separator(headers, page);
    assert(short.take(headers.len() as int) =~= headers);
    assert(short.skip((headers.len() + 7) as int) =~= page);
    crate::text::lemma_find_first_contains(page, sep);
}

/// A page that holds neither the empty user record nor a `</head>` is
/// served as it is.
pub proof fn law_page_without_markers_served_unchanged(page: Seq<char>, ids: Seq<Seq<char>>)
    requires
        !crate::text::contains_seq(page, "window.user = null;"@),
        !crate::text::contains_seq(page, "</head>"@),
    ensures
        served_page(page, ids) == page,
{
    reveal_strlit("window.user = null;");
    reveal_strlit("</head>");
    crate::text::law_replace_without_occurrence(page, "window.user = null;"@, user_script(ids));
    crate::text::law_replace_without_occurrence(
        page,
        "</head>"@,
        "<style>#blobby-left { display: none; }</style></head>"@,
    );
}

/// The user record lists every saved location as found, and counts them.
pub proof fn law_user_record_lists_saved_locations(ids: Seq<Seq<char>>, i: int)
    requires
        0 <= i < ids.len(),
    ensures
        crate::text::contains_seq(user_script(ids), "\""@ + ids[i] + "\":true"@),
        crate::text::contains_seq(user_script(ids), "\"gameLocationsCount\":"@ + decimal(ids.len()) + ","@),
{
    let entries = location_entries(ids);
    assert(entries[i] == "\""@ + ids[i] + "\":true"@);
    crate::text::lemma_join_contains(entries, ","@, i);
    let before = "window.user = {"@ + "\"id\":6557285"@ + ","@ + "\"role\":\"user\""@ + ","@
        + "\"locations\":{"@;
    let count = "\"gameLocationsCount\":"@ + decimal(ids.len()) + ","@;
    let after = "}"@ + ","@ + count + "\"hasPro\":true"@ + ","@ + "\"trackedCategoryIds\":[]"@ + ","@
        + "\"suggestions\":[]"@ + ","@ + "\"presets\":[]"@ + "};"@;
    crate::text::lemma_contains_in_context(before, join_with(entries, ","@), after, entries[i]);
    assert(before + join_with(entries, ","@) + after =~= user_script(ids));
    let lead = before + join_with(entries, ","@) + "}"@ + ","@;
    let rest = "\"hasPro\":true"@ + ","@ + "\"trackedCategoryIds\":[]"@ + ","@ + "\"suggestions\":[]"@
        + ","@ + "\"presets\":[]"@ + "};"@;
    assert(crate::text::contains_seq(count, count)) by {
        assert(count.subrange(0, count.len() as int) =~= count);
        assert(crate::text::matches_at(count, count, 0));
    }
    crate::text::lemma_contains_in_context(lead, count, rest, count);
    assert(lead + count + rest =~= user_script(ids));
}

/// A URI with fewer than two `/` names no host, and gets no plan.
pub proof fn law_uris_without_host_get_no_plan(a: Seq<char>, b: Seq<char>)
    requires
        !a.contains('/'),
        !b.contains('/'),
    ensures
        request_plan_spec(a) is None,
        request_plan_spec(a + seq!['/'] + b) is None,
{
    crate::text::lemma_split_single(a, '/');
    crate::text::lemma_split_append(a, '/', b);
}

} // verus!
