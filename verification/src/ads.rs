//! Requests to advertising and tracking hosts, which are answered with 404.
use vstd::prelude::*;
use crate::response::{empty_response, ResponsePlan, ResponseView};
use crate::text::{chars_of, contains_exec, contains_seq};

verus! {

/// The fragments whose presence marks a URL as an advertising or tracking request.
pub open spec fn ad_markers() -> Seq<Seq<char>> {
    seq![
        "doubleclick.net/"@,
        "fastclick.net/"@,
        "cdn.ampproject.org"@,
        "www.googletagmanager.com"@,
        "scorecardresearch.com/"@,
        "2mdn.net/"@,
        "doubleverify.com/"@,
        "ignimgs.com/"@,
        "amazon-adsystem.com/"@,
        "confiant-integrations.net/"@,
        "jsdelivr.net/"@,
        "ziffstatic.com/"@,
        "adnxs.com/"@,
        "chartbeat.net/"@,
        "zdbb.net/"@,
        "liadm.com/"@,
    ]
}

/// `uri` holds one of the advertising markers.
pub open spec fn is_ad_uri(uri: Seq<char>) -> bool {
    exists|k: int| 0 <= k < ad_markers().len() && contains_seq(uri, #[trigger] ad_markers()[k])
}

fn ad_marker_list() -> (v: Vec<&'static str>)
    ensures
        v@.len() == ad_markers().len(),
        forall|k: int| 0 <= k < v@.len() ==> #[trigger] v@[k]@ == ad_markers()[k],
{
    let v = vec![
        "doubleclick.net/",
        "fastclick.net/",
        "cdn.ampproject.org",
        "www.googletagmanager.com",
        "scorecardresearch.com/",
        "2mdn.net/",
        "doubleverify.com/",
        "ignimgs.com/",
        "amazon-adsystem.com/",
        "confiant-integrations.net/",
        "jsdelivr.net/",
        "ziffstatic.com/",
        "adnxs.com/",
        "chartbeat.net/",
        "zdbb.net/",
        "liadm.com/",
    ];
    v
}

/// Whether `uri` is an advertising or tracking request: it contains one of
/// the markers of `ad_markers`.
pub fn is_match(uri: &String) -> (r: bool)
    ensures
        r == is_ad_uri(uri@),
{
    let s = chars_of(uri.as_str());
    let markers = ad_marker_list();
    let n = markers.len();
    for k in 0..n
        invariant
            n == ad_markers().len(),
            s@ == uri@,
            markers@.len() == n,
            forall|j: int| 0 <= j < n ==> #[trigger] markers@[j]@ == ad_markers()[j],
            forall|j: int| 0 <= j < k ==> !contains_seq(uri@, #[trigger] ad_markers()[j]),
    {
        let m = chars_of(markers[k]);
        if contains_exec(s.as_slice(), m.as_slice()) {
            assert(contains_seq(uri@, ad_markers()[k as int]));
            return true;
        }
    }
    false
}

/// The answer to an intercepted request that is refused: 404 with an empty body.
pub fn override_network_404() -> (r: ResponsePlan)
    ensures
        r@ == (ResponseView { status: 404, content_type: None, body: Seq::<char>::empty() }),
{
    empty_response(404)
}

/// A URL that holds one of the advertising markers anywhere, with anything
/// before and after it, is an advertising request.
pub proof fn law_urls_holding_a_marker_are_ads(before: Seq<char>, marker: Seq<char>, after: Seq<char>)
    requires
        marker == "doubleclick.net/"@
            || marker == "fastclick.net/"@
            || marker == "cdn.ampproject.org"@
            || marker == "www.googletagmanager.com"@
            || marker == "scorecardresearch.com/"@
            || marker == "2mdn.net/"@
            || marker == "doubleverify.com/"@
            || marker == "ignimgs.com/"@
            || marker == "amazon-adsystem.com/"@
            || marker == "confiant-integrations.net/"@
            || marker == "jsdelivr.net/"@
            || marker == "ziffstatic.com/"@
            || marker == "adnxs.com/"@
            || marker == "chartbeat.net/"@
            || marker == "zdbb.net/"@
            || marker == "liadm.com/"@,
    ensures
        is_ad_uri(before + marker + after),
{
    let uri = before + marker + after;
    assert(uri.subrange(before.len() as int, (before.len() + marker.len()) as int) =~= marker);
    assert(crate::text::matches_at(uri, marker, before.len() as int));
    if marker == "doubleclick.net/"@ {
        assert(ad_markers()[0] == marker);
    }
    if marker == "fastclick.net/"@ {
        assert(ad_markers()[1] == marker);
    }
    if marker == "cdn.ampproject.org"@ {
        assert(ad_markers()[2] == marker);
    }
    if marker == "www.googletagmanager.com"@ {
        assert(ad_markers()[3] == marker);
    }
    if marker == "scorecardresearch.com/"@ {
        assert(ad_markers()[4] == marker);
    }
    if marker == "2mdn.net/"@ {
        assert(ad_markers()[5] == marker);
    }
    if marker == "doubleverify.com/"@ {
        assert(ad_markers()[6] == marker);
    }
    if marker == "ignimgs.com/"@ {
        assert(ad_markers()[7] == marker);
    }
    if marker == "amazon-adsystem.com/"@ {
        assert(ad_markers()[8] == marker);
    }
    if marker == "confiant-integrations.net/"@ {
        assert(ad_markers()[9] == marker);
    }
    if marker == "jsdelivr.net/"@ {
        assert(ad_markers()[10] == marker);
    }
    if marker == "ziffstatic.com/"@ {
        assert(ad_markers()[11] == marker);
    }
    if marker == "adnxs.com/"@ {
        assert(ad_markers()[12] == marker);
    }
    if marker == "chartbeat.net/"@ {
        assert(ad_markers()[13] == marker);
    }
    if marker == "zdbb.net/"@ {
        assert(ad_markers()[14] == marker);
    }
    if marker == "liadm.com/"@ {
        assert(ad_markers()[15] == marker);
    }
}

} // verus!
