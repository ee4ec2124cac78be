//! Where the manifest and the segments of a DASH stream are served.

use vstd::prelude::*;

verus! {

/// `url::ParseError`, carried through unread.
#[verifier::external_type_specification]
#[verifier::external_body]
pub struct ExUrlParseError(url::ParseError);

/// The serialization of `url::Url::join(&b, input)`, where `b` is the URL
/// that `url::Url::parse(base)` reads from the text `base`; `None` where the
/// reading or the join fails.
pub uninterp spec fn url_join_spec(base: Seq<char>, input: Seq<char>) -> Option<Seq<char>>;

/// Calls `url::Url::parse` on `base` and then `url::Url::join` with `input`,
/// and hands back the serialization of the joined URL. The contract claims
/// only that the outcome is the one `url_join_spec` names for these two
/// texts: it succeeds exactly where that name is `Some`, with that text.
#[verifier::external_body]
fn join_url(base: &str, input: &str) -> (r: Result<String, url::ParseError>)
    ensures
        r is Ok <==> url_join_spec(base@, input@) is Some,
        r matches Ok(s) ==> url_join_spec(base@, input@) == Some(s@),
{
    let base_url = url::Url::parse(base)?;
    let joined = base_url.join(input)?;
    Ok(String::from(joined))
}

/// The base URL of a DASH stream and the name of its manifest.
#[derive(Debug, Clone)]
pub struct DashLocation {
    dash_url: String,
    mpd_name: String,
}

impl DashLocation {
    /// The serialization of the stream's base URL.
    pub closed spec fn dash_url_text(&self) -> Seq<char> {
        self.dash_url@
    }

    /// The name of the manifest, relative to the base URL.
    pub closed spec fn mpd_name_text(&self) -> Seq<char> {
        self.mpd_name@
    }

    /// The URL that `path` names relative to the stream's base URL.
    pub open spec fn url_of(&self, path: Seq<char>) -> Option<Seq<char>> {
        url_join_spec(self.dash_url_text(), path)
    }

    /// The stream at `dash_path` on the server at `server_url`, with its
    /// manifest named `mpd_name`; fails where either URL is refused.
    pub fn new(server_url: &str, dash_path: &str, mpd_name: &str) -> (r: Result<Self, url::ParseError>)
        ensures
            r is Ok <==> url_join_spec(server_url@, dash_path@) is Some,
            r matches Ok(loc) ==> Some(loc.dash_url_text()) == url_join_spec(server_url@, dash_path@)
                && loc.mpd_name_text() == mpd_name@,
    {
        match join_url(server_url, dash_path) {
            Ok(dash_url) => Ok(DashLocation { dash_url, mpd_name: String::from_str(mpd_name) }),
            Err(e) => Err(e),
        }
    }

    /// The URL of the manifest.
    pub fn mpd_url(&self) -> (u: String)
        requires
            self.url_of(self.mpd_name_text()) is Some,
        ensures
            Some(u@) == self.url_of(self.mpd_name_text()),
    {
        match join_url(self.dash_url.as_str(), self.mpd_name.as_str()) {
            Ok(u) => u,
            Err(_) => {
                proof {
                    assert(false);
                }
                String::new()
            },
        }
    }

    /// The URL of the segment at `segment_path`.
    pub fn segment_url(&self, segment_path: &str) -> (u: String)
        requires
            self.url_of(segment_path@) is Some,
        ensures
            Some(u@) == self.url_of(segment_path@),
    {
        match join_url(self.dash_url.as_str(), segment_path) {
            Ok(u) => u,
            Err(_) => {
                proof {
                    assert(false);
                }
                String::new()
            },
        }
    }

    /// The URL of the manifest, or `None` where the manifest's name does not
    /// make a URL against the base.
    pub fn checked_mpd_url(&self) -> (u: Option<String>)
        ensures
            u is Some <==> self.url_of(self.mpd_name_text()) is Some,
            u matches Some(s) ==> Some(s@) == self.url_of(self.mpd_name_text()),
    {
        match join_url(self.dash_url.as_str(), self.mpd_name.as_str()) {
            Ok(_) => Some(self.mpd_url()),
            Err(_) => None,
        }
    }

    /// The URL of the segment at `segment_path`, or `None` where the path
    /// does not make a URL against the base.
    pub fn checked_segment_url(&self, segment_path: &str) -> (u: Option<String>)
        ensures
            u is Some <==> self.url_of(segment_path@) is Some,
            u matches Some(s) ==> Some(s@) == self.url_of(segment_path@),
    {
        match join_url(self.dash_url.as_str(), segment_path) {
            Ok(_) => Some(self.segment_url(segment_path)),
            Err(_) => None,
        }
    }
}

} // verus!
