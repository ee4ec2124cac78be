use tubu::config::DashLocation;

#[test]
fn manifest_and_segment_urls_join_against_dash_path() {
    let loc = DashLocation::new("http://127.0.0.1:8000/", "dash/", "manifest.mpd").unwrap();
    assert_eq!(loc.mpd_url(), "http://127.0.0.1:8000/dash/manifest.mpd");
    assert_eq!(loc.segment_url("init-0.m4s"), "http://127.0.0.1:8000/dash/init-0.m4s");
    assert_eq!(
        loc.checked_segment_url("chunk-0-00001.m4s"),
        Some("http://127.0.0.1:8000/dash/chunk-0-00001.m4s".to_string())
    );
    assert_eq!(loc.checked_mpd_url(), Some("http://127.0.0.1:8000/dash/manifest.mpd".to_string()));
}

#[test]
fn dash_path_without_slash_replaces_last_segment() {
    let loc = DashLocation::new("http://host/base/", "dash", "m.mpd").unwrap();
    assert_eq!(loc.mpd_url(), "http://host/base/m.mpd");
}

#[test]
fn relative_server_url_is_refused() {
    assert_eq!(
        DashLocation::new("not a url", "dash/", "manifest.mpd").unwrap_err(),
        url::ParseError::RelativeUrlWithoutBase
    );
}

#[test]
fn bad_segment_path_gives_none() {
    let loc = DashLocation::new("http://127.0.0.1:8000/", "dash/", "manifest.mpd").unwrap();
    assert_eq!(loc.checked_segment_url("http://[::1"), None);
}
