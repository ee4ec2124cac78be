use tubu::errors::{
    reqwest_err_into_sde, request_error, ManifestError, ProcessingError, SegmentDownloadError,
};
use tubu::mpd::InvalidMpd;

fn builder_error() -> reqwest::Error {
    reqwest::Client::new().get("not a url").build().unwrap_err()
}

#[test]
fn non_timeout_request_error_is_request_error() {
    match reqwest_err_into_sde(builder_error(), 10) {
        SegmentDownloadError::RequestError { err } => assert!(err.is_builder()),
        other => panic!("unexpected {:?}", other),
    }
}

#[test]
fn timed_out_request_is_timeout_with_duration() {
    match request_error(builder_error(), 10, true) {
        SegmentDownloadError::Timeout { dur_sec, err } => {
            assert_eq!(dur_sec, 10);
            assert!(err.is_some());
        },
        other => panic!("unexpected {:?}", other),
    }
    assert!(matches!(
        request_error(builder_error(), 10, false),
        SegmentDownloadError::RequestError { .. }
    ));
}

#[test]
fn io_errors_convert() {
    let e = std::io::Error::new(std::io::ErrorKind::Other, "disk full");
    assert!(matches!(SegmentDownloadError::from(e), SegmentDownloadError::SaveError { .. }));
    let e = std::io::Error::new(std::io::ErrorKind::NotFound, "missing");
    match ProcessingError::from(e) {
        ProcessingError::ConcatError { err } => assert_eq!(err.kind(), std::io::ErrorKind::NotFound),
    }
}

#[test]
fn manifest_errors_convert() {
    let m = ManifestError::from(InvalidMpd { error: "bad".to_string() });
    assert!(matches!(m, ManifestError::InvalidManifest { err } if err.error == "bad"));
    assert!(matches!(ManifestError::from(builder_error()), ManifestError::CannotAccess { .. }));
}

#[test]
fn segment_error_messages() {
    let t = SegmentDownloadError::Timeout { dur_sec: 10, err: None };
    assert_eq!(t.message(), "Timed out (10 seconds elapsed)");
    let e = builder_error();
    let expected_tail = e.to_string();
    let t = SegmentDownloadError::Timeout { dur_sec: 7, err: Some(e) };
    assert_eq!(t.message(), format!("Timed out (7 seconds elapsed): {}", expected_tail));
    let e = builder_error();
    let expected_tail = e.to_string();
    let r = SegmentDownloadError::RequestError { err: e };
    assert_eq!(r.message(), format!("Request error: {}", expected_tail));
    let s = SegmentDownloadError::SaveError {
        err: std::io::Error::new(std::io::ErrorKind::Other, "disk full"),
    };
    assert_eq!(s.message(), "Error upon saving the fragment to a file: disk full");
}

#[test]
fn builder_error_is_not_a_timeout() {
    let e = builder_error();
    assert!(!e.is_timeout());
    assert!(matches!(reqwest_err_into_sde(e, 3), SegmentDownloadError::RequestError { .. }));
}
