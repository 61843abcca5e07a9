use cotrans_gateway::params::{Detector, Direction, Language, Size, Translator};
use cotrans_gateway::secret::{worker_auth, HeaderXSecret};
use cotrans_gateway::upload::{
    effective_retry, pixiv_page_index, twitter_photo_index, upload_request_of, RawUpload,
    UploadError,
};

#[test]
fn it_works() {
    let result = 2 + 2;
    assert_eq!(result, 4);
}

#[test]
fn worker_auth_requires_the_exact_secret() {
    let header = HeaderXSecret::from_static("tr4nslate");
    assert_eq!(header.as_str(), "tr4nslate");
    assert_eq!(header.as_bytes(), "tr4nslate".as_bytes());
    assert!(worker_auth(Some(&header), "tr4nslate"));
    assert!(!worker_auth(Some(&header), "other"));
    assert!(!worker_auth(Some(&header), "tr4nslate "));
    assert!(!worker_auth(None, "tr4nslate"));
}

fn full_raw() -> RawUpload {
    RawUpload {
        retry: None,
        file: Some(vec![1, 2, 3]),
        mime: Some("image/png".to_owned()),
        target_language: Some("CHS".to_owned()),
        detector: Some("default".to_owned()),
        direction: Some("default".to_owned()),
        translator: Some("google".to_owned()),
        size: Some("M".to_owned()),
    }
}

#[test]
fn upload_request_parses_all_fields() {
    let req = upload_request_of(full_raw()).unwrap();
    assert_eq!(req.retry, None);
    assert_eq!(req.file, vec![1, 2, 3]);
    assert_eq!(req.mime.as_deref(), Some("image/png"));
    assert_eq!(req.param.target_language, Language::CHS);
    assert_eq!(req.param.detector, Detector::Default);
    assert_eq!(req.param.direction, Direction::Default);
    assert_eq!(req.param.translator, Translator::Google);
    assert_eq!(req.param.size, Size::M);

    let req = upload_request_of(RawUpload { retry: Some("true".to_owned()), ..full_raw() })
        .unwrap();
    assert_eq!(req.retry, Some(true));
    let req = upload_request_of(RawUpload { retry: Some("false".to_owned()), ..full_raw() })
        .unwrap();
    assert_eq!(req.retry, Some(false));
}

#[test]
fn upload_request_rejects_bad_fields() {
    let raw = RawUpload { retry: Some("yes".to_owned()), ..full_raw() };
    assert!(matches!(upload_request_of(raw), Err(UploadError::BadRetry)));
    let raw = RawUpload { target_language: Some("klingon".to_owned()), ..full_raw() };
    match upload_request_of(raw) {
        Err(UploadError::BadLanguage(e)) => assert_eq!(e.0, "klingon"),
        other => panic!("expected a language rejection, got {other:?}"),
    }
    let raw = RawUpload { detector: Some("x".to_owned()), ..full_raw() };
    assert!(matches!(upload_request_of(raw), Err(UploadError::BadDetector(_))));
    let raw = RawUpload { direction: Some("x".to_owned()), ..full_raw() };
    assert!(matches!(upload_request_of(raw), Err(UploadError::BadDirection(_))));
    let raw = RawUpload { translator: Some("x".to_owned()), ..full_raw() };
    assert!(matches!(upload_request_of(raw), Err(UploadError::BadTranslator(_))));
    let raw = RawUpload { size: Some("x".to_owned()), ..full_raw() };
    assert!(matches!(upload_request_of(raw), Err(UploadError::BadSize(_))));
}

#[test]
fn upload_request_rejects_missing_fields() {
    let raw = RawUpload { file: None, ..full_raw() };
    assert!(matches!(upload_request_of(raw), Err(UploadError::MissingFile)));
    let raw = RawUpload { target_language: None, ..full_raw() };
    assert!(matches!(
        upload_request_of(raw),
        Err(UploadError::MissingTargetLanguage)
    ));
    let raw = RawUpload { detector: None, ..full_raw() };
    assert!(matches!(upload_request_of(raw), Err(UploadError::MissingDetector)));
    let raw = RawUpload { direction: None, ..full_raw() };
    assert!(matches!(upload_request_of(raw), Err(UploadError::MissingDirection)));
    let raw = RawUpload { translator: None, ..full_raw() };
    assert!(matches!(upload_request_of(raw), Err(UploadError::MissingTranslator)));
    let raw = RawUpload { size: None, ..full_raw() };
    assert!(matches!(upload_request_of(raw), Err(UploadError::MissingSize)));
}

#[test]
fn retry_flag_prefers_the_payload() {
    assert!(effective_retry(Some(true), false));
    assert!(!effective_retry(Some(false), true));
    assert!(effective_retry(None, true));
    assert!(!effective_retry(None, false));
}

#[test]
fn page_and_photo_indexes_are_bounds_checked() {
    // Pages count from zero.
    assert_eq!(pixiv_page_index(11, 0), Some(0));
    assert_eq!(pixiv_page_index(11, 10), Some(10));
    assert_eq!(pixiv_page_index(11, 11), None);
    assert_eq!(pixiv_page_index(11, -1), None);
    assert_eq!(pixiv_page_index(0, 0), None);
    // Photos count from one.
    assert_eq!(twitter_photo_index(4, 1), Some(0));
    assert_eq!(twitter_photo_index(4, 4), Some(3));
    assert_eq!(twitter_photo_index(4, 5), None);
    assert_eq!(twitter_photo_index(4, 0), None);
    assert_eq!(twitter_photo_index(4, -2), None);
}
