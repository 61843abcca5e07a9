//! Validation of a direct-upload submission: the multipart fields,
//! collected as plain text and bytes by the HTTP layer, are checked
//! and parsed into a typed request here.

use vstd::prelude::*;

use crate::mit_worker::DispatchOutcome;
use crate::params::{
    parse_detector, parse_direction, parse_language, parse_size, parse_translator, task_state_str,
    Detector, Direction, InvalidDetectorError, InvalidDirectionError, InvalidLanguageError,
    InvalidSizeError, InvalidTranslatorError, Language, Size, Translator,
};
use crate::r2::{public_url, spec_public_url};
use crate::task::{TaskParam, TaskResult};

verus! {

/// The multipart fields of an upload request, as they arrived: text
/// fields as text, the file as bytes, absent fields as nothing.
#[derive(Debug)]
pub struct RawUpload {
    pub retry: Option<String>,
    pub file: Option<Vec<u8>>,
    pub mime: Option<String>,
    pub target_language: Option<String>,
    pub detector: Option<String>,
    pub direction: Option<String>,
    pub translator: Option<String>,
    pub size: Option<String>,
}

/// A validated upload request.
#[derive(Debug)]
pub struct UploadCreateRequest {
    pub retry: Option<bool>,
    pub file: Vec<u8>,
    pub mime: Option<String>,
    pub param: TaskParam,
}

/// Why an upload request was rejected.
#[derive(Debug)]
pub enum UploadError {
    /// The retry field is neither `true` nor `false`.
    BadRetry,
    BadLanguage(InvalidLanguageError),
    BadDetector(InvalidDetectorError),
    BadDirection(InvalidDirectionError),
    BadTranslator(InvalidTranslatorError),
    BadSize(InvalidSizeError),
    MissingFile,
    MissingTargetLanguage,
    MissingDetector,
    MissingDirection,
    MissingTranslator,
    MissingSize,
}

/// The boolean a string denotes, if any: exactly `true` and `false`.
pub open spec fn parse_bool(s: Seq<char>) -> Option<bool> {
    if s == "true"@ {
        Some(true)
    } else if s == "false"@ {
        Some(false)
    } else {
        None
    }
}

/// Whether the present fields of a raw upload all parse.
pub open spec fn fields_parse(raw: RawUpload) -> bool {
    &&& (raw.retry matches Some(t) ==> parse_bool(t@) is Some)
    &&& (raw.target_language matches Some(t) ==> parse_language(t@) is Some)
    &&& (raw.detector matches Some(t) ==> parse_detector(t@) is Some)
    &&& (raw.direction matches Some(t) ==> parse_direction(t@) is Some)
    &&& (raw.translator matches Some(t) ==> parse_translator(t@) is Some)
    &&& (raw.size matches Some(t) ==> parse_size(t@) is Some)
}

/// Whether a raw upload carries every required field.
pub open spec fn fields_complete(raw: RawUpload) -> bool {
    &&& raw.file is Some
    &&& raw.target_language is Some
    &&& raw.detector is Some
    &&& raw.direction is Some
    &&& raw.translator is Some
    &&& raw.size is Some
}

/// Validates a raw upload: every present field must parse and every
/// required field must be present; the typed request carries the
/// parsed values. Rejections report the first offending field, parse
/// failures before missing fields.
pub fn upload_request_of(raw: RawUpload) -> (r: Result<UploadCreateRequest, UploadError>)
    ensures
        r is Ok <==> fields_parse(raw) && fields_complete(raw),
        (match r {
            Ok(req) => {
                &&& (match raw.retry {
                    Some(t) => parse_bool(t@) == Some(req.retry->Some_0) && req.retry is Some,
                    None => req.retry is None,
                })
                &&& raw.file matches Some(f) && req.file@ == f@
                &&& req.mime == raw.mime
                &&& raw.target_language matches Some(t) && parse_language(t@) == Some(
                    req.param.target_language,
                )
                &&& raw.detector matches Some(t) && parse_detector(t@) == Some(req.param.detector)
                &&& raw.direction matches Some(t) && parse_direction(t@) == Some(
                    req.param.direction,
                )
                &&& raw.translator matches Some(t) && parse_translator(t@) == Some(
                    req.param.translator,
                )
                &&& raw.size matches Some(t) && parse_size(t@) == Some(req.param.size)
            },
            Err(e) => {
                match e {
                    UploadError::BadRetry => raw.retry matches Some(t) && parse_bool(t@) is None,
                    UploadError::BadLanguage(err) => raw.target_language matches Some(t)
                        && parse_language(t@) is None && err.0@ == t@,
                    UploadError::BadDetector(err) => raw.detector matches Some(t)
                        && parse_detector(t@) is None && err.0@ == t@,
                    UploadError::BadDirection(err) => raw.direction matches Some(t)
                        && parse_direction(t@) is None && err.0@ == t@,
                    UploadError::BadTranslator(err) => raw.translator matches Some(t)
                        && parse_translator(t@) is None && err.0@ == t@,
                    UploadError::BadSize(err) => raw.size matches Some(t) && parse_size(
                        t@,
                    ) is None && err.0@ == t@,
                    UploadError::MissingFile => fields_parse(raw) && raw.file is None,
                    UploadError::MissingTargetLanguage => fields_parse(raw)
                        && raw.target_language is None,
                    UploadError::MissingDetector => fields_parse(raw) && raw.detector is None,
                    UploadError::MissingDirection => fields_parse(raw) && raw.direction is None,
                    UploadError::MissingTranslator => fields_parse(raw) && raw.translator is None,
                    UploadError::MissingSize => fields_parse(raw) && raw.size is None,
                }
            },
        }),
{
    let retry = match raw.retry {
        Some(t) => {
            if crate::params::str_eq(t.as_str(), "true") {
                Some(true)
            } else if crate::params::str_eq(t.as_str(), "false") {
                Some(false)
            } else {
                return Err(UploadError::BadRetry);
            }
        },
        None => None,
    };
    let target_language = match raw.target_language {
        Some(t) => {
            match Language::from_str(t.as_str()) {
                Ok(l) => Some(l),
                Err(e) => {
                    return Err(UploadError::BadLanguage(e));
                },
            }
        },
        None => None,
    };
    let detector = match raw.detector {
        Some(t) => {
            match Detector::from_str(t.as_str()) {
                Ok(d) => Some(d),
                Err(e) => {
                    return Err(UploadError::BadDetector(e));
                },
            }
        },
        None => None,
    };
    let direction = match raw.direction {
        Some(t) => {
            match Direction::from_str(t.as_str()) {
                Ok(d) => Some(d),
                Err(e) => {
                    return Err(UploadError::BadDirection(e));
                },
            }
        },
        None => None,
    };
    let translator = match raw.translator {
        Some(t) => {
            match Translator::from_str(t.as_str()) {
                Ok(t) => Some(t),
                Err(e) => {
                    return Err(UploadError::BadTranslator(e));
                },
            }
        },
        None => None,
    };
    let size = match raw.size {
        Some(t) => {
            match Size::from_str(t.as_str()) {
                Ok(s) => Some(s),
                Err(e) => {
                    return Err(UploadError::BadSize(e));
                },
            }
        },
        None => None,
    };
    let file = match raw.file {
        Some(f) => f,
        None => {
            return Err(UploadError::MissingFile);
        },
    };
    let target_language = match target_language {
        Some(l) => l,
        None => {
            return Err(UploadError::MissingTargetLanguage);
        },
    };
    let detector = match detector {
        Some(d) => d,
        None => {
            return Err(UploadError::MissingDetector);
        },
    };
    let direction = match direction {
        Some(d) => d,
        None => {
            return Err(UploadError::MissingDirection);
        },
    };
    let translator = match translator {
        Some(t) => t,
        None => {
            return Err(UploadError::MissingTranslator);
        },
    };
    let size = match size {
        Some(s) => s,
        None => {
            return Err(UploadError::MissingSize);
        },
    };
    Ok(
        UploadCreateRequest {
            retry,
            file,
            mime: raw.mime,
            param: TaskParam { target_language, detector, direction, translator, size },
        },
    )
}

/// The image a pixiv submission names among an artwork's pages,
/// counting from zero: the index when it is in range, nothing — the
/// request is rejected — otherwise.
pub fn pixiv_page_index(count: usize, page: i32) -> (r: Option<usize>)
    ensures
        r is Some <==> 0 <= page && (page as int) < count,
        (match r {
            Some(i) => i as int == page as int,
            None => true,
        }),
{
    if page >= 0 && (page as usize) < count {
        Some(page as usize)
    } else {
        None
    }
}

/// The image a twitter submission names among a tweet's photos,
/// counting from one: the zero-based index when it is in range,
/// nothing — the request is rejected — otherwise.
pub fn twitter_photo_index(count: usize, photo: i32) -> (r: Option<usize>)
    ensures
        r is Some <==> 1 <= photo && (photo as int) <= count,
        (match r {
            Some(i) => i as int == photo as int - 1,
            None => true,
        }),
{
    if photo >= 1 && (photo as usize) <= count {
        Some((photo as usize) - 1)
    } else {
        None
    }
}

/// The retry flag a submission carries: the payload's own flag when it
/// has one, otherwise whether the request came on the retrying method.
pub fn effective_retry(payload_retry: Option<bool>, method_retry: bool) -> (r: bool)
    ensures
        r == (match payload_retry {
            Some(b) => b,
            None => method_retry,
        }),
{
    match payload_retry {
        Some(b) => b,
        None => method_retry,
    }
}

/// The body of a task-creation response.
#[derive(Debug, Clone, PartialEq, Eq)]
pub struct UploadCreateResponse {
    pub id: String,
    pub status: String,
    pub result: Option<TaskResult>,
}

/// The response a submission outcome earns: a settled row reports its
/// state and, when done, the public URL of its mask; everything still
/// moving reports pending without a result.
pub fn create_response(outcome: &DispatchOutcome, public_base: &str) -> (r: UploadCreateResponse)
    ensures
        (match *outcome {
            DispatchOutcome::Cached { ref id, state, ref translation_mask } => {
                &&& r.id@ == id@
                &&& r.status@ == task_state_str(state)
                &&& (match translation_mask {
                    Some(mask) => r.result matches Some(res) && res.translation_mask@
                        == spec_public_url(public_base@, mask@),
                    None => r.result is None,
                })
            },
            DispatchOutcome::AlreadyActive { ref id } => r.id@ == id@ && r.status@
                == task_state_str(crate::params::TaskState::Pending) && r.result is None,
            DispatchOutcome::Enqueued { ref id } => r.id@ == id@ && r.status@ == task_state_str(
                crate::params::TaskState::Pending,
            ) && r.result is None,
            DispatchOutcome::NeedsSource { ref id, .. } => r.id@ == id@ && r.status@
                == task_state_str(crate::params::TaskState::Pending) && r.result is None,
        }),
{
    match outcome {
        DispatchOutcome::Cached { id, state, translation_mask } => {
            let result = match translation_mask {
                Some(mask) => Some(
                    TaskResult { translation_mask: public_url(public_base, mask.as_str()) },
                ),
                None => None,
            };
            UploadCreateResponse {
                id: id.clone(),
                status: state.as_str().to_owned(),
                result,
            }
        },
        DispatchOutcome::AlreadyActive { id } => UploadCreateResponse {
            id: id.clone(),
            status: crate::params::TaskState::Pending.as_str().to_owned(),
            result: None,
        },
        DispatchOutcome::Enqueued { id } => UploadCreateResponse {
            id: id.clone(),
            status: crate::params::TaskState::Pending.as_str().to_owned(),
            result: None,
        },
        DispatchOutcome::NeedsSource { id, .. } => UploadCreateResponse {
            id: id.clone(),
            status: crate::params::TaskState::Pending.as_str().to_owned(),
            result: None,
        },
    }
}

} // verus!
