use cotrans_gateway::channel::TaskWatchMessage;
use cotrans_gateway::query::{convert_msg, json_escape, QueryV1Message};
use cotrans_gateway::r2::{
    pixiv_image_key, public_url, translation_mask_key, tweet_image_key, upload_image_key,
};
use cotrans_gateway::strfmt::{i32_to_dec, i64_to_dec, u64_to_dec, usize_to_dec};
use cotrans_gateway::task::TaskResult;

#[test]
fn decimal_rendering() {
    assert_eq!(u64_to_dec(0), "0");
    assert_eq!(u64_to_dec(7), "7");
    assert_eq!(u64_to_dec(1203), "1203");
    assert_eq!(u64_to_dec(u64::MAX), "18446744073709551615");
    assert_eq!(usize_to_dec(42), "42");
    assert_eq!(i64_to_dec(-1), "-1");
    assert_eq!(i64_to_dec(-102868200), "-102868200");
    assert_eq!(i64_to_dec(i64::MIN), "-9223372036854775808");
    assert_eq!(i32_to_dec(11), "11");
    assert_eq!(i32_to_dec(i32::MIN), "-2147483648");
}

#[test]
fn blob_keys() {
    assert_eq!(
        tweet_image_key("463440424141459456", "Bm54nBCCYAACwBi"),
        "twitter/463440424141459456/Bm54nBCCYAACwBi.png"
    );
    assert_eq!(upload_image_key("abc123"), "upload/abc123.png");
    assert_eq!(translation_mask_key("T1"), "mask/T1.png");
    assert_eq!(pixiv_image_key(102868200, 1), "pixiv/102868200/1.png");
    assert_eq!(public_url("https://pub", "mask/T1.png"), "https://pub/mask/T1.png");
}

#[test]
fn json_of_every_frame() {
    assert_eq!(
        (QueryV1Message::Pending { pos: 3 }).to_json(),
        "{\"type\":\"pending\",\"pos\":3}"
    );
    assert_eq!(
        (QueryV1Message::Status { status: "render".to_owned() }).to_json(),
        "{\"type\":\"status\",\"status\":\"render\"}"
    );
    assert_eq!(
        (QueryV1Message::Result {
            result: TaskResult { translation_mask: "https://pub/mask/T1.png".to_owned() },
        })
        .to_json(),
        "{\"type\":\"result\",\"result\":{\"translation_mask\":\"https://pub/mask/T1.png\"}}"
    );
    assert_eq!(
        (QueryV1Message::Error { error_id: Some("true".to_owned()) }).to_json(),
        "{\"type\":\"error\",\"error_id\":\"true\"}"
    );
    assert_eq!(
        (QueryV1Message::Error { error_id: None }).to_json(),
        "{\"type\":\"error\",\"error_id\":null}"
    );
    assert_eq!(QueryV1Message::NotFound.to_json(), "{\"type\":\"not_found\"}");
}

#[test]
fn json_escaping() {
    assert_eq!(json_escape("plain"), "plain");
    assert_eq!(json_escape("a\"b"), "a\\\"b");
    assert_eq!(json_escape("a\\b"), "a\\\\b");
    assert_eq!(json_escape("a\nb\tc\rd"), "a\\nb\\tc\\rd");
    assert_eq!(json_escape("\u{08}\u{0c}"), "\\b\\f");
    assert_eq!(json_escape("\u{01}\u{1f}"), "\\u0001\\u001f");
    assert_eq!(json_escape("日本語"), "日本語");
    let framed = QueryV1Message::Status { status: "say \"hi\"\n".to_owned() };
    assert_eq!(
        framed.to_json(),
        "{\"type\":\"status\",\"status\":\"say \\\"hi\\\"\\n\"}"
    );
}

#[test]
fn convert_rewrites_mask_to_public_url() {
    let msg = TaskWatchMessage::Result(TaskResult {
        translation_mask: "mask/T1.png".to_owned(),
    });
    let frame = convert_msg(&msg, "https://pub");
    match frame {
        QueryV1Message::Result { result } => {
            assert_eq!(result.translation_mask, "https://pub/mask/T1.png");
        }
        other => panic!("expected a result frame, got {other:?}"),
    }
    let msg = TaskWatchMessage::Error(false);
    let frame = convert_msg(&msg, "https://pub");
    assert_eq!(frame, QueryV1Message::Error { error_id: Some("false".to_owned()) });
}

#[test]
fn overview_json_is_exact() {
    assert_eq!(
        cotrans_gateway::query::overview_json("0.1.0", 2, 3),
        "{\"version\":\"0.1.0\",\"mit_worker\":{\"queue\":2,\"tasks\":3}}"
    );
}
