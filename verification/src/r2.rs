//! Blob-store keys and public URLs used by the scheduler, and the
//! metadata records of the store's objects.
//!
//! The store itself is an external collaborator reached over HTTP; the
//! keys under which the gateway files images and masks, and the public
//! URL of a stored object, are the gateway's own naming scheme and are
//! specified exactly here.

use vstd::prelude::*;

use crate::strfmt::{dec_of_int, i32_to_dec, i64_to_dec};

verus! {

/// The key of a tweet's image: `twitter/<tweet>/<image>.png`.
pub open spec fn spec_tweet_image_key(tweet_id: Seq<char>, image_id: Seq<char>) -> Seq<char> {
    "twitter/"@ + tweet_id + "/"@ + image_id + ".png"@
}

/// The key of a directly uploaded image: `upload/<sha>.png`.
pub open spec fn spec_upload_image_key(sha: Seq<char>) -> Seq<char> {
    "upload/"@ + sha + ".png"@
}

/// The key of a task's translation mask: `mask/<task>.png`.
pub open spec fn spec_translation_mask_key(task_id: Seq<char>) -> Seq<char> {
    "mask/"@ + task_id + ".png"@
}

/// The key of a pixiv artwork page: `pixiv/<artwork>/<page>.png`.
pub open spec fn spec_pixiv_image_key(artwork_id: int, page: int) -> Seq<char> {
    "pixiv/"@ + dec_of_int(artwork_id) + "/"@ + dec_of_int(page) + ".png"@
}

/// The public URL of a stored object: `<base>/<key>`.
pub open spec fn spec_public_url(base: Seq<char>, key: Seq<char>) -> Seq<char> {
    base + "/"@ + key
}

/// The key under which a tweet's image is stored.
pub fn tweet_image_key(tweet_id: &str, image_id: &str) -> (r: String)
    ensures
        r@ == spec_tweet_image_key(tweet_id@, image_id@),
{
    let mut s = "twitter/".to_owned();
    s.append(tweet_id);
    s.append("/");
    s.append(image_id);
    s.append(".png");
    s
}

/// The key under which a directly uploaded image is stored.
pub fn upload_image_key(sha: &str) -> (r: String)
    ensures
        r@ == spec_upload_image_key(sha@),
{
    let mut s = "upload/".to_owned();
    s.append(sha);
    s.append(".png");
    s
}

/// The key under which a task's translation mask is stored.
pub fn translation_mask_key(task_id: &str) -> (r: String)
    ensures
        r@ == spec_translation_mask_key(task_id@),
{
    let mut s = "mask/".to_owned();
    s.append(task_id);
    s.append(".png");
    s
}

/// The key under which a pixiv artwork page is stored.
pub fn pixiv_image_key(artwork_id: i64, page: i32) -> (r: String)
    ensures
        r@ == spec_pixiv_image_key(artwork_id as int, page as int),
{
    let mut s = "pixiv/".to_owned();
    s.append(i64_to_dec(artwork_id).as_str());
    s.append("/");
    s.append(i32_to_dec(page).as_str());
    s.append(".png");
    s
}

/// The public URL under which a stored object is served.
pub fn public_url(public_base: &str, key: &str) -> (r: String)
    ensures
        r@ == spec_public_url(public_base@, key@),
{
    let mut s = public_base.to_owned();
    s.append("/");
    s.append(key);
    s
}

/// Metadata of one stored object, as the store reports it.
#[derive(Debug, Clone)]
pub struct R2Object {
    pub key: String,
    pub version: String,
    pub size: u32,
    pub etag: String,
    pub http_etag: String,
    pub uploaded: String,
    pub http_metadata: R2HttpMetadata,
    pub custom_metadata: Vec<(String, String)>,
    pub range: R2Range,
}

/// HTTP metadata the store keeps alongside an object.
#[derive(Debug, Clone)]
pub struct R2HttpMetadata {
    pub content_type: Option<String>,
    pub content_language: Option<String>,
    pub content_disposition: Option<String>,
    pub content_encoding: Option<String>,
    pub cache_control: Option<String>,
    pub cache_expiry: Option<String>,
}

/// Byte range of a partial object read.
#[derive(Debug, Clone)]
pub struct R2Range {
    pub offset: Option<u32>,
    pub length: Option<u32>,
    pub suffix: Option<u32>,
}

} // verus!
