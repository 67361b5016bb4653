//! Where the renditions and the final document go, and when an upload can
//! be spared.
//!
//! Before anything is written the caller asks the object store what it
//! holds at the destination. [`stat_outcome`] reads the answer and
//! [`plan_upload`] decides: bytes whose digest the store already reports
//! are not sent again.

use base64::Engine;
use vstd::prelude::*;
use vstd::string::StringExecFns;
use crate::text::{opt_text, str_eq};

verus! {

/// The path of the final document.
pub const GEOJSON_PATH: &'static str = "trees.json";

pub const GEOJSON_MIME: &'static str = "application/json";

/// The final document is always fetched anew.
pub const GEOJSON_CACHE_CONTROL: &'static str = "no-cache";

pub const WEBP_MIME: &'static str = "image/webp";

pub const DEFAULT_CACHE_CONTROL: &'static str = "public, max-age=3600";

/// The two renditions of a picture.
#[derive(Debug, Clone, Copy, PartialEq, Eq, Structural)]
pub enum ImageType {
    Small,
    Large,
}

impl ImageType {
    /// What follows the picture's id in the rendition's path.
    pub open spec fn suffix(self) -> Seq<char> {
        match self {
            ImageType::Small => "-small.webp"@,
            ImageType::Large => "-large.webp"@,
        }
    }
}

/// The path of a rendition: the picture's id and the rendition's suffix.
pub fn compute_path(id: &str, tp: ImageType) -> (r: String)
    ensures
        r@ == id@ + tp.suffix(),
{
    let mut path = String::from_str(id);
    match tp {
        ImageType::Small => path.append("-small.webp"),
        ImageType::Large => path.append("-large.webp"),
    }
    path
}

/// A destination in the object store, with the headers stored beside the
/// bytes.
#[derive(Debug, Clone, PartialEq, Eq)]
pub struct UploadTarget {
    pub path: String,
    pub content_type: &'static str,
    pub cache_control: &'static str,
}

/// Where a rendition goes.
pub fn image_target(id: &str, tp: ImageType) -> (r: UploadTarget)
    ensures
        r.path@ == id@ + tp.suffix(),
        r.content_type@ == WEBP_MIME@,
        r.cache_control@ == DEFAULT_CACHE_CONTROL@,
{
    UploadTarget {
        path: compute_path(id, tp),
        content_type: WEBP_MIME,
        cache_control: DEFAULT_CACHE_CONTROL,
    }
}

/// Where the final document goes.
pub fn geojson_target() -> (r: UploadTarget)
    ensures
        r.path@ == GEOJSON_PATH@,
        r.content_type@ == GEOJSON_MIME@,
        r.cache_control@ == GEOJSON_CACHE_CONTROL@,
{
    UploadTarget {
        path: String::from_str(GEOJSON_PATH),
        content_type: GEOJSON_MIME,
        cache_control: GEOJSON_CACHE_CONTROL,
    }
}

/// The MD5 digest of `data`, as `md5::compute` gives it.
pub uninterp spec fn md5_digest(data: Seq<u8>) -> Seq<u8>;

/// Calls `md5::compute` and copies the digest out. The digest is taken to
/// depend on the bytes alone; it is 16 bytes long.
#[verifier::external_body]
fn md5_compute(data: &[u8]) -> (r: Vec<u8>)
    ensures
        r@ == md5_digest(data@),
        r@.len() == 16,
{
    md5::compute(data).0.to_vec()
}

/// The text that the standard base64 engine, with padding, encodes `data`
/// to.
pub uninterp spec fn base64_text(data: Seq<u8>) -> Seq<char>;

/// Calls `encode` of `base64::prelude::BASE64_STANDARD`. The text is taken
/// to depend on the bytes alone. The engine panics where the length of the
/// text does not fit a `usize`; such inputs are left out.
#[verifier::external_body]
fn base64_encode(data: &[u8]) -> (r: String)
    requires
        (data@.len() / 3 + 1) * 4 <= usize::MAX,
    ensures
        r@ == base64_text(data@),
{
    base64::prelude::BASE64_STANDARD.encode(data)
}

/// The digest of `data` in the form in which the object store reports the
/// digest of what it holds: MD5, in base64.
pub open spec fn content_hash(data: Seq<u8>) -> Seq<char> {
    base64_text(md5_digest(data))
}

pub fn compute_hash(data: &[u8]) -> (r: String)
    ensures
        r@ == content_hash(data@),
{
    let digest = md5_compute(data);
    base64_encode(digest.as_slice())
}

/// A JSON value, as far as the answers of the object store are read.
#[derive(Debug)]
pub enum Json {
    /// An object: its members in the order they are written.
    Object(Vec<(String, Json)>),
    /// A number; holds it where it is a whole number from 0 to 2^64 - 1.
    Number(Option<u64>),
    /// Any other value.
    Other,
}

/// The value of the first member named `key`.
pub open spec fn lookup(members: Seq<(String, Json)>, key: Seq<char>) -> Option<Json>
    decreases members.len(),
{
    if members.len() == 0 {
        None
    } else if members.first().0@ == key {
        Some(members.first().1)
    } else {
        lookup(members.drop_first(), key)
    }
}

impl Json {
    /// The member named `key`, if this is an object that has one.
    pub open spec fn member(self, key: Seq<char>) -> Option<Json> {
        match self {
            Json::Object(members) => lookup(members@, key),
            _ => None,
        }
    }

    /// The status code that an error body carries under `error.code`.
    pub open spec fn error_code(self) -> Option<u64> {
        match self.member("error"@) {
            Some(error) => match error.member("code"@) {
                Some(Json::Number(code)) => code,
                _ => None,
            },
            None => None,
        }
    }

    pub fn get(&self, key: &str) -> (r: Option<&Json>)
        ensures
            r is Some <==> self.member(key@) is Some,
            r matches Some(value) ==> self.member(key@) == Some(*value),
    {
        match self {
            Json::Object(members) => {
                let mut i: usize = 0;
                assert(members@.skip(0) =~= members@);
                while i < members.len()
                    invariant
                        i <= members@.len(),
                        self.member(key@) == lookup(members@, key@),
                        lookup(members@.skip(i as int), key@) == lookup(members@, key@),
                    decreases members@.len() - i,
                {
                    proof {
                        assert(members@.skip(i as int).first() == members@[i as int]);
                        assert(members@.skip(i as int).drop_first() =~= members@.skip(i + 1));
                    }
                    if str_eq(members[i].0.as_str(), key) {
                        return Some(&members[i].1);
                    }
                    i += 1;
                }
                None
            },
            _ => None,
        }
    }

    pub fn code(&self) -> (r: Option<u64>)
        ensures
            r == self.error_code(),
    {
        match self.get("error") {
            Some(error) => match error.get("code") {
                Some(Json::Number(code)) => *code,
                _ => None,
            },
            None => None,
        }
    }
}

/// How the object store answered the question what it holds at a path.
#[derive(Debug)]
pub enum StatReply {
    /// It holds an object; with the object's MD5 digest in base64 where
    /// the store tells it.
    Found { md5_hash: Option<String> },
    /// It refused the request and said why in a JSON body.
    BadRequest(Json),
    /// The request failed in any other way.
    Failed,
}

/// What is known of the destination after the store answered.
#[derive(Debug, Clone, PartialEq, Eq)]
pub enum StatOutcome {
    /// Nothing is there.
    Absent,
    /// An object is there.
    Present { md5_hash: Option<String> },
    /// The store could not be asked; the upload fails with the store's
    /// error.
    Failure,
}

/// What is at the destination, as plain values.
pub enum StatOutcomeView {
    Absent,
    Present { md5_hash: Option<Seq<char>> },
    Failure,
}

impl View for StatOutcome {
    type V = StatOutcomeView;

    open spec fn view(&self) -> StatOutcomeView {
        match self {
            StatOutcome::Absent => StatOutcomeView::Absent,
            StatOutcome::Present { md5_hash } => StatOutcomeView::Present {
                md5_hash: opt_text(*md5_hash),
            },
            StatOutcome::Failure => StatOutcomeView::Failure,
        }
    }
}

/// The status code by which the store says that nothing is at the path.
pub const NOT_FOUND: u64 = 404;

/// What the store's answer means. Only a refusal whose body carries the
/// status code 404 under `error.code` says that nothing is there; every
/// other refusal or failure is an error.
pub open spec fn outcome_of(reply: StatReply) -> StatOutcomeView {
    match reply {
        StatReply::Found { md5_hash } => StatOutcomeView::Present { md5_hash: opt_text(md5_hash) },
        StatReply::BadRequest(body) => if body.error_code() == Some(NOT_FOUND) {
            StatOutcomeView::Absent
        } else {
            StatOutcomeView::Failure
        },
        StatReply::Failed => StatOutcomeView::Failure,
    }
}

pub fn stat_outcome(reply: StatReply) -> (r: StatOutcome)
    ensures
        r@ == outcome_of(reply),
{
    match reply {
        StatReply::Found { md5_hash } => StatOutcome::Present { md5_hash },
        StatReply::BadRequest(body) => match body.code() {
            Some(code) => if code == NOT_FOUND {
                StatOutcome::Absent
            } else {
                StatOutcome::Failure
            },
            None => StatOutcome::Failure,
        },
        StatReply::Failed => StatOutcome::Failure,
    }
}

/// Why bytes are sent.
#[derive(Debug, Clone, Copy, PartialEq, Eq, Structural)]
pub enum UploadReason {
    /// Nothing is at the destination.
    Absent,
    /// What is there has another digest.
    HashDiffers,
    /// What is there comes without a digest, so it cannot be told whether
    /// it is the same.
    NoHash,
}

/// What to do about one destination.
#[derive(Debug, Clone, Copy, PartialEq, Eq, Structural)]
pub enum UploadPlan {
    /// The store already holds these bytes: write nothing.
    Skip,
    /// Send the bytes, replacing what is there.
    Upload(UploadReason),
    /// The store could not be asked: write nothing and report its error.
    Fail,
}

/// The plan for sending `data` to a destination of which `existing` is
/// known.
pub open spec fn plan_for(existing: StatOutcomeView, data: Seq<u8>) -> UploadPlan {
    match existing {
        StatOutcomeView::Absent => UploadPlan::Upload(UploadReason::Absent),
        StatOutcomeView::Present { md5_hash: None } => UploadPlan::Upload(UploadReason::NoHash),
        StatOutcomeView::Present { md5_hash: Some(hash) } => if hash == content_hash(data) {
            UploadPlan::Skip
        } else {
            UploadPlan::Upload(UploadReason::HashDiffers)
        },
        StatOutcomeView::Failure => UploadPlan::Fail,
    }
}

/// The number of writes a plan makes.
pub open spec fn writes(plan: UploadPlan) -> nat {
    if plan is Upload {
        1
    } else {
        0
    }
}

/// What a store that reports the digest of what it holds knows of the
/// destination once the plan for `data` was carried out.
pub open spec fn stored_after(existing: StatOutcomeView, data: Seq<u8>) -> StatOutcomeView {
    if plan_for(existing, data) is Upload {
        StatOutcomeView::Present { md5_hash: Some(content_hash(data)) }
    } else {
        existing
    }
}

pub fn plan_upload(existing: &StatOutcome, data: &[u8]) -> (r: UploadPlan)
    ensures
        r == plan_for(existing@, data@),
{
    match existing {
        StatOutcome::Absent => UploadPlan::Upload(UploadReason::Absent),
        StatOutcome::Present { md5_hash: None } => UploadPlan::Upload(UploadReason::NoHash),
        StatOutcome::Present { md5_hash: Some(hash) } => {
            let local = compute_hash(data);
            if str_eq(local.as_str(), hash.as_str()) {
                UploadPlan::Skip
            } else {
                UploadPlan::Upload(UploadReason::HashDiffers)
            }
        },
        StatOutcome::Failure => UploadPlan::Fail,
    }
}

/// Sending the same bytes to the same destination twice writes at most
/// once: whatever was there before, the second time nothing is written.
/// Where nothing was there, or something else, the first time writes.
pub proof fn lemma_upload_is_idempotent(existing: StatOutcomeView, data: Seq<u8>)
    requires
        !(existing is Failure),
    ensures
        plan_for(stored_after(existing, data), data) == UploadPlan::Skip,
        writes(plan_for(existing, data)) + writes(plan_for(stored_after(existing, data), data))
            <= 1,
        existing != (StatOutcomeView::Present { md5_hash: Some(content_hash(data)) }) ==> writes(
            plan_for(existing, data),
        ) + writes(plan_for(stored_after(existing, data), data)) == 1,
        stored_after(stored_after(existing, data), data) == stored_after(existing, data),
{
}

} // verus!
