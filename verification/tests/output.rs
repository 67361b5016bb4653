use tree_sync::output::{
    compute_hash, compute_path, geojson_target, image_target, plan_upload, stat_outcome, ImageType,
    Json, StatOutcome, StatReply, UploadPlan, UploadReason,
};

fn object(members: Vec<(&str, Json)>) -> Json {
    Json::Object(members.into_iter().map(|(name, value)| (name.to_string(), value)).collect())
}

fn not_found_body(code: Json) -> Json {
    object(vec![("error", object(vec![("message", Json::Other), ("code", code)]))])
}

/// An object store that keeps one object and reports its digest.
struct Store {
    held: Option<Vec<u8>>,
    writes: usize,
}

impl Store {
    fn stat(&self) -> StatReply {
        match &self.held {
            Some(bytes) => StatReply::Found { md5_hash: Some(compute_hash(bytes)) },
            None => StatReply::BadRequest(not_found_body(Json::Number(Some(404)))),
        }
    }

    fn upload(&mut self, data: &[u8]) -> UploadPlan {
        let plan = plan_upload(&stat_outcome(self.stat()), data);
        if let UploadPlan::Upload(_) = plan {
            self.held = Some(data.to_vec());
            self.writes += 1;
        }
        plan
    }
}

#[test]
fn paths_of_the_renditions() {
    assert_eq!(compute_path("abc", ImageType::Small), "abc-small.webp");
    assert_eq!(compute_path("abc", ImageType::Large), "abc-large.webp");
    assert_eq!(compute_path("", ImageType::Small), "-small.webp");
}

#[test]
fn targets() {
    let target = image_target("abc", ImageType::Large);
    assert_eq!(target.path, "abc-large.webp");
    assert_eq!(target.content_type, "image/webp");
    assert_eq!(target.cache_control, "public, max-age=3600");
    let target = geojson_target();
    assert_eq!(target.path, "trees.json");
    assert_eq!(target.content_type, "application/json");
    assert_eq!(target.cache_control, "no-cache");
}

#[test]
fn hash_is_md5_in_base64() {
    assert_eq!(compute_hash(b""), "1B2M2Y8AsgTpgAmY7PhCfg==");
    assert_eq!(compute_hash(b"hello world"), "XrY7u+Ae7tCTyyK7j1rNww==");
    assert_ne!(compute_hash(b"hello world"), compute_hash(b"hello world!"));
}

#[test]
fn json_lookup() {
    let body = object(vec![
        ("a", Json::Number(Some(1))),
        ("b", Json::Other),
        ("a", Json::Number(Some(2))),
    ]);
    assert!(matches!(body.get("a"), Some(Json::Number(Some(1)))));
    assert!(matches!(body.get("b"), Some(Json::Other)));
    assert!(body.get("c").is_none());
    assert!(body.get("").is_none());
    assert!(Json::Other.get("a").is_none());
    assert!(Json::Number(Some(404)).get("code").is_none());
    assert!(object(vec![]).get("a").is_none());
}

#[test]
fn error_code_of_a_body() {
    assert_eq!(not_found_body(Json::Number(Some(404))).code(), Some(404));
    assert_eq!(not_found_body(Json::Number(Some(403))).code(), Some(403));
    assert_eq!(not_found_body(Json::Number(None)).code(), None);
    assert_eq!(not_found_body(Json::Other).code(), None);
    assert_eq!(object(vec![("error", Json::Other)]).code(), None);
    assert_eq!(object(vec![("error", object(vec![]))]).code(), None);
    assert_eq!(object(vec![("code", Json::Number(Some(404)))]).code(), None);
    assert_eq!(Json::Other.code(), None);
}

#[test]
fn only_404_means_absent() {
    let absent = stat_outcome(StatReply::BadRequest(not_found_body(Json::Number(Some(404)))));
    assert_eq!(absent, StatOutcome::Absent);
    for body in [
        not_found_body(Json::Number(Some(403))),
        not_found_body(Json::Number(Some(500))),
        not_found_body(Json::Number(None)),
        not_found_body(Json::Other),
        object(vec![]),
        Json::Other,
    ] {
        assert_eq!(stat_outcome(StatReply::BadRequest(body)), StatOutcome::Failure);
    }
    assert_eq!(stat_outcome(StatReply::Failed), StatOutcome::Failure);
}

#[test]
fn found_objects_keep_their_digest() {
    assert_eq!(
        stat_outcome(StatReply::Found { md5_hash: Some("abc".to_string()) }),
        StatOutcome::Present { md5_hash: Some("abc".to_string()) }
    );
    assert_eq!(
        stat_outcome(StatReply::Found { md5_hash: None }),
        StatOutcome::Present { md5_hash: None }
    );
}

#[test]
fn plans() {
    let data = b"hello world";
    assert_eq!(plan_upload(&StatOutcome::Absent, data), UploadPlan::Upload(UploadReason::Absent));
    assert_eq!(
        plan_upload(&StatOutcome::Present { md5_hash: None }, data),
        UploadPlan::Upload(UploadReason::NoHash)
    );
    assert_eq!(
        plan_upload(
            &StatOutcome::Present { md5_hash: Some("XrY7u+Ae7tCTyyK7j1rNww==".to_string()) },
            data
        ),
        UploadPlan::Skip
    );
    assert_eq!(
        plan_upload(
            &StatOutcome::Present { md5_hash: Some("1B2M2Y8AsgTpgAmY7PhCfg==".to_string()) },
            data
        ),
        UploadPlan::Upload(UploadReason::HashDiffers)
    );
    // the digest is compared as text, letter for letter
    assert_eq!(
        plan_upload(
            &StatOutcome::Present { md5_hash: Some("xry7u+ae7tctyyk7j1rnww==".to_string()) },
            data
        ),
        UploadPlan::Upload(UploadReason::HashDiffers)
    );
    assert_eq!(plan_upload(&StatOutcome::Failure, data), UploadPlan::Fail);
}

#[test]
fn uploading_twice_writes_once() {
    let mut store = Store { held: None, writes: 0 };
    assert_eq!(store.upload(b"picture"), UploadPlan::Upload(UploadReason::Absent));
    assert_eq!(store.upload(b"picture"), UploadPlan::Skip);
    assert_eq!(store.writes, 1);
    assert_eq!(store.upload(b"picture"), UploadPlan::Skip);
    assert_eq!(store.writes, 1);
}

#[test]
fn changed_bytes_are_written_again() {
    let mut store = Store { held: Some(b"old".to_vec()), writes: 0 };
    assert_eq!(store.upload(b"new"), UploadPlan::Upload(UploadReason::HashDiffers));
    assert_eq!(store.upload(b"new"), UploadPlan::Skip);
    assert_eq!(store.writes, 1);
    assert_eq!(store.held.as_deref(), Some(&b"new"[..]));
}

#[test]
fn unchanged_bytes_are_never_written() {
    let mut store = Store { held: Some(b"same".to_vec()), writes: 0 };
    assert_eq!(store.upload(b"same"), UploadPlan::Skip);
    assert_eq!(store.upload(b"same"), UploadPlan::Skip);
    assert_eq!(store.writes, 0);
}
