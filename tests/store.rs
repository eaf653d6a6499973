use y_sweet::store::{
    classify_bucket_error, classify_store_error, is_not_found, BucketProblem, ObjectListing,
    StoreFailure,
};

#[test]
fn listing_spans_pages() {
    let prefix = Some("pre".to_string());
    let mut l = ObjectListing::new(&prefix, "d1/assets/");
    assert_eq!(l.full_prefix, "pre/d1/assets/");
    l.absorb_page(
        &vec!["pre/d1/assets/a.png".to_string(), "pre/d1/assets/".to_string()],
        Some(true),
        Some("t1".to_string()),
    );
    assert!(!l.done);
    assert_eq!(l.continuation, Some("t1".to_string()));
    l.absorb_page(&vec!["pre/d1/assets/b.png".to_string()], None, None);
    assert!(l.done);
    assert_eq!(l.results, vec!["a.png".to_string(), "b.png".to_string()]);
}

#[test]
fn not_found_descriptions() {
    assert!(is_not_found("ServiceError { NoSuchKey }"));
    assert!(is_not_found("raw: Response { status: StatusCode(404), headers: {} }"));
    assert!(is_not_found("NotFound"));
    assert!(!is_not_found("AccessDenied"));
    assert!(!is_not_found("request id 4040-abc timed out"));
}

#[test]
fn missing_bucket_is_not_a_missing_object() {
    let d = "ServiceError { code: NoSuchBucket, status: StatusCode(404) }";
    assert!(!is_not_found(d));
    assert_eq!(classify_store_error(d), StoreFailure::BucketMissing);
    assert_eq!(classify_store_error("NoSuchKey"), StoreFailure::ObjectMissing);
    assert_eq!(classify_store_error("dispatch failure"), StoreFailure::Other);
}

#[test]
fn bucket_problems() {
    assert_eq!(classify_bucket_error("NoSuchBucket: x"), BucketProblem::Missing);
    assert_eq!(classify_bucket_error("AccessDenied"), BucketProblem::Forbidden);
    assert_eq!(classify_bucket_error("403 Forbidden"), BucketProblem::Forbidden);
    assert_eq!(classify_bucket_error("timeout"), BucketProblem::Unreachable);
}
